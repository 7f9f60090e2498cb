//! RGB colors and the nearest-color search shared by every dithering strategy.

use vstd::prelude::*;

verus! {

/// One pixel: three 8-bit channels.
#[derive(Clone, Copy, Debug, PartialEq, Eq, Structural)]
pub struct Rgb {
    pub r: u8,
    pub g: u8,
    pub b: u8,
}

/// Difference of two channel values, squared.
pub open spec fn channel_gap_sq(a: u8, b: u8) -> int {
    (a - b) * (a - b)
}

/// Squared Euclidean distance of two colors in RGB space.
pub open spec fn distance_sq(a: Rgb, b: Rgb) -> int {
    channel_gap_sq(a.r, b.r) + channel_gap_sq(a.g, b.g) + channel_gap_sq(a.b, b.b)
}

/// `i` is the position of the palette entry nearest to `color`: no entry is
/// strictly nearer, and every entry before it is strictly farther.
pub open spec fn is_nearest(palette: Seq<Rgb>, color: Rgb, i: int) -> bool {
    &&& 0 <= i < palette.len()
    &&& forall|j: int|
        0 <= j < palette.len() ==> distance_sq(color, palette[i]) <= distance_sq(
            color,
            #[trigger] palette[j],
        )
    &&& forall|j: int|
        0 <= j < i ==> distance_sq(color, palette[i]) < distance_sq(color, #[trigger] palette[j])
}

/// Position of the nearest palette entry, the earliest one among equals.
pub open spec fn nearest_index(palette: Seq<Rgb>, color: Rgb) -> int {
    choose|i: int| is_nearest(palette, color, i)
}

/// The palette entry nearest to `color`.
pub open spec fn nearest_color(palette: Seq<Rgb>, color: Rgb) -> Rgb {
    palette[nearest_index(palette, color)]
}

/// At most one position is the nearest one.
pub proof fn lemma_nearest_unique(palette: Seq<Rgb>, color: Rgb, i: int, j: int)
    requires
        is_nearest(palette, color, i),
        is_nearest(palette, color, j),
    ensures
        i == j,
{
    if i < j {
        assert(distance_sq(color, palette[j]) < distance_sq(color, palette[i]));
        assert(distance_sq(color, palette[i]) <= distance_sq(color, palette[j]));
    } else if j < i {
        assert(distance_sq(color, palette[i]) < distance_sq(color, palette[j]));
        assert(distance_sq(color, palette[j]) <= distance_sq(color, palette[i]));
    }
}

/// A position known to be the nearest one is the one `nearest_index` names.
pub proof fn lemma_nearest_index_is(palette: Seq<Rgb>, color: Rgb, i: int)
    requires
        is_nearest(palette, color, i),
    ensures
        nearest_index(palette, color) == i,
        nearest_color(palette, color) == palette[i],
{
    lemma_nearest_unique(palette, color, i, nearest_index(palette, color));
}

/// Every palette that holds a color has a nearest entry for every color.
pub proof fn lemma_nearest_exists(palette: Seq<Rgb>, color: Rgb)
    requires
        palette.len() > 0,
    ensures
        is_nearest(palette, color, nearest_index(palette, color)),
    decreases palette.len(),
{
    if palette.len() == 1 {
        assert(is_nearest(palette, color, 0));
    } else {
        let front = palette.drop_last();
        let last = palette.len() - 1;
        lemma_nearest_exists(front, color);
        let k = nearest_index(front, color);
        assert(forall|j: int| 0 <= j < last ==> front[j] == palette[j]);
        if distance_sq(color, palette[last]) < distance_sq(color, palette[k]) {
            assert forall|j: int| 0 <= j < palette.len() implies distance_sq(color, palette[last])
                <= distance_sq(color, #[trigger] palette[j]) by {
                if j < last {
                    assert(distance_sq(color, front[k]) <= distance_sq(color, front[j]));
                }
            }
            assert forall|j: int| 0 <= j < last implies distance_sq(color, palette[last])
                < distance_sq(color, #[trigger] palette[j]) by {
                assert(distance_sq(color, front[k]) <= distance_sq(color, front[j]));
            }
            assert(is_nearest(palette, color, last));
        } else {
            assert forall|j: int| 0 <= j < palette.len() implies distance_sq(color, palette[k])
                <= distance_sq(color, #[trigger] palette[j]) by {
                if j < last {
                    assert(distance_sq(color, front[k]) <= distance_sq(color, front[j]));
                }
            }
            assert forall|j: int| 0 <= j < k implies distance_sq(color, palette[k]) < distance_sq(
                color,
                #[trigger] palette[j],
            ) by {
                assert(distance_sq(color, front[k]) < distance_sq(color, front[j]));
            }
            assert(is_nearest(palette, color, k));
        }
    }
}

/// Of two entries at the same distance from a color, the later one is never
/// the nearest.
pub proof fn lemma_tie_goes_to_earlier(palette: Seq<Rgb>, color: Rgb, i: int, j: int)
    requires
        0 <= i < j < palette.len(),
        distance_sq(color, palette[i]) == distance_sq(color, palette[j]),
    ensures
        nearest_index(palette, color) != j,
        nearest_index(palette, color) <= i || distance_sq(
            color,
            palette[nearest_index(palette, color)],
        ) < distance_sq(color, palette[i]),
{
    lemma_nearest_exists(palette, color);
    let k = nearest_index(palette, color);
    if k == j {
        assert(distance_sq(color, palette[j]) < distance_sq(color, palette[i]));
    }
    if k > i {
        assert(distance_sq(color, palette[k]) < distance_sq(color, palette[i]));
    }
}

fn channel_gap_sq_exec(a: u8, b: u8) -> (d: u32)
    ensures
        d == channel_gap_sq(a, b),
        d <= 65025,
{
    let gap: u32 = if a >= b {
        (a - b) as u32
    } else {
        (b - a) as u32
    };
    assert(gap * gap == channel_gap_sq(a, b)) by (nonlinear_arith)
        requires
            gap == a - b || gap == b - a,
    ;
    assert(gap * gap <= 65025) by (nonlinear_arith)
        requires
            0 <= gap <= 255,
    ;
    gap * gap
}

/// Squared Euclidean distance of two colors; at most 3 * 255 * 255.
pub fn distance_squared(a: Rgb, b: Rgb) -> (d: u32)
    ensures
        d == distance_sq(a, b),
{
    channel_gap_sq_exec(a.r, b.r) + channel_gap_sq_exec(a.g, b.g) + channel_gap_sq_exec(a.b, b.b)
}

/// Returns the palette entry with the least squared distance to `color`;
/// among entries at the same distance, the one that comes first.
pub fn find_closest_color(color: Rgb, palette: &[Rgb]) -> (best: Rgb)
    requires
        palette@.len() > 0,
    ensures
        best == nearest_color(palette@, color),
{
    let mut best_at: usize = 0;
    let mut best_dist: u32 = distance_squared(color, palette[0]);
    let mut i: usize = 1;
    while i < palette.len()
        invariant
            1 <= i <= palette@.len(),
            best_dist == distance_sq(color, palette@[best_at as int]),
            is_nearest(palette@.take(i as int), color, best_at as int),
        decreases palette@.len() - i,
    {
        let dist = distance_squared(color, palette[i]);
        if dist < best_dist {
            best_dist = dist;
            best_at = i;
        }
        i += 1;
    }
    proof {
        assert(palette@.take(i as int) =~= palette@);
        lemma_nearest_index_is(palette@, color, best_at as int);
    }
    palette[best_at]
}

} // verus!
