use crate::image_rendering::bresenham::{line_len, line_point, plot_bresenham_2d};
use vstd::prelude::*;

verus! {

/// The points of the digital line from `(x0, y0)` to `(x1, y1)`; the same
/// line as [`plot_bresenham_2d`] draws.
pub fn plot_brezenham(x0: i32, y0: i32, x1: i32, y1: i32) -> (r: Vec<(i32, i32)>)
    ensures
        r@.len() == line_len(seq![x0 as int, y0 as int], seq![x1 as int, y1 as int]),
        forall|k: int|
            0 <= k < r@.len() ==> seq![r@[k].0 as int, r@[k].1 as int] == line_point(
                seq![x0 as int, y0 as int],
                seq![x1 as int, y1 as int],
                k,
            ),
{
    plot_bresenham_2d(x0, y0, x1, y1)
}

} // verus!
