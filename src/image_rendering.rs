//! Drawing helpers: digital lines in two to four dimensions, circles, and
//! the clipping of a rectangular copy onto a pixel buffer.

pub mod bresenham;
pub mod brezenham;
pub mod blittable;
pub mod drawable;
