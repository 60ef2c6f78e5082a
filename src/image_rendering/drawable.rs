use crate::image_rendering::blittable::{clip_rects, BlitParams};
use vstd::prelude::*;

pub use crate::image_rendering::blittable::Rect;

verus! {

/// An image that can draw a rectangle of itself onto a pixel buffer.
pub trait Drawable {
    /// Draws `self_rect` of this image to `dst_rect` of `buffer`, whose rows
    /// are `buffer_width` pixels long; both rectangles are already clipped.
    fn draw_impl(&self, buffer: &mut [u32], buffer_width: usize, self_rect: Rect, dst_rect: Rect);

    fn get_width(&self) -> usize;

    fn get_height(&self) -> usize;
}

/// Builds and performs the drawing of `drawable` onto `buffer`.
pub struct DrawableRenderBuilder<'a, TDrawable: Drawable> {
    drawable: &'a TDrawable,
    buffer: &'a mut [u32],
    buffer_width: usize,
    src_x: usize,
    src_y: usize,
    src_width: usize,
    src_height: usize,
    dst_x: i32,
    dst_y: i32,
    dst_width: usize,
    dst_height: usize,
}

impl<'a, TDrawable: Drawable> DrawableRenderBuilder<'a, TDrawable> {
    pub closed spec fn params(&self) -> BlitParams {
        BlitParams {
            buffer_width: self.buffer_width,
            src_x: self.src_x,
            src_y: self.src_y,
            src_width: self.src_width,
            src_height: self.src_height,
            dst_x: self.dst_x,
            dst_y: self.dst_y,
            dst_width: self.dst_width,
            dst_height: self.dst_height,
        }
    }

    /// The pixels of `buffer` as the builder holds them.
    pub closed spec fn pixels(&self) -> Seq<u32> {
        self.buffer@
    }

    /// A drawing of the whole of `drawable` at the top left corner of the whole
    /// of `buffer`, whose rows are `buffer_width` pixels long.
    pub fn new(buffer: &'a mut [u32], buffer_width: usize, drawable: &'a TDrawable) -> (r: Self)
        requires
            buffer_width > 0,
        ensures
            r.params().buffer_width == buffer_width,
            r.params().src_x == 0,
            r.params().src_y == 0,
            r.params().dst_x == 0,
            r.params().dst_y == 0,
            r.params().dst_width == buffer_width,
            r.params().dst_height == old(buffer)@.len() / (buffer_width as nat),
            r.pixels() == old(buffer)@,
    {
        let dst_height = buffer.len() / buffer_width;
        let src_width = drawable.get_width();
        let src_height = drawable.get_height();
        DrawableRenderBuilder {
            drawable,
            buffer,
            buffer_width,
            src_x: 0,
            src_y: 0,
            src_width,
            src_height,
            dst_x: 0,
            dst_y: 0,
            dst_width: buffer_width,
            dst_height,
        }
    }

    /// Places the drawing's top left corner at `(dst_x, dst_y)` of the buffer.
    pub fn with_dest_pos(self, dst_x: i32, dst_y: i32) -> (r: Self)
        ensures
            r.params() == (BlitParams { dst_x, dst_y, ..self.params() }),
            r.pixels() == self.pixels(),
    {
        DrawableRenderBuilder { dst_x, dst_y, ..self }
    }

    /// Copies only the given rectangle of the source.
    pub fn with_source_subrect(self, src_x: usize, src_y: usize, src_width: usize, src_height: usize) -> (r: Self)
        ensures
            r.params() == (BlitParams { src_x, src_y, src_width, src_height, ..self.params() }),
            r.pixels() == self.pixels(),
    {
        DrawableRenderBuilder { src_x, src_y, src_width, src_height, ..self }
    }

    /// Places the drawing at `(dst_x, dst_y)` and keeps it within the given width and height.
    pub fn with_dest_subrect(self, dst_x: i32, dst_y: i32, dst_width: usize, dst_height: usize) -> (r: Self)
        ensures
            r.params() == (BlitParams { dst_x, dst_y, dst_width, dst_height, ..self.params() }),
            r.pixels() == self.pixels(),
    {
        DrawableRenderBuilder { dst_x, dst_y, dst_width, dst_height, ..self }
    }

    /// Draws the image.
    pub fn render(&mut self)
        requires
            old(self).params().buffer_width > 0,
        ensures
            final(self).params() == old(self).params(),
    {
        draw_ext(
            self.drawable,
            self.buffer,
            self.buffer_width,
            self.src_x,
            self.src_y,
            self.src_width,
            self.src_height,
            self.dst_x,
            self.dst_y,
            self.dst_width,
            self.dst_height,
        )
    }
}

fn draw_ext<TDrawable: Drawable>(
    drawable: &TDrawable,
    buffer: &mut [u32],
    buffer_width: usize,
    src_x: usize,
    src_y: usize,
    src_width: usize,
    src_height: usize,
    dst_x: i32,
    dst_y: i32,
    dst_width: usize,
    dst_height: usize,
)
    requires
        buffer_width > 0,
{
    let params = BlitParams {
        buffer_width,
        src_x,
        src_y,
        src_width,
        src_height,
        dst_x,
        dst_y,
        dst_width,
        dst_height,
    };
    let size = (drawable.get_width(), drawable.get_height());
    let (src_rect, dst_rect) = clip_rects(&params, size, buffer.len() / buffer_width);
    drawable.draw_impl(buffer, buffer_width, src_rect, dst_rect)
}

} // verus!
