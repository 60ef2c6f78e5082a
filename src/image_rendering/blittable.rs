use std::ops::Range;
use vstd::prelude::*;

verus! {

/// A rectangle of pixels: the columns `x_range` of the rows `y_range`.
pub struct Rect {
    pub x_range: Range<usize>,
    pub y_range: Range<usize>,
}

/// An image that can copy a rectangle of itself onto a pixel buffer.
pub trait Blittable {
    /// Copies `self_rect` of this image to `dst_rect` of `buffer`, whose rows
    /// are `buffer_width` pixels long; both rectangles are already clipped.
    fn blit_impl(&self, buffer: &mut [u32], buffer_width: usize, self_rect: Rect, dst_rect: Rect);

    fn get_width(&self) -> usize;

    fn get_height(&self) -> usize;
}

/// The settings of one copy: the source rectangle, where it goes, and the
/// part of the buffer it may reach.
pub struct BlitParams {
    pub buffer_width: usize,
    pub src_x: usize,
    pub src_y: usize,
    pub src_width: usize,
    pub src_height: usize,
    pub dst_x: i32,
    pub dst_y: i32,
    pub dst_width: usize,
    pub dst_height: usize,
}

pub open spec fn min(a: int, b: int) -> int {
    if a < b { a } else { b }
}

/// The end of a destination span that starts at `pos` and is `len` long,
/// within `limit`. A span that ends left of the buffer is taken as reaching
/// its far side, as the unsigned conversion of a negative end does.
pub open spec fn dst_end(len: int, pos: int, limit: int) -> int {
    if len + pos < 0 { limit } else { min(len + pos, limit) }
}

/// The source span that stays visible along one axis, and the destination span it lands on.
pub open spec fn clip_axis(src_pos: int, src_len: int, src_size: int, dst_pos: int, dst_len: int, limit: int) -> (
    int,
    int,
    int,
    int,
) {
    let src_end = min(src_pos + src_len, src_size);
    let src_start = min(src_pos, src_end);
    let dst_end = dst_end(dst_len, dst_pos, limit);
    if dst_pos < 0 {
        (min(src_start - dst_pos, src_end), src_end, 0, dst_end)
    } else {
        (src_start, src_end, min(dst_pos, dst_end), dst_end)
    }
}

/// Whether `r` spans exactly the given columns and rows.
pub open spec fn rect_is(r: Rect, x: (int, int), y: (int, int)) -> bool {
    &&& r.x_range.start == x.0
    &&& r.x_range.end == x.1
    &&& r.y_range.start == y.0
    &&& r.y_range.end == y.1
}

fn min_sum(a: usize, b: usize, limit: usize) -> (r: usize)
    ensures
        r == min(a + b, limit as int),
{
    if a >= limit || b >= limit - a {
        limit
    } else {
        a + b
    }
}

fn clip_one_axis(src_pos: usize, src_len: usize, src_size: usize, dst_pos: i32, dst_len: usize, limit: usize) -> (r: (Range<usize>, Range<usize>))
    ensures
        (r.0.start as int, r.0.end as int, r.1.start as int, r.1.end as int) == clip_axis(
            src_pos as int,
            src_len as int,
            src_size as int,
            dst_pos as int,
            dst_len as int,
            limit as int,
        ),
{
    let src_end = min_sum(src_pos, src_len, src_size);
    let src_start = if src_pos < src_end { src_pos } else { src_end };
    let dst_end = if dst_pos >= 0 {
        min_sum(dst_len, dst_pos as usize, limit)
    } else if (dst_len as u64) < ((-(dst_pos as i64)) as u64) {
        limit
    } else {
        let e = dst_len - ((-(dst_pos as i64)) as usize);
        if e < limit { e } else { limit }
    };
    if dst_pos < 0 {
        let start = min_sum(src_start, (-(dst_pos as i64)) as usize, src_end);
        (start..src_end, 0..dst_end)
    } else {
        let start = if (dst_pos as usize) < dst_end { dst_pos as usize } else { dst_end };
        (src_start..src_end, start..dst_end)
    }
}

/// The two rectangles of a copy, clipped: the part of the source that is
/// visible, and the part of the buffer it lands on.
pub fn clip_rects(params: &BlitParams, src_size: (usize, usize), buffer_rows: usize) -> (r: (Rect, Rect))
    ensures
        ({
            let x = clip_axis(
                params.src_x as int,
                params.src_width as int,
                src_size.0 as int,
                params.dst_x as int,
                params.dst_width as int,
                params.buffer_width as int,
            );
            let y = clip_axis(
                params.src_y as int,
                params.src_height as int,
                src_size.1 as int,
                params.dst_y as int,
                params.dst_height as int,
                buffer_rows as int,
            );
            rect_is(r.0, (x.0, x.1), (y.0, y.1)) && rect_is(r.1, (x.2, x.3), (y.2, y.3))
        }),
{
    let (src_x, dst_x) = clip_one_axis(
        params.src_x,
        params.src_width,
        src_size.0,
        params.dst_x,
        params.dst_width,
        params.buffer_width,
    );
    let (src_y, dst_y) = clip_one_axis(
        params.src_y,
        params.src_height,
        src_size.1,
        params.dst_y,
        params.dst_height,
        buffer_rows,
    );
    (Rect { x_range: src_x, y_range: src_y }, Rect { x_range: dst_x, y_range: dst_y })
}


/// Builds and performs a copy of `drawable` onto `buffer`.
pub struct BlitBuilder<'a, TBlittable: Blittable> {
    drawable: &'a TBlittable,
    buffer: &'a mut [u32],
    buffer_width: usize,
    src_x: usize,
    src_y: usize,
    src_width: usize,
    src_height: usize,
    dst_x: i32,
    dst_y: i32,
    dst_width: usize,
    dst_height: usize,
}

impl<'a, TBlittable: Blittable> BlitBuilder<'a, TBlittable> {
    pub closed spec fn params(&self) -> BlitParams {
        BlitParams {
            buffer_width: self.buffer_width,
            src_x: self.src_x,
            src_y: self.src_y,
            src_width: self.src_width,
            src_height: self.src_height,
            dst_x: self.dst_x,
            dst_y: self.dst_y,
            dst_width: self.dst_width,
            dst_height: self.dst_height,
        }
    }

    /// The pixels of `buffer` as the builder holds them.
    pub closed spec fn pixels(&self) -> Seq<u32> {
        self.buffer@
    }

    /// A copy of the whole of `drawable` to the top left corner of the whole
    /// of `buffer`, whose rows are `buffer_width` pixels long.
    pub fn new(buffer: &'a mut [u32], buffer_width: usize, drawable: &'a TBlittable) -> (r: Self)
        requires
            buffer_width > 0,
        ensures
            r.params().buffer_width == buffer_width,
            r.params().src_x == 0,
            r.params().src_y == 0,
            r.params().dst_x == 0,
            r.params().dst_y == 0,
            r.params().dst_width == buffer_width,
            r.params().dst_height == old(buffer)@.len() / (buffer_width as nat),
            r.pixels() == old(buffer)@,
    {
        let dst_height = buffer.len() / buffer_width;
        let src_width = drawable.get_width();
        let src_height = drawable.get_height();
        BlitBuilder {
            drawable,
            buffer,
            buffer_width,
            src_x: 0,
            src_y: 0,
            src_width,
            src_height,
            dst_x: 0,
            dst_y: 0,
            dst_width: buffer_width,
            dst_height,
        }
    }

    /// Places the copy's top left corner at `(dst_x, dst_y)` of the buffer.
    pub fn with_dest_pos(self, dst_x: i32, dst_y: i32) -> (r: Self)
        ensures
            r.params() == (BlitParams { dst_x, dst_y, ..self.params() }),
            r.pixels() == self.pixels(),
    {
        BlitBuilder { dst_x, dst_y, ..self }
    }

    /// Copies only the given rectangle of the source.
    pub fn with_source_subrect(self, src_x: usize, src_y: usize, src_width: usize, src_height: usize) -> (r: Self)
        ensures
            r.params() == (BlitParams { src_x, src_y, src_width, src_height, ..self.params() }),
            r.pixels() == self.pixels(),
    {
        BlitBuilder { src_x, src_y, src_width, src_height, ..self }
    }

    /// Places the copy at `(dst_x, dst_y)` and keeps it within the given width and height.
    pub fn with_dest_subrect(self, dst_x: i32, dst_y: i32, dst_width: usize, dst_height: usize) -> (r: Self)
        ensures
            r.params() == (BlitParams { dst_x, dst_y, dst_width, dst_height, ..self.params() }),
            r.pixels() == self.pixels(),
    {
        BlitBuilder { dst_x, dst_y, dst_width, dst_height, ..self }
    }

    /// Performs the copy.
    pub fn blit(&mut self)
        requires
            old(self).params().buffer_width > 0,
        ensures
            final(self).params() == old(self).params(),
    {
        blit_ext(
            self.drawable,
            self.buffer,
            self.buffer_width,
            self.src_x,
            self.src_y,
            self.src_width,
            self.src_height,
            self.dst_x,
            self.dst_y,
            self.dst_width,
            self.dst_height,
        )
    }
}

fn blit_ext<TBlittable: Blittable>(
    drawable: &TBlittable,
    buffer: &mut [u32],
    buffer_width: usize,
    src_x: usize,
    src_y: usize,
    src_width: usize,
    src_height: usize,
    dst_x: i32,
    dst_y: i32,
    dst_width: usize,
    dst_height: usize,
)
    requires
        buffer_width > 0,
{
    let params = BlitParams {
        buffer_width,
        src_x,
        src_y,
        src_width,
        src_height,
        dst_x,
        dst_y,
        dst_width,
        dst_height,
    };
    let size = (drawable.get_width(), drawable.get_height());
    let (src_rect, dst_rect) = clip_rects(&params, size, buffer.len() / buffer_width);
    drawable.blit_impl(buffer, buffer_width, src_rect, dst_rect)
}

} // verus!
