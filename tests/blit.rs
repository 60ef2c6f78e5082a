use mixdown::image_rendering::blittable::{clip_rects, BlitBuilder, BlitParams, Blittable, Rect};
use mixdown::image_rendering::drawable::{Drawable, DrawableRenderBuilder};

struct Tile {
    width: usize,
    height: usize,
    pixels: Vec<u32>,
}

fn copy_rect(tile: &Tile, buffer: &mut [u32], buffer_width: usize, src: Rect, dst: Rect) {
    let w = (src.x_range.end - src.x_range.start).min(dst.x_range.end - dst.x_range.start);
    let h = (src.y_range.end - src.y_range.start).min(dst.y_range.end - dst.y_range.start);
    for row in 0..h {
        for col in 0..w {
            buffer[(dst.y_range.start + row) * buffer_width + dst.x_range.start + col] =
                tile.pixels[(src.y_range.start + row) * tile.width + src.x_range.start + col];
        }
    }
}

impl Blittable for Tile {
    fn blit_impl(&self, buffer: &mut [u32], buffer_width: usize, self_rect: Rect, dst_rect: Rect) {
        copy_rect(self, buffer, buffer_width, self_rect, dst_rect)
    }
    fn get_width(&self) -> usize {
        self.width
    }
    fn get_height(&self) -> usize {
        self.height
    }
}

impl Drawable for Tile {
    fn draw_impl(&self, buffer: &mut [u32], buffer_width: usize, self_rect: Rect, dst_rect: Rect) {
        copy_rect(self, buffer, buffer_width, self_rect, dst_rect)
    }
    fn get_width(&self) -> usize {
        self.width
    }
    fn get_height(&self) -> usize {
        self.height
    }
}

fn tile() -> Tile {
    Tile { width: 2, height: 2, pixels: vec![1, 2, 3, 4] }
}

fn params(dst_x: i32, dst_y: i32) -> BlitParams {
    BlitParams {
        buffer_width: 4,
        src_x: 0,
        src_y: 0,
        src_width: 2,
        src_height: 2,
        dst_x,
        dst_y,
        dst_width: 4,
        dst_height: 3,
    }
}

fn ranges(r: &Rect) -> (usize, usize, usize, usize) {
    (r.x_range.start, r.x_range.end, r.y_range.start, r.y_range.end)
}

#[test]
fn clipping_inside_the_buffer() {
    let (src, dst) = clip_rects(&params(1, 1), (2, 2), 3);
    assert_eq!(ranges(&src), (0, 2, 0, 2));
    assert_eq!(ranges(&dst), (1, 4, 1, 3));
}

#[test]
fn clipping_off_the_top_left() {
    let (src, dst) = clip_rects(&params(-1, -1), (2, 2), 3);
    assert_eq!(ranges(&src), (1, 2, 1, 2));
    assert_eq!(ranges(&dst), (0, 3, 0, 2));
    let (src, _) = clip_rects(&params(-5, 0), (2, 2), 3);
    assert_eq!(src.x_range.start, src.x_range.end);
}

#[test]
fn clipping_past_the_bottom_right() {
    let (src, dst) = clip_rects(&params(9, 2), (2, 2), 3);
    assert_eq!(ranges(&src), (0, 2, 0, 2));
    assert_eq!(ranges(&dst), (4, 4, 2, 3));
}

#[test]
fn source_subrect_is_held_to_the_image() {
    let p = BlitParams { src_x: 1, src_y: 3, src_width: 10, src_height: 1, ..params(0, 0) };
    let (src, _) = clip_rects(&p, (2, 2), 3);
    assert_eq!(ranges(&src), (1, 2, 2, 2));
}

#[test]
fn blit_copies_the_visible_part() {
    let t = tile();
    let mut buffer = vec![0u32; 12];
    BlitBuilder::new(&mut buffer, 4, &t).with_dest_pos(3, 1).blit();
    assert_eq!(buffer, vec![0, 0, 0, 0, 0, 0, 0, 1, 0, 0, 0, 3]);
}

#[test]
fn blit_with_subrects() {
    let t = tile();
    let mut buffer = vec![0u32; 12];
    BlitBuilder::new(&mut buffer, 4, &t).with_source_subrect(1, 0, 1, 2).with_dest_subrect(-1, 0, 4, 1).blit();
    assert_eq!(buffer, vec![0; 12]);
    let mut buffer = vec![0u32; 12];
    BlitBuilder::new(&mut buffer, 4, &t).with_source_subrect(1, 0, 1, 2).with_dest_subrect(0, 0, 4, 1).blit();
    assert_eq!(buffer, vec![2, 0, 0, 0, 0, 0, 0, 0, 0, 0, 0, 0]);
}

#[test]
fn render_draws_like_blit() {
    let t = tile();
    let mut buffer = vec![0u32; 12];
    DrawableRenderBuilder::new(&mut buffer, 4, &t).with_dest_pos(-1, 0).render();
    assert_eq!(buffer, vec![2, 0, 0, 0, 4, 0, 0, 0, 0, 0, 0, 0]);
}
