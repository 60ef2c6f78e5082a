use mixdown::image_rendering::bresenham::{
    plot_bresenham_2d, plot_bresenham_3d, plot_bresenham_4d, plot_bresenham_circle,
};
use mixdown::image_rendering::brezenham::plot_brezenham;

#[test]
fn shallow_line() {
    let expected = vec![(0, 0), (1, 0), (2, 1), (3, 1), (4, 2), (5, 2)];
    assert_eq!(plot_bresenham_2d(0, 0, 5, 2), expected);
    assert_eq!(plot_bresenham_2d(5, 2, 0, 0), expected);
    assert_eq!(plot_brezenham(0, 0, 5, 2), expected);
}

#[test]
fn steep_line() {
    assert_eq!(plot_bresenham_2d(0, 0, 1, 3), vec![(0, 0), (0, 1), (1, 2), (1, 3)]);
    assert_eq!(plot_bresenham_2d(1, 3, 0, 0), vec![(0, 0), (0, 1), (1, 2), (1, 3)]);
}

#[test]
fn descending_line() {
    assert_eq!(plot_bresenham_2d(0, 0, 4, -2), vec![(0, 0), (1, 0), (2, -1), (3, -1), (4, -2)]);
}

#[test]
fn flat_lines_and_points() {
    assert_eq!(plot_bresenham_2d(3, 1, 0, 1), vec![(0, 1), (1, 1), (2, 1), (3, 1)]);
    assert_eq!(plot_bresenham_2d(2, 5, 2, 3), vec![(2, 3), (2, 4), (2, 5)]);
    assert_eq!(plot_bresenham_2d(7, 7, 7, 7), vec![(7, 7)]);
    assert_eq!(plot_brezenham(-1, -1, -1, -1), vec![(-1, -1)]);
}

#[test]
fn extreme_coordinates() {
    let pts = plot_bresenham_2d(i32::MAX, 0, i32::MAX - 2, 0);
    assert_eq!(pts, vec![(i32::MAX - 2, 0), (i32::MAX - 1, 0), (i32::MAX, 0)]);
    let low = plot_bresenham_2d(i32::MIN, i32::MIN, i32::MIN + 3, i32::MIN + 1);
    assert_eq!(low, vec![(i32::MIN, i32::MIN), (i32::MIN + 1, i32::MIN), (i32::MIN + 2, i32::MIN + 1), (i32::MIN + 3, i32::MIN + 1)]);
}

#[test]
fn line_in_three_dimensions() {
    assert_eq!(
        plot_bresenham_3d(0, 0, 0, 4, 2, 1),
        vec![(0, 0, 0), (1, 0, 0), (2, 1, 0), (3, 1, 1), (4, 2, 1)]
    );
    assert_eq!(plot_bresenham_3d(0, 0, 0, 0, 0, -2), vec![(0, 0, -2), (0, 0, -1), (0, 0, 0)]);
}

#[test]
fn line_in_four_dimensions() {
    assert_eq!(
        plot_bresenham_4d(0, 0, 0, 0, 1, 2, 3, 4),
        vec![(0, 0, 0, 0), (0, 0, 1, 1), (0, 1, 1, 2), (1, 1, 2, 3), (1, 2, 3, 4)]
    );
}

#[test]
fn circle_of_radius_three() {
    let pts = plot_bresenham_circle(0, 0, 3);
    let mut expected = Vec::new();
    for (dx, dy) in [(0, 3), (1, 3), (2, 2)] {
        expected.extend_from_slice(&[
            (dx, dy),
            (dx, -dy),
            (-dx, dy),
            (-dx, -dy),
            (dy, dx),
            (dy, -dx),
            (-dy, dx),
            (-dy, -dx),
        ]);
    }
    assert_eq!(pts, expected);
}

#[test]
fn circle_of_radius_zero_and_offset_center() {
    assert_eq!(plot_bresenham_circle(4, 5, 0), vec![(4, 5); 8]);
    let pts = plot_bresenham_circle(10, 20, 1);
    assert_eq!(pts.len(), 16);
    assert_eq!(pts[0], (10, 21));
    assert_eq!(pts[8], (11, 20));
}
