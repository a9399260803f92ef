use application::image::{CopyPixel, Image, SetPixel};
use application::picts::Picts;
use application::spans::{use_quadrant_bounds, use_quadrant_bounds_aa2, use_quadrant_bounds_aa4};

fn init_two_images() -> (Image<u8>, Image<u8>) {
    let mut src = Image::<u8>::new((4, 4)).view_mut();
    src.fill(&SetPixel(42u8));
    let mut dst = Image::<u8>::new((4, 4)).view_mut();
    dst.fill(&SetPixel(17u8));
    (src.into_image(), dst.into_image())
}

fn draw_at(position: (i32, i32)) -> Image<u8> {
    let (src, dst) = init_two_images();
    let mut view = dst.view_mut();
    view.draw(&src.as_view(), position, &CopyPixel);
    view.into_image()
}

#[test]
fn test_draw_same_size() {
    let dst = draw_at((0, 0));
    assert_eq!(dst.as_view().get(0, 0), 42);
    assert_eq!(dst.as_view().get(3, 0), 42);
    assert_eq!(dst.as_view().get(0, 3), 42);
    assert_eq!(dst.as_view().get(3, 3), 42);
}

#[test]
fn test_draw_same_size_shifted_neg_neg() {
    let dst = draw_at((-2, -2));
    assert_eq!(dst.as_view().get(0, 0), 42);
    assert_eq!(dst.as_view().get(3, 0), 17);
    assert_eq!(dst.as_view().get(0, 3), 17);
    assert_eq!(dst.as_view().get(3, 3), 17);
}

#[test]
fn test_draw_same_size_shifted_neg_pos() {
    let dst = draw_at((-2, 2));
    assert_eq!(dst.as_view().get(0, 0), 17);
    assert_eq!(dst.as_view().get(3, 0), 17);
    assert_eq!(dst.as_view().get(0, 3), 42);
    assert_eq!(dst.as_view().get(3, 3), 17);
}

#[test]
fn test_draw_same_size_shifted_pos_neg() {
    let dst = draw_at((2, -2));
    assert_eq!(dst.as_view().get(0, 0), 17);
    assert_eq!(dst.as_view().get(3, 0), 42);
    assert_eq!(dst.as_view().get(0, 3), 17);
    assert_eq!(dst.as_view().get(3, 3), 17);
}

#[test]
fn test_draw_same_size_shifted_pos_pos() {
    let dst = draw_at((2, 2));
    assert_eq!(dst.as_view().get(0, 0), 17);
    assert_eq!(dst.as_view().get(3, 0), 17);
    assert_eq!(dst.as_view().get(0, 3), 17);
    assert_eq!(dst.as_view().get(3, 3), 42);
}

#[test]
fn draw_entirely_outside_changes_nothing() {
    let dst = draw_at((4, 0));
    for y in 0..4 {
        for x in 0..4 {
            assert_eq!(dst.as_view().get(x, y), 17);
        }
    }
}

#[test]
fn fill_part_fills_only_the_part() {
    let mut view = Image::<u32>::new((5, 5)).view_mut();
    view.fill_part((1, 1), (3, 4), &SetPixel(9u32));
    let image = view.into_image();
    assert_eq!(image.get(1, 1), 9);
    assert_eq!(image.get(2, 3), 9);
    assert_eq!(image.get(0, 0), 0);
    assert_eq!(image.get(3, 1), 0);
    assert_eq!(image.get(1, 4), 0);
}

#[test]
fn fill_part_outside_the_window_changes_nothing() {
    let mut view = Image::<u32>::new((3, 3)).view_mut();
    view.fill_part((1, 1), (4, 2), &SetPixel(9u32));
    let image = view.into_image();
    for y in 0..3 {
        for x in 0..3 {
            assert_eq!(image.get(x, y), 0);
        }
    }
}

#[test]
fn window_mut_narrows_drawing() {
    let mut view = Image::<u32>::new((4, 4)).view_mut();
    let previous = view.window_mut((1, 2), (3, 4));
    assert_eq!(view.get_size(), (2, 2));
    view.fill(&SetPixel(5u32));
    view.restore_window(previous);
    assert_eq!(view.get_size(), (4, 4));
    let image = view.into_image();
    assert_eq!(image.get(1, 2), 5);
    assert_eq!(image.get(2, 3), 5);
    assert_eq!(image.get(0, 2), 0);
    assert_eq!(image.get(1, 1), 0);
}

#[test]
fn picts_have_their_sizes_and_shapes() {
    let picts = Picts::new();
    assert_eq!(picts.end_point.get_size(), (17, 17));
    assert_eq!(picts.grid_point.get_size(), (27, 27));
    assert!(picts.end_point.get(0, 5));
    assert!(!picts.end_point.get(5, 5));
    assert!(picts.cross_point.get(4, 4));
    assert!(picts.cross_point.get(0, 16));
    assert!(!picts.cross_point.get(1, 2));
    assert!(picts.tangent_point.get(8, 0));
    assert!(!picts.center_point.get(8, 8));
    assert!(picts.center_point.get(0, 8));
    assert!(picts.grid_point.get(14, 10));
    assert!(!picts.grid_point.get(13, 13));
}

#[test]
fn spans_are_painted_one_cell_per_pixel() {
    let mut view = Image::<u32>::new((4, 3)).view_mut();
    let spans = vec![(0, 0), (1, 3), (2, 4)];
    use_quadrant_bounds(&mut view, &spans, (1, 3), 7);
    let img = view.into_image();
    let expected = [[0, 0, 0, 0], [0, 7, 7, 0], [0, 0, 7, 7]];
    for y in 0..3 {
        for x in 0..4 {
            assert_eq!(img.as_view().get(x, y), expected[y][x], "pixel {} {}", x, y);
        }
    }
}

#[test]
fn supersampled_spans_move_pixels_towards_the_colour() {
    let mut view = Image::<u32>::new((2, 1)).view_mut();
    let spans = vec![(0, 2), (1, 3)];
    use_quadrant_bounds_aa2(&mut view, &spans, (0, 2), 0xFC);
    let img = view.into_image();
    assert_eq!(img.as_view().get(0, 0), 0x90);
    assert_eq!(img.as_view().get(1, 0), 0x3F);

    let mut view = Image::<u32>::new((1, 1)).view_mut();
    let spans = vec![(0, 1)];
    use_quadrant_bounds_aa4(&mut view, &spans, (0, 1), 0xFF00_FF00);
    let img = view.into_image();
    assert_eq!(img.as_view().get(0, 0), 0x0F00_0F00);
}
