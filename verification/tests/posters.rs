use rickboard::poster::default_scale;
use rickboard::poster::find_poster_at;
use rickboard::poster::lay_poster;
use rickboard::poster::render_posters;
use rickboard::poster::PinnedPoster;
use rickboard::poster::SCALE_MAX;
use rickboard::poster::SCALE_MIN;
use rickboard::viewport::Point;
use rickboard::viewport::Viewport;

fn poster(x: i32, y: i32, width: u32, height: u32, pixel: [u8; 4]) -> PinnedPoster {
    let mut image_data: Vec<u8> = Vec::new();
    for _ in 0..width * height {
        image_data.extend_from_slice(&pixel);
    }
    PinnedPoster {
        position: Point::from_pixels(x, y),
        image_data,
        width,
        height,
        name: String::from("poster"),
        scale: default_scale(),
    }
}

fn sentinel(width: u32, height: u32) -> Vec<u8> {
    let mut frame = Vec::new();
    for _ in 0..width * height {
        frame.extend_from_slice(&[100, 100, 100, 9]);
    }
    frame
}

fn pixel(frame: &[u8], width: u32, x: u32, y: u32) -> [u8; 4] {
    let at = ((y * width + x) * 4) as usize;
    [frame[at], frame[at + 1], frame[at + 2], frame[at + 3]]
}

fn touched(frame: &[u8]) -> usize {
    frame.chunks(4).filter(|p| p != &[100, 100, 100, 9]).count()
}

#[test]
fn the_default_scale_is_one() {
    assert_eq!(default_scale(), 65536);
}

#[test]
fn placement_at_zoom_one() {
    let p = poster(3, 4, 2, 5, [1, 2, 3, 255]);
    let at = p.place(&Viewport::new(), 100);
    assert_eq!((at.left, at.top, at.width, at.height, at.inverse), (3, 4, 2, 5, 65536));
}

#[test]
fn placement_wraps_the_horizontal_distance() {
    let p = poster(-1, -3, 2, 2, [1, 2, 3, 255]);
    let at = p.place(&Viewport::new(), 100);
    assert_eq!((at.left, at.top), (99, -3));
    let view = Viewport { position: Point::from_pixels(250, 0), zoom: 65536 };
    let p = poster(10, 0, 2, 2, [1, 2, 3, 255]);
    assert_eq!(p.place(&view, 100).left, 60);
}

#[test]
fn placement_scales_with_zoom_and_scale() {
    let mut p = poster(10, -10, 4, 8, [1, 2, 3, 255]);
    p.scale = 131072;
    let view = Viewport { position: Point::from_pixels(0, 0), zoom: 32768 };
    let at = p.place(&view, 100);
    assert_eq!((at.left, at.top, at.width, at.height, at.inverse), (5, -5, 4, 8, 65536));
    p.scale = 32768;
    let at = p.place(&view, 100);
    assert_eq!((at.width, at.height, at.inverse), (1, 2, 262144));
    p.scale = 0;
    let at = p.place(&view, 100);
    assert_eq!((at.width, at.height, at.inverse), (0, 0, 0));
}

#[test]
fn vertical_distance_rounds_towards_zero() {
    let mut p = poster(0, 0, 1, 1, [1, 2, 3, 255]);
    p.position = Point::new(0, -98304);
    assert_eq!(p.place(&Viewport::new(), 100).top, -1);
    p.position = Point::new(0, 98304);
    assert_eq!(p.place(&Viewport::new(), 100).top, 1);
}

#[test]
fn an_opaque_poster_replaces_colour_and_forces_alpha() {
    let p = poster(1, 1, 2, 2, [1, 2, 3, 255]);
    let mut frame = sentinel(5, 4);
    lay_poster(&p, &Viewport::new(), 100, &mut frame, 5, 4);
    for (x, y) in [(1, 1), (2, 1), (1, 2), (2, 2)] {
        assert_eq!(pixel(&frame, 5, x, y), [1, 2, 3, 255]);
    }
    assert_eq!(touched(&frame), 4);
}

#[test]
fn a_translucent_poster_blends_and_forces_alpha() {
    let p = poster(0, 0, 1, 1, [200, 0, 50, 128]);
    let mut frame = sentinel(2, 2);
    lay_poster(&p, &Viewport::new(), 100, &mut frame, 2, 2);
    assert_eq!(pixel(&frame, 2, 0, 0), [150, 49, 74, 255]);
    assert_eq!(touched(&frame), 1);
}

#[test]
fn a_transparent_poster_changes_nothing() {
    let p = poster(0, 0, 2, 2, [200, 0, 50, 0]);
    let mut frame = sentinel(2, 2);
    lay_poster(&p, &Viewport::new(), 100, &mut frame, 2, 2);
    assert_eq!(touched(&frame), 0);
}

#[test]
fn a_poster_off_screen_writes_no_pixel() {
    let view = Viewport::new();
    let right = poster(50, 0, 4, 4, [1, 2, 3, 255]);
    let below = poster(0, 10, 4, 4, [1, 2, 3, 255]);
    let above = poster(0, -5, 4, 4, [1, 2, 3, 255]);
    let wrapped = poster(-4, 0, 4, 4, [1, 2, 3, 255]);
    for p in [right, below, above, wrapped] {
        let mut frame = sentinel(10, 10);
        lay_poster(&p, &view, 100, &mut frame, 10, 10);
        assert_eq!(frame, sentinel(10, 10));
    }
}

#[test]
fn only_the_part_on_screen_is_drawn() {
    let p = poster(8, -2, 4, 4, [1, 2, 3, 255]);
    let mut frame = sentinel(10, 10);
    lay_poster(&p, &Viewport::new(), 100, &mut frame, 10, 10);
    for (x, y) in [(8, 0), (9, 0), (8, 1), (9, 1)] {
        assert_eq!(pixel(&frame, 10, x, y), [1, 2, 3, 255]);
    }
    assert_eq!(touched(&frame), 4);
}

#[test]
fn a_scaled_poster_samples_the_image() {
    let mut p = poster(0, 0, 2, 1, [0, 0, 0, 255]);
    p.image_data = vec![10, 10, 10, 255, 20, 20, 20, 255];
    p.scale = 131072;
    let mut frame = sentinel(6, 3);
    lay_poster(&p, &Viewport::new(), 100, &mut frame, 6, 3);
    assert_eq!(pixel(&frame, 6, 0, 0), [10, 10, 10, 255]);
    assert_eq!(pixel(&frame, 6, 1, 0), [10, 10, 10, 255]);
    assert_eq!(pixel(&frame, 6, 2, 0), [20, 20, 20, 255]);
    assert_eq!(pixel(&frame, 6, 3, 0), [20, 20, 20, 255]);
    assert_eq!(pixel(&frame, 6, 0, 1), [10, 10, 10, 255]);
    assert_eq!(pixel(&frame, 6, 3, 1), [20, 20, 20, 255]);
    assert_eq!(touched(&frame), 8);
}

#[test]
fn image_data_that_is_too_short_is_not_read() {
    let mut p = poster(0, 0, 2, 2, [1, 2, 3, 255]);
    p.image_data.truncate(9);
    let mut frame = sentinel(3, 3);
    lay_poster(&p, &Viewport::new(), 100, &mut frame, 3, 3);
    assert_eq!(pixel(&frame, 3, 0, 0), [1, 2, 3, 255]);
    assert_eq!(pixel(&frame, 3, 1, 0), [1, 2, 3, 255]);
    assert_eq!(touched(&frame), 2);
}

#[test]
fn later_posters_lie_on_top() {
    let posters = vec![
        poster(0, 0, 2, 2, [1, 1, 1, 255]),
        poster(1, 1, 2, 2, [2, 2, 2, 255]),
        poster(50, 50, 2, 2, [3, 3, 3, 255]),
    ];
    let mut frame = sentinel(4, 4);
    render_posters(&posters, &Viewport::new(), 100, &mut frame, 4, 4);
    assert_eq!(pixel(&frame, 4, 0, 0), [1, 1, 1, 255]);
    assert_eq!(pixel(&frame, 4, 1, 1), [2, 2, 2, 255]);
    assert_eq!(pixel(&frame, 4, 2, 2), [2, 2, 2, 255]);
    assert_eq!(touched(&frame), 7);
    let mut frame = sentinel(4, 4);
    render_posters(&Vec::new(), &Viewport::new(), 100, &mut frame, 4, 4);
    assert_eq!(touched(&frame), 0);
}

#[test]
fn the_topmost_poster_is_found() {
    let posters = vec![
        poster(0, 0, 4, 4, [1, 1, 1, 255]),
        poster(2, 2, 4, 4, [2, 2, 2, 255]),
    ];
    assert_eq!(find_poster_at(&posters, Point::from_pixels(1, 1)), Some(0));
    assert_eq!(find_poster_at(&posters, Point::from_pixels(3, 3)), Some(1));
    assert_eq!(find_poster_at(&posters, Point::from_pixels(5, 5)), Some(1));
    assert_eq!(find_poster_at(&posters, Point::from_pixels(6, 6)), None);
    assert_eq!(find_poster_at(&posters, Point::new(-1, 0)), None);
    assert_eq!(find_poster_at(&posters, Point::new(6 * 65536 - 1, 6 * 65536 - 1)), Some(1));
    assert_eq!(find_poster_at(&Vec::new(), Point::from_pixels(0, 0)), None);
}

#[test]
fn the_box_of_a_poster_grows_with_its_scale() {
    let mut p = poster(0, 0, 4, 4, [1, 1, 1, 255]);
    assert!(p.contains(Point::from_pixels(3, 3)));
    assert!(!p.contains(Point::from_pixels(4, 3)));
    p.scale = 131072;
    assert!(p.contains(Point::from_pixels(7, 7)));
    assert!(!p.contains(Point::from_pixels(8, 7)));
}

#[test]
fn rescaling_steps_and_is_bounded() {
    let mut p = poster(0, 0, 4, 4, [1, 1, 1, 255]);
    p.rescale(true);
    assert_eq!(p.scale, 72089);
    p.rescale(false);
    assert_eq!(p.scale, 64880);
    for _ in 0..100 {
        p.rescale(true);
    }
    assert_eq!(p.scale, SCALE_MAX);
    for _ in 0..100 {
        p.rescale(false);
    }
    assert_eq!(p.scale, SCALE_MIN);
    assert_eq!(p.name, "poster");
    assert_eq!(p.image_data.len(), 64);
}
