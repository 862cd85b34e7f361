use rickboard::board::Board;
use rickboard::color::blend;
use rickboard::color::lay_over;
use rickboard::color::remap;
use rickboard::color::BoardMode;
use rickboard::color::Rgba;
use rickboard::compose::lay_drawing;
use rickboard::render::project;
use rickboard::render::render_view;
use rickboard::viewport::Point;
use rickboard::viewport::Viewport;

/// A board whose pixel in column x of row y is (x, y, 7, 255).
fn numbered(width: u32, height: u32) -> Board {
    let mut board = Board::create(width, height, BoardMode::Blackboard);
    for y in 0..height {
        for x in 0..width {
            board.write_pixel(x as i32, y as i32, Rgba::new(x as u8, y as u8, 7, 255));
        }
    }
    board
}

fn pixel(frame: &[u8], width: u32, x: u32, y: u32) -> [u8; 4] {
    let at = ((y * width + x) * 4) as usize;
    [frame[at], frame[at + 1], frame[at + 2], frame[at + 3]]
}

#[test]
fn blend_is_the_integer_formula() {
    assert_eq!(blend(200, 100, 128), 150);
    assert_eq!(blend(255, 0, 1), 1);
    assert_eq!(blend(0, 255, 1), 254);
    assert_eq!(blend(255, 255, 77), 255);
    assert_eq!(blend(10, 20, 0), 20);
    assert_eq!(blend(10, 20, 255), 10);
    assert_eq!(blend(1, 0, 254), 0);
}

#[test]
fn laying_over_keeps_or_forces_alpha() {
    let under = Rgba::new(100, 100, 100, 9);
    let clear = Rgba::new(1, 2, 3, 0);
    let solid = Rgba::new(1, 2, 3, 255);
    let half = Rgba::new(200, 0, 50, 128);
    assert_eq!(lay_over(clear, under, false), under);
    assert_eq!(lay_over(clear, under, true), under);
    assert_eq!(lay_over(solid, under, false), Rgba::new(1, 2, 3, 9));
    assert_eq!(lay_over(solid, under, true), Rgba::new(1, 2, 3, 255));
    assert_eq!(lay_over(half, under, false), Rgba::new(150, 49, 74, 9));
    assert_eq!(lay_over(half, under, true), Rgba::new(150, 49, 74, 255));
}

#[test]
fn remap_decides_each_pixel_by_itself() {
    let dark = BoardMode::Blackboard;
    let light = BoardMode::Whiteboard;
    assert_eq!(remap(Rgba::new(15, 15, 15, 3), dark), Rgba::new(255, 255, 255, 3));
    assert_eq!(remap(Rgba::black(), dark), Rgba::white());
    assert_eq!(remap(Rgba::white(), dark), Rgba::black());
    assert_eq!(remap(Rgba::new(1, 2, 3, 4), dark), Rgba::new(1, 2, 3, 4));
    assert_eq!(remap(Rgba::white(), light), Rgba::dark_grey());
    assert_eq!(remap(Rgba::black(), light), Rgba::white());
    assert_eq!(remap(Rgba::dark_grey(), light), Rgba::dark_grey());
}

#[test]
fn projection_rounds_down() {
    assert_eq!(project(0, 5, 65536), 5);
    assert_eq!(project(65535, 0, 65536), 0);
    assert_eq!(project(65536, 0, 65536), 1);
    assert_eq!(project(-1, 0, 65536), -1);
    assert_eq!(project(-65536, 0, 65536), -1);
    assert_eq!(project(-65537, 0, 65536), -2);
    assert_eq!(project(0, 3, 131072), 6);
    assert_eq!(project(0, 3, 43690), 1);
    assert_eq!(project(32768, 1, 32768), 1);
}

#[test]
fn rendering_at_home_copies_the_board() {
    let mut board = numbered(4, 3);
    let mut frame = vec![0u8; 4 * 3 * 4];
    board.render(&mut frame, 4, 3);
    assert_eq!(&frame[..], board.background());
}

#[test]
fn rendering_wraps_columns_and_blackens_rows_outside() {
    let mut board = numbered(4, 2);
    let mut frame = vec![9u8; 6 * 4 * 4];
    board.set_viewport(Viewport { position: Point::from_pixels(-1, -1), zoom: 65536 });
    board.render(&mut frame, 6, 4);
    for x in 0..6 {
        assert_eq!(pixel(&frame, 6, x, 0), [0, 0, 0, 255]);
        assert_eq!(pixel(&frame, 6, x, 3), [0, 0, 0, 255]);
    }
    let columns = [3u8, 0, 1, 2, 3, 0];
    for x in 0..6u32 {
        assert_eq!(pixel(&frame, 6, x, 1), [columns[x as usize], 0, 7, 255]);
        assert_eq!(pixel(&frame, 6, x, 2), [columns[x as usize], 1, 7, 255]);
    }
}

#[test]
fn rendering_zoomed_out_skips_pixels() {
    let mut board = numbered(8, 8);
    board.set_viewport(Viewport { position: Point::from_pixels(0, 0), zoom: 32768 });
    let mut frame = vec![0u8; 4 * 4 * 4];
    board.render(&mut frame, 4, 4);
    for y in 0..4u32 {
        for x in 0..4u32 {
            assert_eq!(pixel(&frame, 4, x, y), [2 * x as u8, 2 * y as u8, 7, 255]);
        }
    }
}

#[test]
fn rendering_zoomed_in_repeats_pixels() {
    let mut board = numbered(8, 8);
    board.set_viewport(Viewport { position: Point::from_pixels(0, 0), zoom: 98304 });
    let mut frame = vec![0u8; 6 * 1 * 4];
    board.render(&mut frame, 6, 1);
    // One over 1.5 is 43690 / 65536: screen pixels 0 to 5 show 0, 0, 1, 1, 2, 3.
    let columns = [0u8, 0, 1, 1, 2, 3];
    for x in 0..6u32 {
        assert_eq!(pixel(&frame, 6, x, 0), [columns[x as usize], 0, 7, 255]);
    }
}

#[test]
fn rendering_an_empty_screen_renders_nothing() {
    let mut board = numbered(4, 2);
    let mut frame: Vec<u8> = Vec::new();
    board.render(&mut frame, 0, 5);
    board.render(&mut frame, 5, 0);
    board.render(&mut frame, 0, 0);
    assert!(frame.is_empty());
}

#[test]
fn rendering_twice_gives_the_same_frame() {
    let mut board = numbered(5, 5);
    board.set_viewport(Viewport { position: Point::new(70000, -3), zoom: 50000 });
    let mut first = vec![0u8; 7 * 6 * 4];
    let mut second = vec![1u8; 7 * 6 * 4];
    board.render(&mut first, 7, 6);
    board.render(&mut second, 7, 6);
    assert_eq!(first, second);
}

#[test]
fn a_camera_within_epsilon_shows_the_kept_frame() {
    let mut board = numbered(8, 8);
    board.set_viewport(Viewport { position: Point::new(65536 - 65, 0), zoom: 65536 });
    let mut kept = vec![0u8; 4 * 1 * 4];
    board.render(&mut kept, 4, 1);
    assert_eq!(pixel(&kept, 4, 0, 0), [0, 0, 7, 255]);
    // 65 further on the camera has crossed into the next pixel, but has
    // moved by no more than epsilon: the kept frame is shown.
    board.set_viewport(Viewport { position: Point::new(65536, 0), zoom: 65536 });
    let mut again = vec![0u8; 4 * 1 * 4];
    board.render(&mut again, 4, 1);
    assert_eq!(again, kept);
    // One more and the frame is rendered anew.
    board.set_viewport(Viewport { position: Point::new(65537, 0), zoom: 65536 });
    board.render(&mut again, 4, 1);
    assert_eq!(pixel(&again, 4, 0, 0), [1, 0, 7, 255]);
}

#[test]
fn a_zoom_beyond_epsilon_renders_anew() {
    let mut board = numbered(8, 8);
    let mut near = vec![0u8; 4 * 1 * 4];
    board.render(&mut near, 4, 1);
    board.set_viewport(Viewport { position: Point::new(0, 0), zoom: 32768 });
    let mut far = vec![0u8; 4 * 1 * 4];
    board.render(&mut far, 4, 1);
    assert_ne!(near, far);
    assert_eq!(pixel(&far, 4, 3, 0), [6, 0, 7, 255]);
}

#[test]
fn another_screen_size_renders_anew() {
    let mut board = numbered(8, 8);
    let mut wide = vec![0u8; 4 * 2 * 4];
    board.render(&mut wide, 4, 2);
    let mut tall = vec![0u8; 2 * 4 * 4];
    board.render(&mut tall, 2, 4);
    assert_eq!(pixel(&tall, 2, 1, 3), [1, 3, 7, 255]);
}

#[test]
fn a_change_of_the_background_gives_up_the_kept_frame() {
    let mut board = numbered(4, 4);
    let mut frame = vec![0u8; 4 * 4 * 4];
    board.render(&mut frame, 4, 4);
    board.write_pixel(1, 1, Rgba::new(200, 201, 202, 203));
    board.render(&mut frame, 4, 4);
    assert_eq!(pixel(&frame, 4, 1, 1), [200, 201, 202, 203]);
    board.toggle_mode();
    board.clear();
    board.render(&mut frame, 4, 4);
    assert_eq!(pixel(&frame, 4, 1, 1), [255, 255, 255, 255]);
}

#[test]
fn render_view_is_the_renderer_without_the_cache() {
    let board = numbered(4, 2);
    let view = Viewport { position: Point::from_pixels(2, 0), zoom: 65536 };
    let mut frame = vec![0u8; 3 * 2 * 4];
    render_view(board.background(), 4, 2, &view, &mut frame, 3, 2);
    assert_eq!(pixel(&frame, 3, 0, 0), [2, 0, 7, 255]);
    assert_eq!(pixel(&frame, 3, 1, 1), [3, 1, 7, 255]);
    assert_eq!(pixel(&frame, 3, 2, 1), [0, 1, 7, 255]);
}

#[test]
fn the_drawing_layer_lies_over_the_frame() {
    let mut board = Board::create(4, 2, BoardMode::Blackboard);
    board.draw_pixel(0, 0, Rgba::new(1, 2, 3, 255));
    board.draw_pixel(1, 0, Rgba::new(200, 0, 50, 128));
    board.draw_pixel(2, 0, Rgba::new(9, 9, 9, 0));
    let mut frame = vec![0u8; 4 * 2 * 4];
    for p in frame.chunks_mut(4) {
        p.copy_from_slice(&[100, 100, 100, 9]);
    }
    board.render_drawing_layer(&mut frame, 4, 2);
    assert_eq!(pixel(&frame, 4, 0, 0), [1, 2, 3, 9]);
    assert_eq!(pixel(&frame, 4, 1, 0), [150, 49, 74, 9]);
    assert_eq!(pixel(&frame, 4, 2, 0), [100, 100, 100, 9]);
    assert_eq!(pixel(&frame, 4, 3, 0), [100, 100, 100, 9]);
    assert_eq!(pixel(&frame, 4, 0, 1), [100, 100, 100, 9]);
}

#[test]
fn the_drawing_layer_follows_the_camera() {
    let mut board = Board::create(4, 4, BoardMode::Blackboard);
    board.draw_pixel(3, 2, Rgba::new(1, 2, 3, 255));
    board.set_viewport(Viewport { position: Point::from_pixels(2, 1), zoom: 65536 });
    let mut frame = vec![50u8; 6 * 4 * 4];
    board.render_drawing_layer(&mut frame, 6, 4);
    assert_eq!(pixel(&frame, 6, 1, 1), [1, 2, 3, 50]);
    assert_eq!(pixel(&frame, 6, 5, 1), [1, 2, 3, 50]);
    let touched = frame.chunks(4).filter(|p| p != &[50, 50, 50, 50]).count();
    assert_eq!(touched, 2);
}

#[test]
fn a_layer_without_ink_leaves_the_frame_alone() {
    let board = Board::create(4, 4, BoardMode::Blackboard);
    let mut frame = vec![50u8; 8 * 8 * 4];
    board.render_drawing_layer(&mut frame, 8, 8);
    assert!(frame.iter().all(|b| *b == 50));
    let layer = vec![0u8; 4 * 4 * 4];
    lay_drawing(&layer, 4, 4, &Viewport::new(), &mut frame, 8, 8);
    assert!(frame.iter().all(|b| *b == 50));
}
