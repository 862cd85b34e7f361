use rickboard::board::Board;
use rickboard::color::BoardMode;
use rickboard::viewport::divide;
use rickboard::viewport::floor_to_pixel;
use rickboard::viewport::saturate;
use rickboard::viewport::whole_of;
use rickboard::viewport::Point;
use rickboard::viewport::Viewport;
use rickboard::viewport::ZOOM_MAX;
use rickboard::viewport::ZOOM_MIN;

#[test]
fn a_new_camera_is_at_home() {
    let view = Viewport::new();
    assert_eq!(view, Viewport { position: Point { x: 0, y: 0 }, zoom: 65536 });
    assert_eq!(view.inverse_zoom(), 65536);
}

#[test]
fn inverse_zoom_is_one_over_the_zoom() {
    let mut view = Viewport::new();
    view.zoom = 32768;
    assert_eq!(view.inverse_zoom(), 131072);
    view.zoom = ZOOM_MAX;
    assert_eq!(view.inverse_zoom(), 43690);
    view.zoom = ZOOM_MIN;
    assert_eq!(view.inverse_zoom(), 655320);
}

#[test]
fn rounding_of_coordinates() {
    assert_eq!(floor_to_pixel(65535), 0);
    assert_eq!(floor_to_pixel(-1), -1);
    assert_eq!(floor_to_pixel(-65536), -1);
    assert_eq!(floor_to_pixel(i64::MIN), -140737488355328);
    assert_eq!(whole_of(65535), 0);
    assert_eq!(whole_of(-1), 0);
    assert_eq!(whole_of(-65536), -1);
    assert_eq!(whole_of(-65537), -1);
    assert_eq!(whole_of(131072), 2);
}

#[test]
fn division_by_a_ratio_rounds_down() {
    assert_eq!(divide(65536, 65536), 65536);
    assert_eq!(divide(65536, 32768), 131072);
    assert_eq!(divide(100, 98304), 66);
    assert_eq!(divide(-100, 98304), -67);
    assert_eq!(divide(0, 6554), 0);
}

#[test]
fn saturation_stops_at_the_ends() {
    assert_eq!(saturate(5), 5);
    assert_eq!(saturate(i64::MAX as i128 + 1), i64::MAX);
    assert_eq!(saturate(i64::MIN as i128 - 1), i64::MIN);
}

#[test]
fn screen_positions_map_to_the_board() {
    let view = Viewport { position: Point::from_pixels(10, 20), zoom: 32768 };
    let at = view.screen_to_canvas(Point::from_pixels(3, 4));
    assert_eq!(at, Point::from_pixels(16, 28));
    let view = Viewport { position: Point::from_pixels(-5, 0), zoom: 65536 };
    assert_eq!(view.screen_to_canvas(Point::new(32768, 0)), Point::new(-5 * 65536 + 32768, 0));
    let view = Viewport { position: Point::new(i64::MAX, i64::MIN), zoom: ZOOM_MIN };
    let at = view.screen_to_canvas(Point::new(i64::MAX, i64::MIN));
    assert_eq!(at, Point::new(i64::MAX, i64::MIN));
}

#[test]
fn zooming_steps_and_is_bounded() {
    let mut view = Viewport::new();
    view.zoom_at(Point::new(0, 0), true);
    assert_eq!(view.zoom, 72089);
    view.zoom_at(Point::new(0, 0), false);
    assert_eq!(view.zoom, 64880);
    for _ in 0..100 {
        view.zoom_at(Point::new(0, 0), true);
    }
    assert_eq!(view.zoom, ZOOM_MAX);
    for _ in 0..100 {
        view.zoom_at(Point::new(0, 0), false);
    }
    assert_eq!(view.zoom, ZOOM_MIN);
    assert_eq!(view.position, Point::new(0, 0));
}

#[test]
fn zooming_holds_the_point_under_the_cursor() {
    let cursor = Point::from_pixels(300, 200);
    let mut view = Viewport { position: Point::from_pixels(1000, -50), zoom: 65536 };
    for zoom_in in [true, true, false, true, false, false, false, false] {
        let held = view.screen_to_canvas(cursor);
        view.zoom_at(cursor, zoom_in);
        assert_eq!(view.screen_to_canvas(cursor), held);
    }
}

#[test]
fn zooming_rederives_the_position() {
    let cursor = Point::from_pixels(100, 50);
    let mut view = Viewport { position: Point::from_pixels(10, 10), zoom: 65536 };
    view.zoom_at(cursor, true);
    // The cursor was over (110, 60); the zoom is now 72089.
    let back_x = (100i128 * 65536 * 65536).div_euclid(72089) as i64;
    let back_y = (50i128 * 65536 * 65536).div_euclid(72089) as i64;
    assert_eq!(view.position, Point::new(110 * 65536 - back_x, 60 * 65536 - back_y));
}

#[test]
fn panning_moves_and_saturates() {
    let mut view = Viewport::new();
    view.pan(3276800, -3276800);
    assert_eq!(view.position, Point::from_pixels(50, -50));
    assert_eq!(view.zoom, 65536);
    view.pan(i64::MAX, i64::MIN);
    assert_eq!(view.position, Point::new(i64::MAX, i64::MIN));
}

#[test]
fn the_board_carries_its_camera() {
    let mut board = Board::create(10, 10, BoardMode::Blackboard);
    assert_eq!(board.viewport(), Viewport::new());
    board.pan(65536, 131072);
    assert_eq!(board.viewport().position, Point::from_pixels(1, 2));
    board.zoom_at(Point::new(0, 0), false);
    assert_eq!(board.viewport().zoom, 58982);
    assert_eq!(board.viewport().position, Point::from_pixels(1, 2));
    assert_eq!(board.screen_to_canvas(Point::new(0, 0)), Point::from_pixels(1, 2));
    board.set_viewport(Viewport::new());
    assert_eq!(board.viewport(), Viewport::new());
}

#[test]
fn a_zoom_out_of_bounds_is_held_to_them() {
    let mut board = Board::create(10, 10, BoardMode::Blackboard);
    board.set_viewport(Viewport { position: Point::from_pixels(3, 4), zoom: 0 });
    assert_eq!(board.viewport(), Viewport { position: Point::from_pixels(3, 4), zoom: ZOOM_MIN });
    board.set_viewport(Viewport { position: Point::from_pixels(3, 4), zoom: u32::MAX });
    assert_eq!(board.viewport().zoom, ZOOM_MAX);
    let mut frame = vec![0u8; 16];
    board.render(&mut frame, 2, 2);
    assert_eq!(Viewport { position: Point::new(1, 2), zoom: 70000 }.held().zoom, 70000);
}
