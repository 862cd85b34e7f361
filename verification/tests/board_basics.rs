use rickboard::board::can_hold;
use rickboard::board::Board;
use rickboard::board::Persist;
use rickboard::color::BoardMode;
use rickboard::color::Rgba;

fn red() -> Rgba {
    Rgba::new(255, 0, 0, 255)
}

#[test]
fn wrapped_write_is_read_one_turn_back() {
    let mut board = Board::create(100, 50, BoardMode::Blackboard);
    board.write_pixel(150, 10, Rgba::white());
    assert_eq!(board.read_pixel(-50, 10), Rgba::white());
    assert_eq!(board.read_pixel(50, 10), Rgba::white());
    assert_eq!(board.read_pixel(51, 10), Rgba::dark_grey());
}

#[test]
fn write_is_read_any_number_of_turns_away() {
    let mut board = Board::create(7, 3, BoardMode::Whiteboard);
    board.write_pixel(3, 1, red());
    for k in -5i32..=5 {
        assert_eq!(board.read_pixel(3 + k * 7, 1), red());
    }
    assert_eq!(board.read_pixel(2, 1), Rgba::white());
    assert_eq!(board.read_pixel(3, 0), Rgba::white());
}

#[test]
fn negative_columns_wrap_to_the_right_edge() {
    let mut board = Board::create(10, 2, BoardMode::Blackboard);
    board.write_pixel(-1, 0, red());
    assert_eq!(board.read_pixel(9, 0), red());
    assert_eq!(&board.background()[36..40], &[255, 0, 0, 255]);
}

#[test]
fn writes_outside_the_rows_change_nothing() {
    let mut board = Board::create(8, 4, BoardMode::Blackboard);
    let before: Vec<u8> = board.background().to_vec();
    board.write_pixel(3, -1, red());
    board.write_pixel(3, 4, red());
    board.write_pixel(3, i32::MIN, red());
    board.write_pixel(3, i32::MAX, red());
    assert_eq!(board.background(), &before[..]);
    board.draw_pixel(3, -1, red());
    board.draw_pixel(3, 4, red());
    assert!(!board.has_drawings());
    assert!(board.drawing_layer().iter().all(|b| *b == 0));
}

#[test]
fn reads_outside_the_rows_give_the_sentinel() {
    let board = Board::create(8, 4, BoardMode::Whiteboard);
    assert_eq!(board.read_pixel(0, -1), Rgba::black());
    assert_eq!(board.read_pixel(0, 4), Rgba::black());
    assert_eq!(board.read_drawn_pixel(0, -1), Rgba::transparent());
    assert_eq!(board.read_drawn_pixel(0, 4), Rgba::transparent());
}

#[test]
fn a_new_board_is_background_and_nothing_else() {
    let board = Board::create(3, 2, BoardMode::Blackboard);
    assert_eq!(board.width(), 3);
    assert_eq!(board.height(), 2);
    assert_eq!(board.mode(), BoardMode::Blackboard);
    assert_eq!(board.background().len(), 24);
    assert_eq!(board.drawing_layer().len(), 24);
    for pixel in board.background().chunks(4) {
        assert_eq!(pixel, &[15, 15, 15, 255]);
    }
    assert!(board.drawing_layer().iter().all(|b| *b == 0));
    assert!(!board.has_drawings());
    assert_eq!(board.undo_depth(), 0);
    assert_eq!(board.default_pen_color(), Rgba::white());
    let light = Board::create(3, 2, BoardMode::Whiteboard);
    for pixel in light.background().chunks(4) {
        assert_eq!(pixel, &[255, 255, 255, 255]);
    }
    assert_eq!(light.default_pen_color(), Rgba::black());
}

#[test]
fn has_drawings_follows_the_ink() {
    let mut board = Board::create(5, 5, BoardMode::Blackboard);
    assert!(!board.has_drawings());
    board.draw_pixel(1, 1, red());
    assert!(board.has_drawings());
    board.draw_pixel(2, 1, red());
    board.draw_pixel(1, 1, Rgba::transparent());
    assert!(board.has_drawings());
    board.draw_pixel(2, 1, Rgba::new(9, 9, 9, 0));
    assert!(!board.has_drawings());
    board.draw_pixel(6, 1, red());
    board.draw_pixel(1, 1, Rgba::white());
    assert_eq!(board.read_drawn_pixel(1, 1), Rgba::white());
    board.draw_pixel(1, 1, Rgba::transparent());
    assert!(!board.has_drawings());
}

#[test]
fn toggling_remaps_background_and_swaps_black_and_white() {
    let mut board = Board::create(4, 1, BoardMode::Blackboard);
    board.write_pixel(1, 0, Rgba::white());
    board.write_pixel(2, 0, Rgba::new(0, 0, 0, 77));
    board.write_pixel(3, 0, red());
    let pending = board.toggle_mode();
    assert_eq!(pending, Persist::Everything);
    assert_eq!(board.mode(), BoardMode::Whiteboard);
    assert_eq!(board.read_pixel(0, 0), Rgba::white());
    assert_eq!(board.read_pixel(1, 0), Rgba::black());
    assert_eq!(board.read_pixel(2, 0), Rgba::new(255, 255, 255, 77));
    assert_eq!(board.read_pixel(3, 0), red());
}

#[test]
fn toggling_twice_restores_a_board_without_lost_colours() {
    let mut board = Board::create(6, 3, BoardMode::Blackboard);
    board.write_pixel(1, 1, red());
    board.write_pixel(2, 1, Rgba::white());
    board.write_pixel(3, 2, Rgba::new(1, 2, 3, 4));
    let before: Vec<u8> = board.background().to_vec();
    board.toggle_mode();
    assert_ne!(board.background(), &before[..]);
    board.toggle_mode();
    assert_eq!(board.background(), &before[..]);
    assert_eq!(board.mode(), BoardMode::Blackboard);

    let mut light = Board::create(6, 3, BoardMode::Whiteboard);
    light.write_pixel(1, 1, Rgba::black());
    light.write_pixel(2, 2, red());
    let before: Vec<u8> = light.background().to_vec();
    light.toggle_mode();
    light.toggle_mode();
    assert_eq!(light.background(), &before[..]);
}

#[test]
fn toggling_twice_loses_black_on_a_blackboard() {
    let mut board = Board::create(2, 1, BoardMode::Blackboard);
    board.write_pixel(0, 0, Rgba::black());
    board.toggle_mode();
    assert_eq!(board.read_pixel(0, 0), Rgba::white());
    board.toggle_mode();
    assert_eq!(board.read_pixel(0, 0), Rgba::dark_grey());
}

#[test]
fn toggling_twice_loses_grey_on_a_whiteboard() {
    let mut board = Board::create(2, 1, BoardMode::Whiteboard);
    board.write_pixel(0, 0, Rgba::dark_grey());
    board.toggle_mode();
    assert_eq!(board.read_pixel(0, 0), Rgba::dark_grey());
    board.toggle_mode();
    assert_eq!(board.read_pixel(0, 0), Rgba::white());
}

#[test]
fn toggling_leaves_the_drawing_layer_alone() {
    let mut board = Board::create(3, 3, BoardMode::Blackboard);
    board.draw_pixel(1, 1, Rgba::white());
    board.toggle_mode();
    assert_eq!(board.read_drawn_pixel(1, 1), Rgba::white());
}

#[test]
fn clearing_resets_both_layers() {
    let mut board = Board::create(4, 4, BoardMode::Whiteboard);
    board.write_pixel(1, 1, red());
    board.draw_pixel(2, 2, red());
    let pending = board.clear();
    assert_eq!(pending, Persist::Canvas);
    for pixel in board.background().chunks(4) {
        assert_eq!(pixel, &[255, 255, 255, 255]);
    }
    assert!(board.drawing_layer().iter().all(|b| *b == 0));
    assert!(!board.has_drawings());
    assert_eq!(board.mode(), BoardMode::Whiteboard);
}

#[test]
fn undo_brings_back_saved_layers_newest_first() {
    let mut board = Board::create(4, 1, BoardMode::Blackboard);
    assert!(!board.undo());
    board.save_undo_state();
    board.draw_pixel(0, 0, red());
    board.save_undo_state();
    board.draw_pixel(1, 0, red());
    assert_eq!(board.undo_depth(), 2);
    assert!(board.undo());
    assert_eq!(board.read_drawn_pixel(0, 0), red());
    assert_eq!(board.read_drawn_pixel(1, 0), Rgba::transparent());
    assert!(board.has_drawings());
    assert!(board.undo());
    assert_eq!(board.read_drawn_pixel(0, 0), Rgba::transparent());
    assert!(!board.has_drawings());
    assert!(!board.undo());
}

#[test]
fn undo_history_keeps_the_newest_three() {
    let mut board = Board::create(8, 1, BoardMode::Blackboard);
    for x in 0..5 {
        board.save_undo_state();
        board.draw_pixel(x, 0, red());
        assert!(board.undo_depth() <= 3);
    }
    assert_eq!(board.undo_depth(), 3);
    // Saved layers held 0, 1, 2, 3, 4 pixels; those with 2, 3, 4 remain.
    for left in [4, 3, 2] {
        assert!(board.undo());
        let inked = board.drawing_layer().chunks(4).filter(|p| p[3] != 0).count();
        assert_eq!(inked, left);
    }
    assert!(!board.undo());
    let inked = board.drawing_layer().chunks(4).filter(|p| p[3] != 0).count();
    assert_eq!(inked, 2);
}

#[test]
fn undo_after_clear_brings_the_drawing_back() {
    let mut board = Board::create(4, 1, BoardMode::Blackboard);
    board.draw_pixel(2, 0, red());
    board.save_undo_state();
    board.clear();
    assert!(!board.has_drawings());
    assert!(board.undo());
    assert!(board.has_drawings());
    assert_eq!(board.read_drawn_pixel(2, 0), red());
}

#[test]
fn can_hold_tells_valid_sizes() {
    assert!(can_hold(1, 1));
    assert!(can_hold(80000, 1000));
    assert!(!can_hold(0, 10));
    assert!(!can_hold(10, 0));
    assert!(!can_hold(100_001, 10));
    assert!(!can_hold(10, 100_001));
    assert_eq!(can_hold(100_000, 100_000), usize::MAX as u128 >= 40_000_000_000);
}
