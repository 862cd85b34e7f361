use rickboard::board::Board;
use rickboard::board::Persist;
use rickboard::color::BoardMode;
use rickboard::color::Rgba;
use rickboard::format::decode_header;
use rickboard::format::encode_header;
use rickboard::format::Header;
use rickboard::format::HEADER_SIZE;

fn file_of(board: &Board) -> Vec<u8> {
    board.file_bytes()
}

#[test]
fn the_board_file_is_header_then_background() {
    let mut board = Board::create(3, 2, BoardMode::Whiteboard);
    board.write_pixel(1, 1, Rgba::new(9, 8, 7, 6));
    let file = board.file_bytes();
    assert_eq!(file.len(), 9 + 24);
    assert_eq!(&file[..9], &[1, 3, 0, 0, 0, 2, 0, 0, 0]);
    assert_eq!(&file[..9], &board.write_header());
    assert_eq!(&file[9..], board.background());
    assert_eq!(&file[9 + 16..9 + 20], &[9, 8, 7, 6]);
}

#[test]
fn header_bytes_are_little_endian() {
    assert_eq!(HEADER_SIZE, 9);
    assert_eq!(
        encode_header(BoardMode::Blackboard, 80000, 1000),
        [0, 0x80, 0x38, 0x01, 0x00, 0xe8, 0x03, 0x00, 0x00]
    );
    assert_eq!(
        encode_header(BoardMode::Whiteboard, 0x0403_0201, 0xffff_ffff),
        [1, 1, 2, 3, 4, 255, 255, 255, 255]
    );
}

#[test]
fn header_is_read_back() {
    let mut file = encode_header(BoardMode::Whiteboard, 300, 7).to_vec();
    file.push(0);
    assert_eq!(
        decode_header(&file, BoardMode::Blackboard),
        Some(Header { mode: BoardMode::Whiteboard, width: 300, height: 7 })
    );
}

#[test]
fn unknown_mode_byte_leaves_the_mode_to_the_caller() {
    let mut file = encode_header(BoardMode::Whiteboard, 3, 3).to_vec();
    file[0] = 7;
    file.push(0);
    assert_eq!(decode_header(&file, BoardMode::Blackboard).unwrap().mode, BoardMode::Blackboard);
    assert_eq!(decode_header(&file, BoardMode::Whiteboard).unwrap().mode, BoardMode::Whiteboard);
}

#[test]
fn short_files_hold_no_board() {
    assert_eq!(decode_header(&[], BoardMode::Blackboard), None);
    let header = encode_header(BoardMode::Blackboard, 3, 3);
    assert_eq!(decode_header(&header[..8], BoardMode::Blackboard), None);
    // A file of exactly the header's length does not exceed it.
    assert_eq!(decode_header(&header, BoardMode::Blackboard), None);
}

#[test]
fn insane_dimensions_hold_no_board() {
    for (w, h) in [(0u32, 5u32), (5, 0), (100_001, 5), (5, 100_001), (u32::MAX, u32::MAX)] {
        let mut file = encode_header(BoardMode::Blackboard, w, h).to_vec();
        file.push(0);
        assert_eq!(decode_header(&file, BoardMode::Blackboard), None);
    }
    let mut file = encode_header(BoardMode::Blackboard, 100_000, 100_000).to_vec();
    file.push(0);
    assert!(decode_header(&file, BoardMode::Blackboard).is_some());
}

#[test]
fn a_written_board_is_opened_again() {
    let mut board = Board::create(5, 4, BoardMode::Whiteboard);
    board.write_pixel(2, 3, Rgba::new(10, 20, 30, 40));
    board.write_pixel(-1, 0, Rgba::black());
    board.draw_pixel(1, 1, Rgba::new(1, 2, 3, 200));
    let file = file_of(&board);
    assert_eq!(file.len(), 9 + 5 * 4 * 4);
    let (again, pending) = Board::new(100, 50, BoardMode::Blackboard, &file, board.drawing_layer());
    assert_eq!(pending, Persist::Nothing);
    assert_eq!(again.width(), 5);
    assert_eq!(again.height(), 4);
    assert_eq!(again.mode(), BoardMode::Whiteboard);
    assert_eq!(again.background(), board.background());
    assert_eq!(again.drawing_layer(), board.drawing_layer());
    assert!(again.has_drawings());
    assert_eq!(again.undo_depth(), 0);
}

#[test]
fn a_missing_file_gives_a_new_board() {
    let (board, pending) = Board::new(6, 2, BoardMode::Blackboard, &[], &[]);
    assert_eq!(pending, Persist::Canvas);
    assert_eq!(board.width(), 6);
    assert_eq!(board.height(), 2);
    assert_eq!(board.mode(), BoardMode::Blackboard);
    for pixel in board.background().chunks(4) {
        assert_eq!(pixel, &[15, 15, 15, 255]);
    }
    assert!(!board.has_drawings());
}

#[test]
fn a_corrupt_header_gives_a_new_board_of_the_size_asked_for() {
    let mut file = encode_header(BoardMode::Whiteboard, 0, 9).to_vec();
    file.extend_from_slice(&[7u8; 64]);
    let (board, pending) = Board::new(3, 3, BoardMode::Blackboard, &file, &[]);
    assert_eq!(pending, Persist::Canvas);
    assert_eq!((board.width(), board.height()), (3, 3));
    assert_eq!(board.mode(), BoardMode::Blackboard);
    assert_eq!(board.read_pixel(0, 0), Rgba::dark_grey());
}

#[test]
fn a_drawing_file_of_the_wrong_length_is_passed_over() {
    let board = Board::create(2, 2, BoardMode::Blackboard);
    let file = file_of(&board);
    let (again, _) = Board::new(2, 2, BoardMode::Blackboard, &file, &[255u8; 15]);
    assert!(!again.has_drawings());
    assert!(again.drawing_layer().iter().all(|b| *b == 0));
    let (again, _) = Board::new(2, 2, BoardMode::Blackboard, &file, &[255u8; 17]);
    assert!(!again.has_drawings());
    let (again, _) = Board::new(2, 2, BoardMode::Blackboard, &file, &[255u8; 16]);
    assert!(again.has_drawings());
    assert_eq!(again.read_drawn_pixel(1, 1), Rgba::white());
}

#[test]
fn a_drawing_file_without_ink_has_no_drawings() {
    let board = Board::create(2, 2, BoardMode::Blackboard);
    let file = file_of(&board);
    let mut drawing = vec![9u8; 16];
    for p in 0..4 {
        drawing[4 * p + 3] = 0;
    }
    let (again, _) = Board::new(2, 2, BoardMode::Blackboard, &file, &drawing);
    assert!(!again.has_drawings());
    assert_eq!(again.drawing_layer(), &drawing[..]);
}

#[test]
fn a_truncated_file_is_filled_up_with_zeros() {
    let mut file = encode_header(BoardMode::Blackboard, 2, 2).to_vec();
    file.extend_from_slice(&[1, 2, 3, 4, 5, 6]);
    let (board, pending) = Board::new(9, 9, BoardMode::Whiteboard, &file, &[]);
    assert_eq!(pending, Persist::Nothing);
    assert_eq!((board.width(), board.height()), (2, 2));
    assert_eq!(board.background(), &[1, 2, 3, 4, 5, 6, 0, 0, 0, 0, 0, 0, 0, 0, 0, 0]);
}

#[test]
fn what_follows_the_pixels_in_a_file_is_left_out() {
    let mut file = encode_header(BoardMode::Blackboard, 1, 1).to_vec();
    file.extend_from_slice(&[1, 2, 3, 4, 5, 6, 7, 8]);
    let (board, _) = Board::new(9, 9, BoardMode::Whiteboard, &file, &[]);
    assert_eq!(board.background(), &[1, 2, 3, 4]);
}
