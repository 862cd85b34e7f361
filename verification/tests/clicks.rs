use rickboard::board::Board;
use rickboard::color::BoardMode;
use rickboard::color::Rgba;
use rickboard::controls::autosave_due;
use rickboard::controls::is_between;
use rickboard::controls::Click;
use rickboard::controls::Target;
use rickboard::session::ColorMarker;
use rickboard::session::LoadedImage;
use rickboard::session::RickBoard;
use rickboard::viewport::Point;

fn marker(color: Rgba) -> ColorMarker {
    ColorMarker { color, open_image: Vec::new(), closed_image: Vec::new(), width: 40, height: 100 }
}

fn session() -> RickBoard {
    let tray = vec![marker(Rgba::black()), marker(Rgba::white()), marker(Rgba::new(255, 0, 0, 255))];
    let entries = vec![
        (String::from("one"), String::from("posters/one.png")),
        (String::from("two"), String::from("posters/two.png")),
    ];
    RickBoard::new(Board::create(200, 200, BoardMode::Blackboard), tray, entries)
}

fn image(name: &str) -> LoadedImage {
    LoadedImage { image_data: vec![1, 2, 3, 255], width: 1, height: 1, name: String::from(name) }
}

fn px(x: i32, y: i32) -> Point {
    Point::from_pixels(x, y)
}

#[test]
fn ends_are_included() {
    assert!(is_between(10 * 65536, 10, 290));
    assert!(is_between(290 * 65536, 10, 290));
    assert!(!is_between(10 * 65536 - 1, 10, 290));
    assert!(!is_between(290 * 65536 + 1, 10, 290));
}

#[test]
fn the_controls_are_where_they_are_drawn() {
    let s = session();
    assert_eq!(s.target_at(px(10, 0), 800, 600), Target::TopBar);
    assert_eq!(s.target_at(px(290, 20), 800, 600), Target::TopBar);
    assert_eq!(s.target_at(px(9, 10), 800, 600), Target::Nothing);
    assert_eq!(s.target_at(px(100, 21), 800, 600), Target::Nothing);
    assert_eq!(s.target_at(px(20, 170), 800, 600), Target::ModeButton);
    assert_eq!(s.target_at(px(135, 190), 800, 600), Target::ModeButton);
    assert_eq!(s.target_at(px(136, 180), 800, 600), Target::Nothing);
    assert_eq!(s.target_at(px(145, 170), 800, 600), Target::PostersButton);
    assert_eq!(s.target_at(px(210, 190), 800, 600), Target::PostersButton);
    assert_eq!(s.target_at(px(20, 150), 800, 600), Target::Slider);
    assert_eq!(s.target_at(px(160, 165), 800, 600), Target::Slider);
    assert_eq!(s.target_at(px(100, 166), 800, 600), Target::Nothing);
    assert_eq!(s.target_at(px(400, 300), 800, 600), Target::Nothing);
}

#[test]
fn the_legend_takes_clicks_where_it_has_slid_to() {
    let mut s = session();
    s.legend_offset = 100;
    assert_eq!(s.target_at(px(50, 70), 800, 600), Target::ModeButton);
    assert_eq!(s.target_at(px(50, 180), 800, 600), Target::Nothing);
    s.legend_offset = 268;
    assert_eq!(s.target_at(px(50, 0), 800, 600), Target::Nothing);
    s.legend_offset = 269;
    s.legend_collapsed = true;
    assert_eq!(s.target_at(px(50, 30), 800, 600), Target::TopBar);
    assert_eq!(s.target_at(px(50, 31), 800, 600), Target::Nothing);
    // Hidden, the legend offers nothing but its top bar, not even markers.
    assert_eq!(s.target_at(px(60, 570), 800, 600), Target::Nothing);
    s.legend_offset = 0;
    assert_eq!(s.target_at(px(60, 570), 800, 600), Target::Marker(2));
}

#[test]
fn markers_are_picked_from_the_tray() {
    let mut s = session();
    // Markers are 20 by 50 on the screen, from row 600 - 50 + 10 on, at
    // columns 5, 30 and 55.
    assert_eq!(s.target_at(px(30, 560), 800, 600), Target::Marker(1));
    assert_eq!(s.target_at(px(50, 610), 800, 600), Target::Marker(1));
    assert_eq!(s.target_at(px(51, 580), 800, 600), Target::Nothing);
    assert_eq!(s.target_at(px(55, 580), 800, 600), Target::Marker(2));
    assert_eq!(s.target_at(px(40, 559), 800, 600), Target::Nothing);
    // On a blackboard the black marker is not offered.
    assert_eq!(s.target_at(px(10, 580), 800, 600), Target::Nothing);
    s.board.toggle_mode();
    assert_eq!(s.target_at(px(10, 580), 800, 600), Target::Marker(0));
    assert_eq!(s.target_at(px(40, 580), 800, 600), Target::Nothing);
    assert_eq!(s.handle_ui_click(px(60, 580), 600, 800), Click::Handled);
    assert_eq!(s.drawing_tool.selected_marker_index, 2);
    assert_eq!(s.drawing_tool.current_color, Rgba::new(255, 0, 0, 255));
}

#[test]
fn the_poster_picker_takes_clicks_when_open() {
    let mut s = session();
    assert_eq!(s.target_at(px(400, 300), 800, 600), Target::Nothing);
    s.show_poster_picker = true;
    // The picker is at (200, 150); its list begins at row 190.
    assert_eq!(s.target_at(px(400, 190), 800, 600), Target::PickerEntry(0));
    assert_eq!(s.target_at(px(400, 209), 800, 600), Target::PickerEntry(0));
    assert_eq!(s.target_at(px(400, 210), 800, 600), Target::PickerEntry(1));
    assert_eq!(s.target_at(px(400, 230), 800, 600), Target::PickerPanel);
    assert_eq!(s.target_at(px(400, 150), 800, 600), Target::PickerPanel);
    assert_eq!(s.target_at(px(600, 450), 800, 600), Target::PickerPanel);
    assert_eq!(s.target_at(px(601, 450), 800, 600), Target::Nothing);
    // Less than a pixel above the list still counts for its first entry.
    assert_eq!(s.target_at(Point::new(400 * 65536, 189 * 65536 + 1), 800, 600), Target::PickerEntry(0));
    assert_eq!(s.target_at(Point::new(400 * 65536, 189 * 65536), 800, 600), Target::PickerPanel);
    // The picker comes before the buttons that it covers.
    assert_eq!(s.target_at(px(205, 180), 800, 600), Target::PickerPanel);
    assert_eq!(s.handle_ui_click(px(400, 215), 600, 800), Click::PosterPicked(1));
    assert!(s.show_poster_picker);
    assert!(s.placing_poster.is_none());
    s.begin_placing(image("two"));
    assert!(!s.show_poster_picker);
    assert_eq!(s.placing_poster.as_ref().unwrap().name, "two");
}

#[test]
fn clicks_do_what_the_controls_say() {
    let mut s = session();
    assert_eq!(s.handle_ui_click(px(400, 300), 600, 800), Click::Missed);
    assert_eq!(s.handle_ui_click(px(100, 10), 600, 800), Click::Handled);
    assert!(s.legend_collapsed);
    assert_eq!(s.handle_ui_click(px(100, 10), 600, 800), Click::Handled);
    assert!(!s.legend_collapsed);
    assert_eq!(s.handle_ui_click(px(150, 180), 600, 800), Click::Handled);
    assert!(s.show_poster_picker);
    assert_eq!(s.handle_ui_click(px(150, 180), 600, 800), Click::Handled);
    assert!(!s.show_poster_picker);
    assert_eq!(s.handle_ui_click(px(50, 180), 600, 800), Click::ModeToggled);
    assert_eq!(s.board.mode(), BoardMode::Whiteboard);
    assert_eq!(s.drawing_tool.selected_marker_index, 0);
    assert_eq!(s.drawing_tool.current_color, Rgba::black());
}

#[test]
fn the_slider_sets_the_brush_size() {
    let mut s = session();
    for (x, size) in [(20, 1), (21, 1), (22, 1), (23, 2), (90, 50), (160, 100), (159, 99), (34, 10)] {
        assert_eq!(s.handle_ui_click(px(x, 155), 600, 800), Click::Handled);
        assert_eq!(s.drawing_tool.brush_size, size);
    }
    // Half a part rounds up: 20.7 pixels along is 14.5 in a hundred.
    assert_eq!(s.handle_ui_click(Point::new(20 * 65536 + 1330381, 155 * 65536), 600, 800), Click::Handled);
    assert_eq!(s.drawing_tool.brush_size, 15);
    assert_eq!(s.handle_ui_click(Point::new(20 * 65536 + 1330380, 155 * 65536), 600, 800), Click::Handled);
    assert_eq!(s.drawing_tool.brush_size, 14);
}

#[test]
fn the_brush_grows_and_shrinks_within_bounds() {
    let mut s = session();
    assert_eq!(s.drawing_tool.brush_size, 2);
    s.drawing_tool.shrink_brush();
    assert_eq!(s.drawing_tool.brush_size, 1);
    s.drawing_tool.shrink_brush();
    assert_eq!(s.drawing_tool.brush_size, 1);
    s.drawing_tool.grow_brush();
    assert_eq!(s.drawing_tool.brush_size, 2);
    s.drawing_tool.brush_size = 99;
    s.drawing_tool.grow_brush();
    s.drawing_tool.grow_brush();
    assert_eq!(s.drawing_tool.brush_size, 100);
    s.drawing_tool.brush_size = 0;
    s.drawing_tool.shrink_brush();
    assert_eq!(s.drawing_tool.brush_size, 1);
}

#[test]
fn saving_by_itself_waits_a_minute_and_a_change() {
    assert!(autosave_due(60000, false, true));
    assert!(autosave_due(u64::MAX, false, true));
    assert!(!autosave_due(59999, false, true));
    assert!(!autosave_due(60000, true, true));
    assert!(!autosave_due(60000, false, false));
}

#[test]
fn a_pending_image_is_pinned_by_the_next_click() {
    let mut s = session();
    assert!(!s.place_pending(px(5, 5)));
    assert!(s.posters.is_empty());
    s.begin_placing(image("dot"));
    s.board.pan(10 * 65536, 0);
    assert!(s.place_pending(px(5, 5)));
    assert!(s.placing_poster.is_none());
    assert_eq!(s.posters.len(), 1);
    assert_eq!(s.posters[0].position, px(15, 5));
    assert_eq!(s.posters[0].name, "dot");
    assert!(!s.place_pending(px(5, 5)));
    assert_eq!(s.posters.len(), 1);
}

#[test]
fn a_poster_is_grabbed_dragged_and_released() {
    let mut s = session();
    assert!(!s.drag_poster(px(1, 1)));
    assert!(!s.release_poster());
    s.pin_poster(LoadedImage { image_data: vec![0; 400], width: 10, height: 10, name: String::from("a") }, px(20, 30));
    s.pin_poster(LoadedImage { image_data: vec![0; 400], width: 10, height: 10, name: String::from("b") }, px(25, 35));
    assert!(!s.grab_poster(px(5, 5)));
    assert_eq!(s.selected_poster_index, None);
    assert_eq!(s.poster_drag_offset, None);
    assert!(s.grab_poster(px(27, 38)));
    assert_eq!(s.selected_poster_index, Some(1));
    assert_eq!(s.poster_drag_offset, Some(px(2, 3)));
    assert!(s.drag_poster(px(102, 53)));
    assert_eq!(s.posters[1].position, px(100, 50));
    assert_eq!(s.posters[1].name, "b");
    assert_eq!(s.posters[0].position, px(20, 30));
    assert!(s.release_poster());
    assert_eq!(s.selected_poster_index, None);
    assert!(!s.drag_poster(px(0, 0)));
    assert_eq!(s.posters[1].position, px(100, 50));
    assert!(s.grab_poster(px(22, 32)));
    assert_eq!(s.selected_poster_index, Some(0));
    s.posters.clear();
    assert!(s.drag_poster(px(0, 0)));
    assert!(s.posters.is_empty());
}

#[test]
fn posters_are_removed_and_scaled_from_the_top() {
    let mut s = session();
    for name in ["a", "b", "c"] {
        s.pin_poster(LoadedImage { image_data: vec![0; 400], width: 10, height: 10, name: String::from(name) }, px(20, 30));
    }
    assert!(!s.scale_poster_at(px(0, 0), true));
    assert!(s.scale_poster_at(px(25, 35), true));
    assert_eq!(s.posters[2].scale, 72089);
    assert_eq!(s.posters[1].scale, 65536);
    assert!(s.scale_poster_at(px(25, 35), false));
    assert_eq!(s.posters[2].scale, 64880);
    assert!(!s.remove_poster_at(px(0, 0)));
    assert!(s.remove_poster_at(px(25, 35)));
    let names: Vec<&str> = s.posters.iter().map(|p| p.name.as_str()).collect();
    assert_eq!(names, vec!["a", "b"]);
}
