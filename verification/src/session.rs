//! The whole drawing session: the board, the pen, the posters, and what the
//! controls on the screen are set to.

use vstd::prelude::*;
use crate::board::Board;
use crate::board::BoardView;
use crate::board::Persist;
use crate::brush::step_along;
use crate::brush::step_count;
use crate::brush::stroke_steps;
use crate::brush::stroked;
use crate::color::Rgba;
use crate::compose::with_drawing;
use crate::grid::byte_len;
use crate::poster::find_poster_at;
use crate::poster::render_posters;
use crate::poster::with_posters;
use crate::poster::PinnedPoster;
use crate::viewport::whole_of;
use crate::viewport::whole_pixel;
use crate::viewport::Point;

verus! {

/// The smallest brush, in pixels across.
pub const BRUSH_MIN: u32 = 1;

/// The largest brush, in pixels across.
pub const BRUSH_MAX: u32 = 100;

/// How far down the legend slides when it is hidden, in pixels.
pub const LEGEND_TRAVEL: u32 = 270;

/// How far the legend slides in one frame, in pixels.
pub const LEGEND_SPEED: u32 = 15;

/// A pen of one colour in the tray, with the images that show it open (in
/// use) and closed.
pub struct ColorMarker {
    pub color: Rgba,
    pub open_image: Vec<u8>,
    pub closed_image: Vec<u8>,
    pub width: u32,
    pub height: u32,
}

/// The pen: its colour and size, and the stroke under way.
pub struct DrawingTool {
    pub current_color: Rgba,
    pub brush_size: u32,
    pub is_drawing: bool,
    pub is_eraser: bool,
    pub last_point: Option<Point>,
    pub selected_marker_index: usize,
}

/// An image that waits to be pinned: its RGBA bytes, width, height and name.
pub struct LoadedImage {
    pub image_data: Vec<u8>,
    pub width: u32,
    pub height: u32,
    pub name: String,
}

/// The state of the application.
pub struct RickBoard {
    pub board: Board,
    pub drawing_tool: DrawingTool,
    pub markers: Vec<ColorMarker>,
    pub posters: Vec<PinnedPoster>,
    pub show_poster_picker: bool,
    /// Name and path of each image that can be pinned.
    pub available_posters: Vec<(String, String)>,
    pub placing_poster: Option<LoadedImage>,
    pub selected_poster_index: Option<usize>,
    pub poster_drag_offset: Option<Point>,
    pub legend_collapsed: bool,
    /// How far the legend has slid down: 0 when it shows in full.
    pub legend_offset: u32,
}

/// The index of the first marker of colour `color`, or 0 where there is
/// none.
pub open spec fn marker_of(markers: Seq<ColorMarker>, color: Rgba, index: int) -> bool {
    ||| {
        &&& 0 <= index < markers.len()
        &&& markers[index].color == color
        &&& forall|j: int| 0 <= j < index ==> (#[trigger] markers[j]).color != color
    }
    ||| {
        &&& index == 0
        &&& forall|j: int| 0 <= j < markers.len() ==> (#[trigger] markers[j]).color != color
    }
}

/// The legend's offset one frame later: a step of `LEGEND_SPEED` towards
/// `LEGEND_TRAVEL` when it is collapsed and towards 0 when it is not, never
/// past either.
pub open spec fn slid(offset: int, collapsed: bool) -> int {
    let target = if collapsed {
        LEGEND_TRAVEL as int
    } else {
        0
    };
    if offset < target {
        if offset + LEGEND_SPEED < target {
            offset + LEGEND_SPEED
        } else {
            target
        }
    } else if offset > target {
        if offset - LEGEND_SPEED > target {
            offset - LEGEND_SPEED
        } else {
            target
        }
    } else {
        target
    }
}

impl DrawingTool {
    /// The colour that the pen leaves: none when it erases, so that the
    /// background shows again.
    pub open spec fn ink(&self) -> Rgba {
        if self.is_eraser {
            Rgba::spec_transparent()
        } else {
            self.current_color
        }
    }

    /// The radius of a dab: half the brush size, rounded down.
    pub open spec fn radius(&self) -> int {
        self.brush_size as int / 2
    }
}

impl BoardView {
    /// The board after a stroke segment from `from` to `to`: a dab at each
    /// of the points along the segment, the ends included, one step of at
    /// most one pixel apart.
    pub open spec fn after_segment(
        self,
        from: Point,
        to: Point,
        radius: int,
        color: Rgba,
    ) -> BoardView {
        let steps = step_count(to.x - from.x, to.y - from.y);
        BoardView {
            drawing: stroked(
                self.drawing,
                self.width as int,
                from,
                to,
                steps,
                radius,
                color,
                steps + 1,
            ),
            ..self
        }
    }
}

impl RickBoard {
    /// A session is well formed when its board is.
    pub open spec fn wf(&self) -> bool {
        self.board.wf()
    }

    /// The pen after a change of mode: the first marker (black) gives way
    /// to the second (white) and the other way round, where the tray holds
    /// that marker; any other pen stays.
    pub open spec fn pen_after_toggle(&self) -> DrawingTool {
        if self.drawing_tool.selected_marker_index == 1 && self.markers@.len() > 0 {
            DrawingTool {
                selected_marker_index: 0,
                current_color: self.markers@[0].color,
                ..self.drawing_tool
            }
        } else if self.drawing_tool.selected_marker_index == 0 && self.markers@.len() > 1 {
            DrawingTool {
                selected_marker_index: 1,
                current_color: self.markers@[1].color,
                ..self.drawing_tool
            }
        } else {
            self.drawing_tool
        }
    }

    /// A session on `board`, with the pens `markers` in the tray and the
    /// images `available_posters` to pick from. The pen takes the colour that
    /// goes with the board's mode, and the marker of that colour is selected.
    pub fn new(
        board: Board,
        markers: Vec<ColorMarker>,
        available_posters: Vec<(String, String)>,
    ) -> (session: RickBoard)
        requires
            board.wf(),
        ensures
            session.wf(),
            session.board == board,
            session.markers == markers,
            session.available_posters == available_posters,
            session.posters@.len() == 0,
            session.drawing_tool.current_color == board@.mode.default_pen(),
            session.drawing_tool.brush_size == 2,
            !session.drawing_tool.is_drawing,
            !session.drawing_tool.is_eraser,
            session.drawing_tool.last_point is None,
            marker_of(
                markers@,
                board@.mode.default_pen(),
                session.drawing_tool.selected_marker_index as int,
            ),
            !session.show_poster_picker,
            session.placing_poster is None,
            session.selected_poster_index is None,
            session.poster_drag_offset is None,
            !session.legend_collapsed,
            session.legend_offset == 0,
    {
        let default_color: Rgba = board.default_pen_color();
        let mut selected: usize = 0;
        let mut found: bool = false;
        let mut i: usize = 0;
        while i < markers.len() && !found
            invariant
                i <= markers@.len(),
                !found ==> selected == 0,
                !found ==> forall|j: int| 0 <= j < i ==> (#[trigger] markers@[j]).color != default_color,
                found ==> marker_of(markers@, default_color, selected as int) && selected
                    < markers@.len(),
            decreases markers@.len() - i + if found { 0int } else { 1int },
        {
            if markers[i].color == default_color {
                selected = i;
                found = true;
            } else {
                i = i + 1;
            }
        }
        RickBoard {
            board,
            drawing_tool: DrawingTool {
                current_color: default_color,
                brush_size: 2,
                is_drawing: false,
                is_eraser: false,
                last_point: None,
                selected_marker_index: selected,
            },
            markers,
            posters: Vec::new(),
            show_poster_picker: false,
            available_posters,
            placing_poster: None,
            selected_poster_index: None,
            poster_drag_offset: None,
            legend_collapsed: false,
            legend_offset: 0,
        }
    }

    /// The session with the posters that were pinned earlier.
    pub fn init_with_posters(self, posters: Vec<PinnedPoster>) -> (session: RickBoard)
        ensures
            session == (RickBoard { posters, ..self }),
    {
        let mut session = self;
        session.posters = posters;
        session
    }

    /// Puts one dab of the pen on the drawing layer, centred on the pixel
    /// that `center` lies in.
    pub fn draw_brush(&mut self, center: Point)
        requires
            old(self).wf(),
        ensures
            final(self).wf(),
            *final(self) == (RickBoard { board: final(self).board, ..*old(self) }),
            final(self).board@ == old(self).board@.after_dab(
                whole_pixel(center.x as int),
                whole_pixel(center.y as int),
                old(self).drawing_tool.radius(),
                old(self).drawing_tool.ink(),
            ),
    {
        let radius: u32 = self.drawing_tool.brush_size / 2;
        let color: Rgba = if self.drawing_tool.is_eraser {
            Rgba::transparent()
        } else {
            self.drawing_tool.current_color
        };
        self.board.draw_dab(whole_of(center.x), whole_of(center.y), radius, color);
    }

    /// Begins a stroke at `point`: the drawing layer goes on the undo
    /// history, so that one undo takes the whole stroke back, and the first
    /// dab is made.
    pub fn start_drawing(&mut self, point: Point, is_eraser: bool)
        requires
            old(self).wf(),
        ensures
            final(self).wf(),
            *final(self) == (RickBoard {
                board: final(self).board,
                drawing_tool: final(self).drawing_tool,
                ..*old(self)
            }),
            final(self).drawing_tool == (DrawingTool {
                is_drawing: true,
                is_eraser,
                last_point: Some(point),
                ..old(self).drawing_tool
            }),
            final(self).board@ == old(self).board@.after_save().after_dab(
                whole_pixel(point.x as int),
                whole_pixel(point.y as int),
                old(self).drawing_tool.radius(),
                final(self).drawing_tool.ink(),
            ),
    {
        self.board.save_undo_state();
        self.drawing_tool.is_drawing = true;
        self.drawing_tool.is_eraser = is_eraser;
        self.drawing_tool.last_point = Some(point);
        self.draw_brush(point);
    }

    /// Carries the stroke on to `point` with a connected line of dabs from
    /// the point before. Nothing happens where no stroke is under way.
    pub fn continue_drawing(&mut self, point: Point)
        requires
            old(self).wf(),
        ensures
            final(self).wf(),
            !old(self).drawing_tool.is_drawing ==> *final(self) == *old(self),
            old(self).drawing_tool.is_drawing ==> {
                &&& *final(self) == (RickBoard {
                    board: final(self).board,
                    drawing_tool: final(self).drawing_tool,
                    ..*old(self)
                })
                &&& final(self).drawing_tool == (DrawingTool {
                    last_point: Some(point),
                    ..old(self).drawing_tool
                })
                &&& final(self).board@ == match old(self).drawing_tool.last_point {
                    Some(last) => old(self).board@.after_segment(
                        last,
                        point,
                        old(self).drawing_tool.radius(),
                        old(self).drawing_tool.ink(),
                    ),
                    None => old(self).board@.after_dab(
                        whole_pixel(point.x as int),
                        whole_pixel(point.y as int),
                        old(self).drawing_tool.radius(),
                        old(self).drawing_tool.ink(),
                    ),
                }
            },
    {
        if !self.drawing_tool.is_drawing {
            return ;
        }
        match self.drawing_tool.last_point {
            Some(last) => {
                let steps: i32 = stroke_steps(
                    point.x as i128 - last.x as i128,
                    point.y as i128 - last.y as i128,
                );
                let ghost start = self.board@;
                let ghost radius = self.drawing_tool.radius();
                let ghost color = self.drawing_tool.ink();
                let mut i: i64 = 0;
                while i <= steps as i64
                    invariant
                        self.wf(),
                        steps >= 1,
                        0 <= i <= steps + 1,
                        *self == (RickBoard { board: self.board, ..*old(self) }),
                        radius == old(self).drawing_tool.radius(),
                        color == old(self).drawing_tool.ink(),
                        start == old(self).board@,
                        self.board@ == (BoardView {
                            drawing: stroked(
                                start.drawing,
                                start.width as int,
                                last,
                                point,
                                steps as int,
                                radius,
                                color,
                                i as int,
                            ),
                            ..start
                        }),
                    decreases steps + 1 - i,
                {
                    let at = Point {
                        x: step_along(last.x, point.x, steps, i as i32),
                        y: step_along(last.y, point.y, steps, i as i32),
                    };
                    self.draw_brush(at);
                    i = i + 1;
                }
            },
            None => {
                self.draw_brush(point);
            },
        }
        self.drawing_tool.last_point = Some(point);
    }

    /// Ends the stroke. Nothing is written out on that account.
    pub fn stop_drawing(&mut self)
        ensures
            *final(self) == (RickBoard {
                drawing_tool: DrawingTool {
                    is_drawing: false,
                    last_point: None,
                    ..old(self).drawing_tool
                },
                ..*old(self)
            }),
    {
        self.drawing_tool.is_drawing = false;
        self.drawing_tool.last_point = None;
    }

    /// Clears the board. The board file and the drawing layer are to be
    /// written out next.
    pub fn clear_board(&mut self) -> (pending: Persist)
        requires
            old(self).wf(),
        ensures
            final(self).wf(),
            *final(self) == (RickBoard { board: final(self).board, ..*old(self) }),
            final(self).board@ == old(self).board@.after_clear(),
            pending == Persist::Everything,
    {
        let _ = self.board.clear();
        Persist::Everything
    }

    /// Changes the board's mode. A pen that was the first marker (black)
    /// becomes the second (white) and the other way round, where the tray
    /// holds that marker; any other pen stays. The board file and the drawing
    /// layer are to be written out next.
    pub fn toggle_mode(&mut self) -> (pending: Persist)
        requires
            old(self).wf(),
        ensures
            final(self).wf(),
            *final(self) == (RickBoard {
                board: final(self).board,
                drawing_tool: final(self).drawing_tool,
                ..*old(self)
            }),
            final(self).board@ == old(self).board@.after_toggle(),
            final(self).drawing_tool == old(self).pen_after_toggle(),
            pending == Persist::Everything,
    {
        if self.drawing_tool.selected_marker_index == 1 && self.markers.len() > 0 {
            self.drawing_tool.selected_marker_index = 0;
            self.drawing_tool.current_color = self.markers[0].color;
        } else if self.drawing_tool.selected_marker_index == 0 && self.markers.len() > 1 {
            self.drawing_tool.selected_marker_index = 1;
            self.drawing_tool.current_color = self.markers[1].color;
        }
        self.board.toggle_mode()
    }

    /// Finds the topmost poster at a board position.
    pub fn find_poster_at(&self, point: Point) -> (found: Option<usize>)
        ensures
            match found {
                Some(i) => {
                    &&& i < self.posters@.len()
                    &&& self.posters@[i as int].covers(point.x as int, point.y as int)
                    &&& forall|j: int|
                        i < j < self.posters@.len() ==> !(#[trigger] self.posters@[j]).covers(
                            point.x as int,
                            point.y as int,
                        )
                },
                None => forall|j: int|
                    0 <= j < self.posters@.len() ==> !(#[trigger] self.posters@[j]).covers(
                        point.x as int,
                        point.y as int,
                    ),
            },
    {
        find_poster_at(&self.posters, point)
    }

    /// Pins an image at the board position under the screen position
    /// `screen`, on top of the posters that are there, at scale one.
    pub fn pin_poster(&mut self, image: LoadedImage, screen: Point)
        requires
            old(self).wf(),
        ensures
            final(self).wf(),
            *final(self) == (RickBoard { posters: final(self).posters, ..*old(self) }),
            final(self).posters@.len() == old(self).posters@.len() + 1,
            forall|i: int|
                0 <= i < old(self).posters@.len() ==> final(self).posters@[i] == old(
                    self,
                ).posters@[i],
            final(self).posters@.last() == (PinnedPoster {
                position: old(self).board@.viewport.canvas_point(screen),
                image_data: image.image_data,
                width: image.width,
                height: image.height,
                name: image.name,
                scale: 65536,
            }),
    {
        let position: Point = self.board.screen_to_canvas(screen);
        self.posters.push(
            PinnedPoster {
                position,
                image_data: image.image_data,
                width: image.width,
                height: image.height,
                name: image.name,
                scale: 65536,
            },
        );
    }

    /// Shows the legend if it is hidden, and hides it if it shows.
    pub fn toggle_legend(&mut self)
        ensures
            *final(self) == (RickBoard {
                legend_collapsed: !old(self).legend_collapsed,
                ..*old(self)
            }),
    {
        self.legend_collapsed = !self.legend_collapsed;
    }

    /// Slides the legend one frame further in or out.
    pub fn update_legend_animation(&mut self)
        ensures
            *final(self) == (RickBoard {
                legend_offset: slid(old(self).legend_offset as int, old(self).legend_collapsed) as u32,
                ..*old(self)
            }),
            old(self).legend_offset <= LEGEND_TRAVEL ==> final(self).legend_offset <= LEGEND_TRAVEL,
    {
        let target: u32 = if self.legend_collapsed {
            LEGEND_TRAVEL
        } else {
            0
        };
        if self.legend_offset < target {
            self.legend_offset = if self.legend_offset + LEGEND_SPEED < target {
                self.legend_offset + LEGEND_SPEED
            } else {
                target
            };
        } else if self.legend_offset > target {
            self.legend_offset = if self.legend_offset - target > LEGEND_SPEED {
                self.legend_offset - LEGEND_SPEED
            } else {
                target
            };
        }
    }

    /// Lays the posters over a frame, a later one on top of an earlier one.
    pub fn render_posters(&self, frame: &mut [u8], width: u32, height: u32)
        requires
            self.wf(),
            old(frame)@.len() == byte_len(width as int, height as int),
        ensures
            final(frame)@ == with_posters(
                old(frame)@,
                self.posters@,
                self.posters@.len() as int,
                self.board@.viewport,
                self.board@.width as int,
                width as int,
            ),
    {
        let view = self.board.viewport();
        render_posters(&self.posters, &view, self.board.width(), frame, width, height);
    }

    /// Lays what is drawn and pinned over a frame that shows the background:
    /// first the drawing layer, then the posters in their order.
    pub fn composite(&self, frame: &mut [u8], width: u32, height: u32)
        requires
            self.wf(),
            old(frame)@.len() == byte_len(width as int, height as int),
        ensures
            final(frame)@ == with_posters(
                with_drawing(
                    old(frame)@,
                    self.board@.drawing,
                    self.board@.width as int,
                    self.board@.height as int,
                    self.board@.viewport,
                    width as int,
                ),
                self.posters@,
                self.posters@.len() as int,
                self.board@.viewport,
                self.board@.width as int,
                width as int,
            ),
    {
        self.board.render_drawing_layer(frame, width, height);
        self.render_posters(frame, width, height);
    }
}

} // verus!
