//! The controls: what a click on the screen hits, and what it does.

use vstd::prelude::*;
use crate::color::BoardMode;
use crate::poster::PinnedPoster;
use crate::session::DrawingTool;
use crate::session::LoadedImage;
use crate::session::RickBoard;
use crate::session::BRUSH_MAX;
use crate::session::BRUSH_MIN;
use crate::viewport::saturate;
use crate::viewport::saturated;
use crate::viewport::whole_pixel;
use crate::viewport::Point;

verus! {

/// The offset from which on the legend counts as hidden, in pixels.
pub const LEGEND_HIDDEN: u32 = 269;

/// The time between two saves, in milliseconds.
pub const SAVE_INTERVAL_MS: u64 = 60000;

/// What a position on the screen hits.
#[derive(Clone, Copy, Debug, PartialEq, Eq, Structural)]
pub enum Target {
    /// The bar at the legend's top edge, which shows and hides it.
    TopBar,
    /// The entry with this index in the poster picker's list.
    PickerEntry(usize),
    /// The poster picker, but none of its entries.
    PickerPanel,
    /// The button that changes the mode.
    ModeButton,
    /// The button that opens and closes the poster picker.
    PostersButton,
    /// The slider for the brush size.
    Slider,
    /// The marker with this index in the tray.
    Marker(usize),
    /// None of the controls.
    Nothing,
}

/// What a click did.
#[derive(Clone, Copy, Debug, PartialEq, Eq, Structural)]
pub enum Click {
    /// It hit none of the controls: it is meant for the board.
    Missed,
    /// It hit a control, and what the control does is done.
    Handled,
    /// It changed the mode: the board file and the drawing layer are to be
    /// written out.
    ModeToggled,
    /// It picked the entry with this index in the poster picker's list: its
    /// image is to be loaded and handed to `begin_placing`.
    PosterPicked(usize),
}

/// Whether a fixed-point coordinate lies between two whole pixels, the ends
/// included.
pub open spec fn between(v: int, low: int, high: int) -> bool {
    low * 65536 <= v <= high * 65536
}

/// The brush size that a slider position stands for: the distance from the
/// slider's left end at column 20, held to the slider's 140 pixels, as a
/// part of a hundred, rounded to the nearest, and at least 1.
pub open spec fn slider_value(x: int) -> int {
    let along = if x < 20 * 65536 {
        0int
    } else if x > 160 * 65536 {
        140int * 65536
    } else {
        x - 20 * 65536
    };
    let value = (along * 100 + 70 * 65536) / (140int * 65536);
    if value < 1 {
        1
    } else if value > 100 {
        100
    } else {
        value
    }
}

/// Whether a fixed-point coordinate lies between two whole pixels, the ends
/// included.
pub fn is_between(v: i128, low: i128, high: i128) -> (r: bool)
    requires
        -0x1_0000_0000_0000_0000_0000 <= low <= 0x1_0000_0000_0000_0000_0000,
        -0x1_0000_0000_0000_0000_0000 <= high <= 0x1_0000_0000_0000_0000_0000,
    ensures
        r == between(v as int, low as int, high as int),
{
    low * 65536 <= v && v <= high * 65536
}

impl DrawingTool {
    /// The brush one pixel larger, up to `BRUSH_MAX`.
    pub fn grow_brush(&mut self)
        ensures
            *final(self) == (DrawingTool {
                brush_size: if old(self).brush_size >= BRUSH_MAX {
                    BRUSH_MAX
                } else {
                    (old(self).brush_size + 1) as u32
                },
                ..*old(self)
            }),
    {
        self.brush_size = if self.brush_size >= BRUSH_MAX {
            BRUSH_MAX
        } else {
            self.brush_size + 1
        };
    }

    /// The brush one pixel smaller, down to `BRUSH_MIN`.
    pub fn shrink_brush(&mut self)
        ensures
            *final(self) == (DrawingTool {
                brush_size: if old(self).brush_size <= BRUSH_MIN + 1 {
                    BRUSH_MIN
                } else {
                    (old(self).brush_size - 1) as u32
                },
                ..*old(self)
            }),
    {
        self.brush_size = if self.brush_size <= BRUSH_MIN + 1 {
            BRUSH_MIN
        } else {
            self.brush_size - 1
        };
    }
}

/// Whether it is time to save by itself: a minute has passed since the
/// last save, no save is under way, and something has changed.
pub fn autosave_due(since_save_ms: u64, is_saving: bool, has_unsaved_changes: bool) -> (due: bool)
    ensures
        due == (since_save_ms >= SAVE_INTERVAL_MS && !is_saving && has_unsaved_changes),
{
    since_save_ms >= SAVE_INTERVAL_MS && !is_saving && has_unsaved_changes
}

impl RickBoard {
    /// The vertical position of a click in the legend's own rows: the
    /// legend is drawn shifted up by its offset.
    pub open spec fn in_legend(&self, y: int) -> int {
        y + self.legend_offset as int * 65536
    }

    pub open spec fn hits_top_bar(&self, at: Point) -> bool {
        between(at.x as int, 10, 290) && if self.legend_collapsed {
            between(at.y as int, 0, 30)
        } else {
            between(self.in_legend(at.y as int), 0, 20)
        }
    }

    /// The corner of the poster picker on a screen of the given size.
    pub open spec fn picker_corner(width: int, height: int) -> (int, int) {
        (crate::ui::centred(width, 200), crate::ui::centred(height, 150))
    }

    pub open spec fn hits_picker(&self, at: Point, width: int, height: int) -> bool {
        let (x, y) = Self::picker_corner(width, height);
        self.show_poster_picker && between(at.x as int, x, x + 400) && between(
            at.y as int,
            y,
            y + 300,
        )
    }

    /// The entry of the poster picker's list at a position in the picker:
    /// the list begins 40 rows below the picker's top, and an entry is 20
    /// rows high.
    pub open spec fn picker_entry(&self, at: Point, height: int) -> Option<int> {
        let top = (Self::picker_corner(0, height).1 + 40) * 65536;
        let row = whole_pixel(at.y - top);
        if row >= 0 && row / 20 < self.available_posters@.len() {
            Some(row / 20)
        } else {
            None
        }
    }

    pub open spec fn hits_mode_button(&self, at: Point) -> bool {
        between(at.x as int, 20, 135) && between(self.in_legend(at.y as int), 170, 190)
    }

    pub open spec fn hits_posters_button(&self, at: Point) -> bool {
        between(at.x as int, 145, 210) && between(self.in_legend(at.y as int), 170, 190)
    }

    pub open spec fn hits_slider(&self, at: Point) -> bool {
        between(at.x as int, 20, 160) && between(self.in_legend(at.y as int), 150, 165)
    }

    /// Whether the marker with index `i` can be picked: on a blackboard the
    /// first (black) cannot, and on a whiteboard the second (white) cannot.
    pub open spec fn marker_offered(&self, i: int) -> bool {
        !(self.board@.mode == BoardMode::Blackboard && i == 0) && !(self.board@.mode
            == BoardMode::Whiteboard && i == 1)
    }

    /// Whether a position lies on the marker with index `i` as the tray
    /// shows it: at half its size, the edges included.
    pub open spec fn on_marker(&self, i: int, at: Point, height: int) -> bool {
        let w = self.markers@[i].width as int * 32768;
        let h = self.markers@[i].height as int * 32768;
        let left = 5 * 65536 + i * (w + 5 * 65536);
        let top = height * 65536 - h + 10 * 65536;
        left <= at.x <= left + w && top <= at.y <= top + h
    }

    /// The first marker from index `i` on that is offered and lies under a
    /// position.
    pub open spec fn marker_from(&self, i: int, at: Point, height: int) -> Option<int>
        decreases self.markers@.len() - i,
    {
        if i < 0 || i >= self.markers@.len() {
            None
        } else if self.marker_offered(i) && self.on_marker(i, at, height) {
            Some(i)
        } else {
            self.marker_from(i + 1, at, height)
        }
    }

    /// What a position on a screen of `width` by `height` hits. The top bar
    /// comes first; a legend that is hidden offers nothing else; then come
    /// the poster picker where it is open, the buttons, the slider, and the
    /// markers in their order.
    pub open spec fn target(&self, at: Point, width: int, height: int) -> Target {
        if self.hits_top_bar(at) {
            Target::TopBar
        } else if self.legend_offset >= LEGEND_HIDDEN {
            Target::Nothing
        } else if self.hits_picker(at, width, height) {
            match self.picker_entry(at, height) {
                Some(i) => Target::PickerEntry(i as usize),
                None => Target::PickerPanel,
            }
        } else if self.hits_mode_button(at) {
            Target::ModeButton
        } else if self.hits_posters_button(at) {
            Target::PostersButton
        } else if self.hits_slider(at) {
            Target::Slider
        } else {
            match self.marker_from(0, at, height) {
                Some(i) => Target::Marker(i as usize),
                None => Target::Nothing,
            }
        }
    }

    /// Finds what a position on the screen hits.
    #[verifier::loop_isolation(false)]
    pub fn target_at(&self, at: Point, width: u32, height: u32) -> (hit: Target)
        ensures
            hit == self.target(at, width as int, height as int),
            match hit {
                Target::PickerEntry(i) => i < self.available_posters@.len(),
                Target::Marker(i) => i < self.markers@.len(),
                _ => true,
            },
    {
        let x: i128 = at.x as i128;
        let y: i128 = at.y as i128;
        let in_legend: i128 = y + (self.legend_offset as i128) * 65536;
        let on_bar: bool = is_between(x, 10, 290) && if self.legend_collapsed {
            is_between(y, 0, 30)
        } else {
            is_between(in_legend, 0, 20)
        };
        if on_bar {
            return Target::TopBar;
        }
        if self.legend_offset >= LEGEND_HIDDEN {
            return Target::Nothing;
        }
        if self.show_poster_picker {
            let left: i128 = if width / 2 >= 200 {
                (width / 2 - 200) as i128
            } else {
                0
            };
            let top: i128 = if height / 2 >= 150 {
                (height / 2 - 150) as i128
            } else {
                0
            };
            if is_between(x, left, left + 400) && is_between(y, top, top + 300) {
                let row: i128 = (y - (top + 40) * 65536) / 65536;
                if row >= 0 {
                    let entry: i128 = row / 20;
                    if entry < self.available_posters.len() as i128 {
                        return Target::PickerEntry(entry as usize);
                    }
                }
                return Target::PickerPanel;
            }
        }
        if is_between(x, 20, 135) && is_between(in_legend, 170, 190) {
            return Target::ModeButton;
        }
        if is_between(x, 145, 210) && is_between(in_legend, 170, 190) {
            return Target::PostersButton;
        }
        if is_between(x, 20, 160) && is_between(in_legend, 150, 165) {
            return Target::Slider;
        }
        let mode: BoardMode = self.board.mode();
        let mut i: usize = 0;
        while i < self.markers.len()
            invariant
                i <= self.markers@.len(),
                x == at.x,
                y == at.y,
                mode == self.board@.mode,
                self.marker_from(0, at, height as int) == self.marker_from(
                    i as int,
                    at,
                    height as int,
                ),
            decreases self.markers@.len() - i,
        {
            let offered: bool = !(mode == BoardMode::Blackboard && i == 0) && !(mode
                == BoardMode::Whiteboard && i == 1);
            let w: i128 = self.markers[i].width as i128 * 32768;
            let h: i128 = self.markers[i].height as i128 * 32768;
            assert(0 <= i * (w + 5 * 65536) <= 0x1_0000_0000_0000_0000 * 0x1_0000_0000_0000)
                by (nonlinear_arith)
                requires
                    0 <= i <= 0x1_0000_0000_0000_0000,
                    0 <= w <= 0x8000_0000_0000,
            ;
            let left: i128 = 5 * 65536 + (i as i128) * (w + 5 * 65536);
            let top: i128 = (height as i128) * 65536 - h + 10 * 65536;
            if offered && left <= x && x <= left + w && top <= y && y <= top + h {
                assert(self.marker_offered(i as int));
                assert(self.on_marker(i as int, at, height as int));
                assert(self.marker_from(i as int, at, height as int) == Some(i as int));
                return Target::Marker(i);
            }
            i = i + 1;
        }
        Target::Nothing
    }

    /// Handles a click at a position on a screen of `render_width` by
    /// `render_height`.
    pub fn handle_ui_click(&mut self, at: Point, render_height: u32, render_width: u32) -> (click:
        Click)
        requires
            old(self).wf(),
        ensures
            final(self).wf(),
            match old(self).target(at, render_width as int, render_height as int) {
                Target::TopBar => {
                    &&& click == Click::Handled
                    &&& *final(self) == (RickBoard {
                        legend_collapsed: !old(self).legend_collapsed,
                        ..*old(self)
                    })
                },
                Target::PickerEntry(i) => click == Click::PosterPicked(i) && *final(self) == *old(
                    self,
                ),
                Target::PickerPanel => click == Click::Handled && *final(self) == *old(self),
                Target::ModeButton => {
                    &&& click == Click::ModeToggled
                    &&& *final(self) == (RickBoard {
                        board: final(self).board,
                        drawing_tool: old(self).pen_after_toggle(),
                        ..*old(self)
                    })
                    &&& final(self).board@ == old(self).board@.after_toggle()
                },
                Target::PostersButton => {
                    &&& click == Click::Handled
                    &&& *final(self) == (RickBoard {
                        show_poster_picker: !old(self).show_poster_picker,
                        ..*old(self)
                    })
                },
                Target::Slider => {
                    &&& click == Click::Handled
                    &&& *final(self) == (RickBoard {
                        drawing_tool: DrawingTool {
                            brush_size: slider_value(at.x as int) as u32,
                            ..old(self).drawing_tool
                        },
                        ..*old(self)
                    })
                },
                Target::Marker(i) => {
                    &&& click == Click::Handled
                    &&& *final(self) == (RickBoard {
                        drawing_tool: DrawingTool {
                            selected_marker_index: i,
                            current_color: old(self).markers@[i as int].color,
                            ..old(self).drawing_tool
                        },
                        ..*old(self)
                    })
                },
                Target::Nothing => click == Click::Missed && *final(self) == *old(self),
            },
    {
        match self.target_at(at, render_width, render_height) {
            Target::TopBar => {
                self.toggle_legend();
                Click::Handled
            },
            Target::PickerEntry(i) => Click::PosterPicked(i),
            Target::PickerPanel => Click::Handled,
            Target::ModeButton => {
                let _ = self.toggle_mode();
                Click::ModeToggled
            },
            Target::PostersButton => {
                self.show_poster_picker = !self.show_poster_picker;
                Click::Handled
            },
            Target::Slider => {
                let x: i128 = at.x as i128;
                let along: i128 = if x < 20 * 65536 {
                    0
                } else if x > 160 * 65536 {
                    140 * 65536
                } else {
                    x - 20 * 65536
                };
                let value: i128 = (along * 100 + 70 * 65536) / (140 * 65536);
                self.drawing_tool.brush_size = if value < 1 {
                    1
                } else if value > 100 {
                    100
                } else {
                    value as u32
                };
                Click::Handled
            },
            Target::Marker(i) => {
                self.drawing_tool.selected_marker_index = i;
                self.drawing_tool.current_color = self.markers[i].color;
                Click::Handled
            },
            Target::Nothing => Click::Missed,
        }
    }

    /// Takes the image that was picked, to be pinned with the next click on
    /// the board, and closes the poster picker.
    pub fn begin_placing(&mut self, image: LoadedImage)
        ensures
            *final(self) == (RickBoard {
                placing_poster: Some(image),
                show_poster_picker: false,
                ..*old(self)
            }),
    {
        self.placing_poster = Some(image);
        self.show_poster_picker = false;
    }

    /// Pins the image that waits to be pinned, if there is one, at the
    /// board position under the screen position `screen`. Returns whether
    /// there was one.
    pub fn place_pending(&mut self, screen: Point) -> (placed: bool)
        requires
            old(self).wf(),
        ensures
            final(self).wf(),
            placed == (old(self).placing_poster is Some),
            !placed ==> *final(self) == *old(self),
            placed ==> {
                &&& *final(self) == (RickBoard {
                    posters: final(self).posters,
                    placing_poster: None,
                    ..*old(self)
                })
                &&& final(self).posters@ == old(self).posters@.push(
                    PinnedPoster {
                        position: old(self).board@.viewport.canvas_point(screen),
                        image_data: old(self).placing_poster.unwrap().image_data,
                        width: old(self).placing_poster.unwrap().width,
                        height: old(self).placing_poster.unwrap().height,
                        name: old(self).placing_poster.unwrap().name,
                        scale: 65536,
                    },
                )
            },
    {
        match self.placing_poster.take() {
            Some(image) => {
                self.pin_poster(image, screen);
                assert(self.posters@ =~= old(self).posters@.push(self.posters@.last()));
                true
            },
            None => false,
        }
    }

    /// Takes hold of the topmost poster at a board position, to move it, or
    /// lets go where there is none.
    pub fn grab_poster(&mut self, at: Point) -> (found: bool)
        ensures
            found == (final(self).selected_poster_index is Some),
            *final(self) == (RickBoard {
                selected_poster_index: final(self).selected_poster_index,
                poster_drag_offset: final(self).poster_drag_offset,
                ..*old(self)
            }),
            match final(self).selected_poster_index {
                Some(i) => {
                    &&& i < old(self).posters@.len()
                    &&& old(self).posters@[i as int].covers(at.x as int, at.y as int)
                    &&& forall|j: int|
                        i < j < old(self).posters@.len() ==> !(#[trigger] old(self).posters@[j]).covers(
                            at.x as int,
                            at.y as int,
                        )
                    &&& final(self).poster_drag_offset == Some(
                        Point {
                            x: saturated(at.x - old(self).posters@[i as int].position.x),
                            y: saturated(at.y - old(self).posters@[i as int].position.y),
                        },
                    )
                },
                None => {
                    &&& final(self).poster_drag_offset is None
                    &&& forall|j: int|
                        0 <= j < old(self).posters@.len() ==> !(#[trigger] old(self).posters@[j]).covers(
                            at.x as int,
                            at.y as int,
                        )
                },
            },
    {
        match self.find_poster_at(at) {
            Some(i) => {
                let corner: Point = self.posters[i].position;
                self.selected_poster_index = Some(i);
                self.poster_drag_offset = Some(
                    Point {
                        x: saturate(at.x as i128 - corner.x as i128),
                        y: saturate(at.y as i128 - corner.y as i128),
                    },
                );
                true
            },
            None => {
                self.selected_poster_index = None;
                self.poster_drag_offset = None;
                false
            },
        }
    }

    /// Lets go of the poster that is held. Returns whether one was held.
    pub fn release_poster(&mut self) -> (held: bool)
        ensures
            held == (old(self).selected_poster_index is Some),
            held ==> *final(self) == (RickBoard {
                selected_poster_index: None,
                poster_drag_offset: None,
                ..*old(self)
            }),
            !held ==> *final(self) == *old(self),
    {
        if self.selected_poster_index.is_some() {
            self.selected_poster_index = None;
            self.poster_drag_offset = None;
            true
        } else {
            false
        }
    }

    /// Moves the poster that is held so that the point by which it is held
    /// comes to lie at the board position `at`. Returns whether a poster is
    /// held.
    pub fn drag_poster(&mut self, at: Point) -> (dragging: bool)
        ensures
            dragging == (old(self).selected_poster_index is Some && old(
                self,
            ).poster_drag_offset is Some),
            *final(self) == (RickBoard { posters: final(self).posters, ..*old(self) }),
            final(self).posters@ == if dragging && old(self).selected_poster_index.unwrap() < old(
                self,
            ).posters@.len() {
                let i = old(self).selected_poster_index.unwrap() as int;
                let by = old(self).poster_drag_offset.unwrap();
                old(self).posters@.update(
                    i,
                    PinnedPoster {
                        position: Point { x: saturated(at.x - by.x), y: saturated(at.y - by.y) },
                        ..old(self).posters@[i]
                    },
                )
            } else {
                old(self).posters@
            },
    {
        match (self.selected_poster_index, self.poster_drag_offset) {
            (Some(i), Some(by)) => {
                if i < self.posters.len() {
                    let mut poster: PinnedPoster = self.posters.remove(i);
                    poster.position = Point {
                        x: saturate(at.x as i128 - by.x as i128),
                        y: saturate(at.y as i128 - by.y as i128),
                    };
                    self.posters.insert(i, poster);
                    assert(self.posters@ =~= old(self).posters@.update(
                        i as int,
                        self.posters@[i as int],
                    ));
                }
                true
            },
            _ => false,
        }
    }

    /// Scales the topmost poster at a board position by one notch of the
    /// wheel, up or down. Returns whether there was one.
    pub fn scale_poster_at(&mut self, at: Point, grow: bool) -> (scaled: bool)
        ensures
            *final(self) == (RickBoard { posters: final(self).posters, ..*old(self) }),
            scaled == exists|j: int|
                0 <= j < old(self).posters@.len() && (#[trigger] old(self).posters@[j]).covers(
                    at.x as int,
                    at.y as int,
                ),
            !scaled ==> final(self).posters@ == old(self).posters@,
            scaled ==> exists|i: int|
                {
                    &&& 0 <= i < old(self).posters@.len()
                    &&& (#[trigger] old(self).posters@[i]).covers(at.x as int, at.y as int)
                    &&& forall|j: int|
                        i < j < old(self).posters@.len() ==> !(#[trigger] old(self).posters@[j]).covers(
                            at.x as int,
                            at.y as int,
                        )
                    &&& final(self).posters@ == old(self).posters@.update(
                        i,
                        PinnedPoster {
                            scale: PinnedPoster::stepped_scale(
                                old(self).posters@[i].scale as int,
                                grow,
                            ) as u32,
                            ..old(self).posters@[i]
                        },
                    )
                },
    {
        match self.find_poster_at(at) {
            Some(i) => {
                let mut poster: PinnedPoster = self.posters.remove(i);
                poster.rescale(grow);
                self.posters.insert(i, poster);
                assert(self.posters@ =~= old(self).posters@.update(
                    i as int,
                    self.posters@[i as int],
                ));
                true
            },
            None => false,
        }
    }

    /// Removes the topmost poster at a board position. Returns whether
    /// there was one.
    pub fn remove_poster_at(&mut self, at: Point) -> (removed: bool)
        ensures
            *final(self) == (RickBoard { posters: final(self).posters, ..*old(self) }),
            removed == exists|j: int|
                0 <= j < old(self).posters@.len() && (#[trigger] old(self).posters@[j]).covers(
                    at.x as int,
                    at.y as int,
                ),
            !removed ==> final(self).posters@ == old(self).posters@,
            removed ==> exists|i: int|
                {
                    &&& 0 <= i < old(self).posters@.len()
                    &&& (#[trigger] old(self).posters@[i]).covers(at.x as int, at.y as int)
                    &&& forall|j: int|
                        i < j < old(self).posters@.len() ==> !(#[trigger] old(self).posters@[j]).covers(
                            at.x as int,
                            at.y as int,
                        )
                    &&& final(self).posters@ == old(self).posters@.remove(i)
                },
    {
        match self.find_poster_at(at) {
            Some(i) => {
                let _ = self.posters.remove(i);
                true
            },
            None => false,
        }
    }
}

} // verus!
