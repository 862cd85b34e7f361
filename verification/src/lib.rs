//! A very large, persistently stored drawing board on a cylinder.
//!
//! The board wraps around horizontally and is hard-bounded vertically. It
//! carries an opaque background, a transparent drawing layer with a bounded
//! undo history, pinned image posters, and a pan/zoom viewport that is rendered
//! into a screen-sized frame.
//!
//! All coordinates and ratios are integers. Positions on the board and on the
//! screen, zoom and poster scale are 16.16 fixed-point numbers: the value
//! `65536` stands for one pixel, or for the ratio one.

pub mod assets;
pub mod board;
pub mod brush;
pub mod color;
pub mod compose;
pub mod controls;
pub mod format;
pub mod grid;
pub mod paint;
pub mod parallel;
pub mod poster;
pub mod render;
pub mod session;
pub mod text;
pub mod ui;
pub mod viewport;
