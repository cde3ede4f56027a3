//! Pictures and videos as coloured text in a terminal.
//!
//! The library holds everything that is decided or computed on the way from
//! a media file to the terminal; it reads no file, starts no process and
//! writes nothing itself.
//!
//! - [`pixel`], [`ansi`] and [`render`] turn a grid of pixels into terminal
//!   cells and those into bytes, one pixel or two to a cell.
//! - [`graphics`] decodes a picture, scales it to the canvas and draws it,
//!   and steps a video session.
//! - [`timeline`] reads the frame count and frame rate of a video and says
//!   when each frame begins and how long it may take.
//! - [`playback`] is the session as a state machine: it is told what
//!   happened and answers with what to do next.
//! - [`source`] names the files that frames are kept in, says what it takes
//!   to get a frame, and sizes a picture for the canvas.
//! - [`config`] settles the canvas height, tells videos from pictures and
//!   lists the failures that end a run, with their exit statuses.
//! - [`codec`] borders on the `image` crate, [`text`] reads and writes
//!   decimal numbers, and [`span`] is a length of time.

pub mod ansi;
pub mod codec;
pub mod config;
pub mod graphics;
pub mod pixel;
pub mod playback;
pub mod render;
pub mod source;
pub mod span;
pub mod text;
pub mod timeline;
