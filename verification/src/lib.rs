//! Renders a live sequence of raw pixel frames into a terminal as cursor
//! movements, colour escapes and glyphs, writing as few bytes per frame as
//! the escape grammar allows while staying visually correct under
//! frame-rate pressure.
//!
//! The pieces, leaf first: [`escape`] specifies every escape sequence as an
//! exact byte sequence; [`color`] holds the four colour encoding
//! strategies; [`buffer`] finds the changed runs between two cell grids and
//! clusters equal styles; [`render`] owns the double-buffered cell
//! renderers (glyph/colour and block-image); [`producer`] decides delivery,
//! dropping and counting for the frame source's thread; [`session`] applies
//! producer messages to the renderer; [`watcher`] detects terminal resizes.
//!
//! Every function here carries and meets a contract; the unverifiable edges
//! (terminal I/O, threads, signals, the media source) live with the binary
//! that embeds the library.

pub mod buffer;
pub mod color;
pub mod escape;
pub mod producer;
pub mod render;
pub mod session;
pub mod watcher;
