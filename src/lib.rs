//! A terminal text viewer's core: token classification, line highlighting,
//! viewport scrolling and the Normal/Insert key state machine.
pub mod app;
pub mod highlight;
pub mod line;
pub mod text;
pub mod viewport;
