//! A speed-reading trainer on top of a small immediate-mode 2D framework:
//! the viewport and its projection, text layout, a glyph cache, per-frame
//! canvas recording, tokenizing of loaded text, and the reader's state machine.
pub mod canvas;
pub mod glyph_cache;
pub mod layout;
pub mod reader;
pub mod scene;
pub mod tokens;
pub mod viewport;
