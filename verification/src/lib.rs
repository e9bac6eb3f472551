//! Style composition and figure watching for a vector-graphics editor.
//!
//! A style is put together key by key while a modifier is held, and is written
//! out as a small document the editor takes from the clipboard. Saved figures
//! are noticed through one ordered stream of watch events and turned into
//! conversion requests.

pub mod figures;
pub mod session;
pub mod shortcuts;
pub mod style;
pub mod text;
pub mod watch;
