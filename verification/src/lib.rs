//! A hex viewer's core: bytes are laid out as paired rows of hexadecimal and
//! ASCII text, and the rows are scrolled by rotating both panes in lock-step.

pub mod text;
pub mod formatter;
pub mod store;
pub mod viewer;
