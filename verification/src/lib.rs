//! The editing core of a text editor: a rope-backed text buffer with exact
//! character / line / point conversions, a render pipeline that turns buffer
//! and view state into a display list, and the decisions of the input loop.

pub mod buffer;
pub mod display;
pub mod input;
pub mod keybinding;
pub mod rope;
pub mod text;
pub mod window;
