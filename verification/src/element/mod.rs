//! The state and input handling of interactive elements.

pub mod dropdown;
pub mod list;
pub mod text_input;
