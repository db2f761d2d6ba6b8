//! The document-rendering core of a small browser: markup text is tokenised,
//! built into a DOM, styled by a style sheet and laid out as a tree of boxes.
//!
//! Every function here is verified against the contract written on it. One
//! item is trusted instead: `push_char` in [`text`], which is marked as such
//! where it is declared.

pub mod browser;
pub mod constants;
pub mod display_item;
pub mod error;
pub mod renderer;
pub mod text;
pub mod ui;
pub mod url;
