//! A layout calculator for a small C-like declaration language.
//!
//! Text is split into tokens (`tok`), parsed by a recursive-descent parser
//! into aggregate layouts (`types`, `prs`) and merged into one namespace of
//! type names, which `render` prints as a report of offsets. `pre` and
//! `web` hold the text transforms that prepare the declarations found in
//! documentation pages.

pub mod error;
pub mod pre;
pub mod render;
pub mod prs;
pub mod text;
pub mod tok;
pub mod types;
pub mod utils;
pub mod web;
