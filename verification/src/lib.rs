//! Layout of layered raster templates.
//!
//! A template is a canvas with groups of named layers. Each group carries one
//! layout policy; this library turns the policy and the measured size of every
//! member layer into absolute pixel positions, and resolves requests of the
//! form "place me where that other layer is".
//!
//! Each public function states what it returns over the mathematical model
//! defined beside it, and is proved to do so. Two crates are called from
//! here, `image` for the canvas and `csscolorparser` for colours; what is
//! taken on trust about them stands in the modules `canvas` and `validate`,
//! on the functions that make the calls.

pub mod canvas;
pub mod extent;
pub mod group;
pub mod layout;
pub mod laws;
pub mod model;
pub mod resolver;
pub mod source;
pub mod spacing;
pub mod text;
pub mod validate;
