//! Tiling of same-aspect-ratio images into one composite image that covers a
//! target rectangle (a monitor), with the grid search proved against an exact
//! arithmetic model.
pub mod arith;
pub mod layout;
pub mod image_ops;
pub mod compose;
pub mod splashes;
pub mod champs;
pub mod datadragon;
