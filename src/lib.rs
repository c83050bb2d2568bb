//! An overlay that shows a menu of key chords: matching chords against menu
//! levels, moving through nested levels, resolving the render scale across
//! outputs, sizing buffers, and driving the layer surface through its life.

pub mod chord;
pub mod config;
pub mod navigator;
pub mod scale;
pub mod surface;
