//! Palette-cycling engine for indexed-color pixel-art scenes.
//!
//! A scene holds a fixed grid of palette indices, a set of named palettes
//! (each with up to 256 base colors and a list of cycle rules), and a
//! timeline mapping times of day to palette names. Per frame, the timeline
//! resolver picks the active palette and the cycle engine rotates slices of
//! its color table according to an animation clock, leaving the pixel
//! indices untouched.

pub mod cycle;
pub mod frame;
pub mod model;
pub mod timeline;
