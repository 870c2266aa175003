//! Colour animations in steps.

pub mod animation;
