//! Status light.

pub mod animations;
pub mod neopixel;
