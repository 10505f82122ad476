//! Driver core for an APA102 addressable RGB LED strip.
//!
//! The library owns the logical pixel buffer and the protocol encoder: it
//! turns the buffer into the exact sequence of data/clock/chip-select pin
//! writes an APA102 chain requires. Performing those writes on real GPIO
//! lines is device I/O and is left to the embedding program.

pub mod apa102;
pub mod ledstrip;
pub mod pixel;
pub mod talking_led;

pub use apa102::{APA102, Level, PinWrite};
pub use ledstrip::LEDStrip;
pub use pixel::Pixel;
pub use talking_led::TalkingLED;
