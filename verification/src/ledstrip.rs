use crate::pixel::{all_brightness, all_cleared, all_set, pixel, Pixel, MAX_BRIGHTNESS};
use vstd::prelude::*;

verus! {

/// The capability set any LED-output device must support, independent of the
/// physical transport.
///
/// `pixels_view` is the logical pixel buffer a realization drives; every
/// operation's contract is stated against it, so any two realizations with
/// the same buffer are substitutable for one another. Brightness arguments
/// are pre-scaled 5-bit levels in `0..=MAX_BRIGHTNESS`; passing a larger
/// level, or an out-of-bounds index, is a contract violation, not a
/// recoverable error.
pub trait LEDStrip {
    /// The logical pixel buffer this realization drives.
    spec fn pixels_view(&self) -> Seq<Pixel>;

    /// Overwrites the four fields of the pixel at index `x`, leaving every
    /// other pixel untouched.
    fn set_pixel(&mut self, x: usize, r: u8, g: u8, b: u8, brightness: u8)
        requires
            x < old(self).pixels_view().len(),
            brightness <= MAX_BRIGHTNESS,
        ensures
            final(self).pixels_view() == old(self).pixels_view().update(
                x as int,
                pixel(r, g, b, brightness),
            ),
    ;

    /// Overwrites every pixel in the buffer with the same four fields.
    fn set_all(&mut self, r: u8, g: u8, b: u8, brightness: u8)
        requires
            brightness <= MAX_BRIGHTNESS,
        ensures
            final(self).pixels_view() == all_set(old(self).pixels_view(), r, g, b, brightness),
    ;

    /// Replaces the brightness of every pixel, leaving the color channels
    /// untouched.
    fn set_brightness(&mut self, brightness: u8)
        requires
            brightness <= MAX_BRIGHTNESS,
        ensures
            final(self).pixels_view() == all_brightness(old(self).pixels_view(), brightness),
    ;

    /// Zeroes the color channels of every pixel; brightness values present
    /// before the call are unchanged after it.
    fn clear(&mut self)
        ensures
            final(self).pixels_view() == all_cleared(old(self).pixels_view()),
    ;

    /// Commits the current buffer to the device. The buffer itself is never
    /// changed by a commit, whether it succeeds or fails.
    fn show(&mut self) -> (r: Result<(), String>)
        ensures
            final(self).pixels_view() == old(self).pixels_view(),
    ;
}

} // verus!
