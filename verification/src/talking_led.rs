use crate::ledstrip::LEDStrip;
use crate::pixel::{all_brightness, all_cleared, all_set, Pixel};
use vstd::prelude::*;

verus! {

/// Diagnostic stand-in realization of [`LEDStrip`]: it performs no hardware
/// I/O and drives an empty buffer, so every operation is a no-op and `show`
/// never errors. It is substitutable for the real encoder wherever the
/// abstraction is consumed.
pub struct TalkingLED {}

impl TalkingLED {
    /// Creates a stand-in strip with an empty buffer.
    pub fn new() -> (led: TalkingLED)
        ensures
            led.pixels_view() == Seq::<Pixel>::empty(),
    {
        Self {}
    }
}

impl LEDStrip for TalkingLED {
    open spec fn pixels_view(&self) -> Seq<Pixel> {
        Seq::empty()
    }

    fn set_pixel(&mut self, x: usize, r: u8, g: u8, b: u8, brightness: u8) {
    }

    fn set_all(&mut self, r: u8, g: u8, b: u8, brightness: u8) {
        proof {
            assert(self.pixels_view() =~= all_set(
                old(self).pixels_view(),
                r,
                g,
                b,
                brightness,
            ));
        }
    }

    fn set_brightness(&mut self, brightness: u8) {
        proof {
            assert(self.pixels_view() =~= all_brightness(old(self).pixels_view(), brightness));
        }
    }

    fn clear(&mut self) {
        proof {
            assert(self.pixels_view() =~= all_cleared(old(self).pixels_view()));
        }
    }

    /// The stand-in never errors.
    fn show(&mut self) -> (r: Result<(), String>)
        ensures
            r is Ok,
    {
        Ok(())
    }
}

} // verus!
