use crate::ledstrip::LEDStrip;
use crate::pixel::{
    all_brightness, all_cleared, all_set, buffer_valid, pixel, pixel_valid, zeroed, Pixel,
    DEFAULT_BRIGHTNESS, MAX_BRIGHTNESS,
};
use vstd::prelude::*;

verus! {

/// Logic level driven onto a GPIO line.
#[derive(Clone, Copy, PartialEq, Eq, Structural, Debug)]
pub enum Level {
    Low,
    High,
}

/// One pin-level write of the APA102 transmission: which line changes and
/// the level it is driven to. A hardware embedding replays these in order,
/// inserting its configured inter-edge delay after each clock edge.
#[derive(Clone, Copy, PartialEq, Eq, Structural, Debug)]
pub enum PinWrite {
    /// Drive the data line.
    Dat(Level),
    /// Drive the clock line.
    Clk(Level),
    /// Drive the chip-select line.
    ChipSelect(Level),
}

/// Number of clock pulses of the start-of-frame: the >=32 zero bits the
/// APA102 chain requires before pixel data.
pub const SOF_CLOCK_PULSES: usize = 32;

/// Number of clock pulses of the end-of-frame. The chain's requirement
/// scales with the pixel count; this driver keeps the fixed count the
/// hardware it targets is known to work with.
pub const EOF_CLOCK_PULSES: usize = 36;

/// Bit `n` of `byte`, with bit 0 the least significant.
pub open spec fn bit_of(byte: u8, n: u8) -> bool {
    byte & (1u8 << n) != 0
}

/// The level the data line takes for one transmitted bit.
pub open spec fn level_of(bit: bool) -> Level {
    if bit {
        Level::High
    } else {
        Level::Low
    }
}

/// One clock pulse: the clock line driven high, then low.
pub open spec fn clock_pulse() -> Seq<PinWrite> {
    seq![PinWrite::Clk(Level::High), PinWrite::Clk(Level::Low)]
}

/// `n` clock pulses in a row.
pub open spec fn clock_pulses(n: nat) -> Seq<PinWrite>
    decreases n,
{
    if n == 0 {
        Seq::empty()
    } else {
        clock_pulses((n - 1) as nat) + clock_pulse()
    }
}

/// The writes for one transmitted bit: data driven to the bit's level, then
/// one clock pulse.
pub open spec fn bit_writes(bit: bool) -> Seq<PinWrite> {
    seq![PinWrite::Dat(level_of(bit))] + clock_pulse()
}

/// The writes for the first `k` bits of `byte`, most significant bit first:
/// the `k`-th bit written (counting from 1) is bit `8 - k`.
pub open spec fn byte_writes_prefix(byte: u8, k: nat) -> Seq<PinWrite>
    decreases k,
{
    if k == 0 {
        Seq::empty()
    } else {
        byte_writes_prefix(byte, (k - 1) as nat) + bit_writes(bit_of(byte, (8 - k) as u8))
    }
}

/// All writes for one byte: its 8 bits, most significant first.
pub open spec fn byte_writes(byte: u8) -> Seq<PinWrite> {
    byte_writes_prefix(byte, 8)
}

/// The control/brightness byte that leads a pixel's payload: top 3 bits
/// fixed at 1 to mark a brightness frame, low 5 bits the pixel's brightness.
pub open spec fn control_byte(p: Pixel) -> u8 {
    0b1110_0000u8 | p.brightness
}

/// The payload of one pixel: control/brightness byte, then blue, green and
/// red — the wire order is B, G, R, not RGB.
pub open spec fn pixel_writes(p: Pixel) -> Seq<PinWrite> {
    byte_writes(control_byte(p)) + byte_writes(p.blue) + byte_writes(p.green) + byte_writes(p.red)
}

/// The payload of the first `k` pixels of the buffer, in buffer order.
pub open spec fn payload_writes_prefix(s: Seq<Pixel>, k: nat) -> Seq<PinWrite>
    decreases k,
{
    if k == 0 {
        Seq::empty()
    } else {
        payload_writes_prefix(s, (k - 1) as nat) + pixel_writes(s[k - 1])
    }
}

/// The payload of the whole buffer.
pub open spec fn payload_writes(s: Seq<Pixel>) -> Seq<PinWrite> {
    payload_writes_prefix(s, s.len())
}

/// Start-of-frame: data low, then the fixed run of clock pulses.
pub open spec fn sof_writes() -> Seq<PinWrite> {
    seq![PinWrite::Dat(Level::Low)] + clock_pulses(SOF_CLOCK_PULSES as nat)
}

/// End-of-frame: data low, then the fixed run of clock pulses.
pub open spec fn eof_writes() -> Seq<PinWrite> {
    seq![PinWrite::Dat(Level::Low)] + clock_pulses(EOF_CLOCK_PULSES as nat)
}

/// The complete transmission of one buffer: chip-select asserted low,
/// start-of-frame, every pixel's payload in order, end-of-frame, and
/// chip-select deasserted high.
pub open spec fn frame_writes(s: Seq<Pixel>) -> Seq<PinWrite> {
    seq![PinWrite::ChipSelect(Level::Low)] + sof_writes() + payload_writes(s) + eof_writes()
        + seq![PinWrite::ChipSelect(Level::High)]
}

/// APA102 driver core: the logical pixel buffer together with the protocol
/// encoder that turns it into the pin-write sequence an APA102 chain
/// requires.
///
/// The core itself touches no hardware: committing a buffer is realized by
/// [`APA102::encode_frame`], whose output an embedding program replays onto
/// the physical data, clock and chip-select lines. A strip whose device
/// lines are absent (test or simulation use) can therefore drive the buffer
/// exactly as a hardware-backed one does.
#[derive(Debug)]
pub struct APA102 {
    /// Number of pixels, fixed at construction time.
    pixel_count: usize,

    /// The pixel buffer committed by `show`.
    pixels: Vec<Pixel>,

    /// Configured default brightness level of the strip.
    brightness: u8,

    /// Whether the one-time lazy device setup has completed.
    setup_complete: bool,
}

impl APA102 {
    /// The buffer length recorded at construction; never changes.
    pub closed spec fn spec_len(&self) -> usize {
        self.pixel_count
    }

    /// Whether the lazy one-time setup has completed.
    pub closed spec fn setup_done(&self) -> bool {
        self.setup_complete
    }

    /// Configured default brightness level of the strip.
    pub closed spec fn brightness_level(&self) -> u8 {
        self.brightness
    }

    /// Well-formedness: the buffer has the length fixed at construction and
    /// every stored brightness fits in 5 bits.
    pub closed spec fn wf(&self) -> bool {
        &&& self.pixel_count == self.pixels@.len()
        &&& buffer_valid(self.pixels@)
    }

    /// Creates a strip of `pixel_count` pixels, all zeroed, with the lazy
    /// device setup still pending.
    pub fn new(pixel_count: usize) -> (strip: APA102)
        ensures
            strip.pixels_view() == zeroed(pixel_count as nat),
            strip.pixels_view().len() == pixel_count,
            !strip.setup_done(),
            strip.brightness_level() == DEFAULT_BRIGHTNESS,
            strip.wf(),
    {
        let mut pixels: Vec<Pixel> = Vec::new();
        let mut i: usize = 0;
        while i < pixel_count
            invariant
                i <= pixel_count,
                pixels@.len() == i,
                forall|j: int| 0 <= j < i ==> pixels@[j] == pixel(0, 0, 0, 0),
            decreases pixel_count - i,
        {
            pixels.push(Pixel { red: 0, green: 0, blue: 0, brightness: 0 });
            i = i + 1;
        }
        let strip = APA102 {
            pixel_count: pixel_count,
            pixels: pixels,
            brightness: DEFAULT_BRIGHTNESS,
            setup_complete: false,
        };
        proof {
            assert(strip.pixels_view() =~= zeroed(pixel_count as nat));
        }
        strip
    }

    /// Initializes the driver. The core has no device lines to acquire, so
    /// setup only marks itself complete and cannot fail; a hardware-backed
    /// embedding acquires its lines before relying on this flag.
    pub fn setup(&mut self) -> (r: Result<(), String>)
        ensures
            r is Ok,
            final(self).setup_done(),
            final(self).pixels_view() == old(self).pixels_view(),
            final(self).brightness_level() == old(self).brightness_level(),
            final(self).spec_len() == old(self).spec_len(),
            final(self).wf() == old(self).wf(),
    {
        if !self.setup_complete {
            self.setup_complete = true;
        }
        Ok(())
    }

    /// Blanks the strip on shutdown: zeroes the color channels and commits
    /// the blanked buffer.
    pub fn exit(&mut self) -> (r: Result<(), String>)
        ensures
            r is Ok,
            final(self).pixels_view() == all_cleared(old(self).pixels_view()),
            final(self).setup_done(),
            old(self).wf() ==> final(self).wf(),
    {
        self.clear();
        self.show().unwrap();

        Ok(())
    }

    /// Number of pixels in the buffer.
    pub fn len(&self) -> (n: usize)
        ensures
            n == self.pixels_view().len(),
    {
        self.pixels.len()
    }

    /// Whether the lazy one-time setup has completed.
    pub fn is_setup(&self) -> (b: bool)
        ensures
            b == self.setup_done(),
    {
        self.setup_complete
    }

    /// The pixel at index `x`.
    pub fn pixel_at(&self, x: usize) -> (p: Pixel)
        requires
            x < self.pixels_view().len(),
        ensures
            p == self.pixels_view()[x as int],
    {
        self.pixels[x]
    }

    /// Bit `n` of `byte`, bits numbered from 0 (least significant) to 7
    /// (most significant).
    pub fn get_bit_at(byte: u8, n: u8) -> (bit: bool)
        requires
            n < 8,
        ensures
            bit == bit_of(byte, n),
    {
        byte & (1 << n) != 0
    }

    /// Appends one clock pulse: clock high, then low.
    fn push_clock_pulse(frame: &mut Vec<PinWrite>)
        ensures
            final(frame)@ == old(frame)@ + clock_pulse(),
    {
        frame.push(PinWrite::Clk(Level::High));
        frame.push(PinWrite::Clk(Level::Low));
        proof {
            assert(frame@ =~= old(frame)@ + clock_pulse());
        }
    }

    /// Appends `n` clock pulses.
    fn push_clock_pulses(frame: &mut Vec<PinWrite>, n: usize)
        ensures
            final(frame)@ == old(frame)@ + clock_pulses(n as nat),
    {
        let mut i: usize = 0;
        proof {
            assert(frame@ =~= frame@ + clock_pulses(0));
        }
        while i < n
            invariant
                i <= n,
                frame@ == old(frame)@ + clock_pulses(i as nat),
            decreases n - i,
        {
            Self::push_clock_pulse(frame);
            i = i + 1;
        }
    }

    /// Appends the writes of a single byte, most significant bit first: for
    /// each bit, data driven to the bit's level, then one clock pulse.
    fn write_byte(frame: &mut Vec<PinWrite>, byte: u8)
        ensures
            final(frame)@ == old(frame)@ + byte_writes(byte),
    {
        let mut i: u8 = 0;
        while i < 8
            invariant
                i <= 8,
                frame@ == old(frame)@ + byte_writes_prefix(byte, i as nat),
            decreases 8 - i,
        {
            if Self::get_bit_at(byte, 7 - i) {
                frame.push(PinWrite::Dat(Level::High));
            } else {
                frame.push(PinWrite::Dat(Level::Low));
            }
            Self::push_clock_pulse(frame);
            i = i + 1;
            proof {
                assert(frame@ =~= old(frame)@ + byte_writes_prefix(byte, i as nat));
            }
        }
    }

    /// Appends the start-of-frame: data low, then the fixed clock run.
    fn sof(frame: &mut Vec<PinWrite>)
        ensures
            final(frame)@ == old(frame)@ + sof_writes(),
    {
        frame.push(PinWrite::Dat(Level::Low));
        Self::push_clock_pulses(frame, SOF_CLOCK_PULSES);
        proof {
            assert(frame@ =~= old(frame)@ + sof_writes());
        }
    }

    /// Appends the end-of-frame: data low, then the fixed clock run.
    fn eof(frame: &mut Vec<PinWrite>)
        ensures
            final(frame)@ == old(frame)@ + eof_writes(),
    {
        frame.push(PinWrite::Dat(Level::Low));
        Self::push_clock_pulses(frame, EOF_CLOCK_PULSES);
        proof {
            assert(frame@ =~= old(frame)@ + eof_writes());
        }
    }

    /// Encodes the complete transmission of the current buffer: the exact
    /// in-order sequence of pin writes a hardware embedding must replay to
    /// commit the buffer to an APA102 chain.
    pub fn encode_frame(&self) -> (frame: Vec<PinWrite>)
        ensures
            frame@ == frame_writes(self.pixels_view()),
    {
        let mut frame: Vec<PinWrite> = Vec::new();
        frame.push(PinWrite::ChipSelect(Level::Low));
        Self::sof(&mut frame);
        let ghost head = frame@;

        let n = self.pixels.len();
        let mut i: usize = 0;
        proof {
            assert(frame@ =~= head + payload_writes_prefix(self.pixels@, 0));
        }
        while i < n
            invariant
                i <= n,
                n == self.pixels@.len(),
                head == seq![PinWrite::ChipSelect(Level::Low)] + sof_writes(),
                frame@ == head + payload_writes_prefix(self.pixels@, i as nat),
            decreases n - i,
        {
            let p = self.pixels[i];
            Self::write_byte(&mut frame, 0b1110_0000 | p.brightness);
            Self::write_byte(&mut frame, p.blue);
            Self::write_byte(&mut frame, p.green);
            Self::write_byte(&mut frame, p.red);
            i = i + 1;
            proof {
                assert(frame@ =~= head + payload_writes_prefix(self.pixels@, i as nat));
            }
        }

        Self::eof(&mut frame);
        frame.push(PinWrite::ChipSelect(Level::High));
        proof {
            assert(frame@ =~= frame_writes(self.pixels_view()));
        }
        frame
    }
}

impl LEDStrip for APA102 {
    closed spec fn pixels_view(&self) -> Seq<Pixel> {
        self.pixels@
    }

    fn set_pixel(&mut self, x: usize, r: u8, g: u8, b: u8, brightness: u8)
        ensures
            final(self).setup_done() == old(self).setup_done(),
            final(self).brightness_level() == old(self).brightness_level(),
            final(self).spec_len() == old(self).spec_len(),
            old(self).wf() ==> final(self).wf(),
    {
        self.pixels.set(x, Pixel { red: r, green: g, blue: b, brightness: brightness });
        proof {
            if old(self).wf() {
                assert forall|j: int| 0 <= j < self.pixels@.len() implies pixel_valid(
                    #[trigger] self.pixels@[j],
                ) by {
                    if j != x as int {
                        assert(self.pixels@[j] == old(self).pixels@[j]);
                    }
                }
            }
        }
    }

    fn set_all(&mut self, r: u8, g: u8, b: u8, brightness: u8)
        ensures
            final(self).setup_done() == old(self).setup_done(),
            final(self).brightness_level() == old(self).brightness_level(),
            final(self).spec_len() == old(self).spec_len(),
            old(self).wf() ==> final(self).wf(),
    {
        let ghost orig = self.pixels@;
        let n = self.pixels.len();
        let mut i: usize = 0;
        while i < n
            invariant
                i <= n,
                n == self.pixels@.len(),
                orig.len() == n,
                brightness <= MAX_BRIGHTNESS,
                self.setup_complete == old(self).setup_complete,
                self.brightness == old(self).brightness,
                self.pixel_count == old(self).pixel_count,
                forall|j: int| 0 <= j < i ==> self.pixels@[j] == pixel(r, g, b, brightness),
                forall|j: int| i <= j < n ==> self.pixels@[j] == orig[j],
            decreases n - i,
        {
            self.set_pixel(i, r, g, b, brightness);
            i = i + 1;
        }
        proof {
            assert(self.pixels@ =~= all_set(orig, r, g, b, brightness));
            if old(self).wf() {
                assert(buffer_valid(self.pixels@));
            }
        }
    }

    fn set_brightness(&mut self, brightness: u8)
        ensures
            final(self).setup_done() == old(self).setup_done(),
            final(self).brightness_level() == old(self).brightness_level(),
            final(self).spec_len() == old(self).spec_len(),
            old(self).wf() ==> final(self).wf(),
    {
        let ghost orig = self.pixels@;
        let n = self.pixels.len();
        let mut i: usize = 0;
        while i < n
            invariant
                i <= n,
                n == self.pixels@.len(),
                orig.len() == n,
                brightness <= MAX_BRIGHTNESS,
                self.setup_complete == old(self).setup_complete,
                self.brightness == old(self).brightness,
                self.pixel_count == old(self).pixel_count,
                forall|j: int| 0 <= j < i ==> self.pixels@[j] == pixel(
                    orig[j].red,
                    orig[j].green,
                    orig[j].blue,
                    brightness,
                ),
                forall|j: int| i <= j < n ==> self.pixels@[j] == orig[j],
            decreases n - i,
        {
            let p = self.pixels[i];
            self.pixels.set(i, Pixel { red: p.red, green: p.green, blue: p.blue, brightness: brightness });
            i = i + 1;
        }
        proof {
            assert(self.pixels@ =~= all_brightness(orig, brightness));
            if old(self).wf() {
                assert(buffer_valid(self.pixels@));
            }
        }
    }

    fn clear(&mut self)
        ensures
            final(self).setup_done() == old(self).setup_done(),
            final(self).brightness_level() == old(self).brightness_level(),
            final(self).spec_len() == old(self).spec_len(),
            old(self).wf() ==> final(self).wf(),
    {
        let ghost orig = self.pixels@;
        let n = self.pixels.len();
        let mut i: usize = 0;
        while i < n
            invariant
                i <= n,
                n == self.pixels@.len(),
                orig.len() == n,
                self.setup_complete == old(self).setup_complete,
                self.brightness == old(self).brightness,
                self.pixel_count == old(self).pixel_count,
                forall|j: int| 0 <= j < i ==> self.pixels@[j] == pixel(0, 0, 0, orig[j].brightness),
                forall|j: int| i <= j < n ==> self.pixels@[j] == orig[j],
            decreases n - i,
        {
            let p = self.pixels[i];
            self.pixels.set(i, Pixel { red: 0, green: 0, blue: 0, brightness: p.brightness });
            i = i + 1;
        }
        proof {
            assert(self.pixels@ =~= all_cleared(orig));
            if old(self).wf() {
                assert(buffer_valid(self.pixels@));
            }
        }
    }

    /// Commits the buffer: performs the lazy one-time setup if still
    /// pending. The core realization cannot fail; the encoded frame a
    /// hardware embedding must replay is the one `encode_frame` returns.
    fn show(&mut self) -> (r: Result<(), String>)
        ensures
            r is Ok,
            final(self).setup_done(),
            final(self).brightness_level() == old(self).brightness_level(),
            final(self).spec_len() == old(self).spec_len(),
            old(self).wf() ==> final(self).wf(),
    {
        if !self.setup_complete {
            let _ = self.setup();
        }

        Ok(())
    }
}

} // verus!
