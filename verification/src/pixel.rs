use vstd::prelude::*;

verus! {

/// Largest brightness level that fits the 5-bit brightness field of an
/// APA102 LED frame.
pub const MAX_BRIGHTNESS: u8 = 31;

/// Brightness level a strip is configured with before any explicit
/// `set_brightness` call.
pub const DEFAULT_BRIGHTNESS: u8 = 7;

/// One pixel record: three 8-bit color channels and a 5-bit brightness
/// level, stored pre-scaled into the range `0..=MAX_BRIGHTNESS`.
#[derive(Clone, Copy, PartialEq, Eq, Structural, Debug)]
pub struct Pixel {
    pub red: u8,
    pub green: u8,
    pub blue: u8,
    pub brightness: u8,
}

/// Builds a pixel record from its four fields.
pub open spec fn pixel(r: u8, g: u8, b: u8, brightness: u8) -> Pixel {
    Pixel { red: r, green: g, blue: b, brightness: brightness }
}

/// A pixel is valid when its brightness fits in 5 bits.
pub open spec fn pixel_valid(p: Pixel) -> bool {
    p.brightness <= MAX_BRIGHTNESS
}

/// Every pixel in the buffer is valid.
pub open spec fn buffer_valid(s: Seq<Pixel>) -> bool {
    forall|i: int| 0 <= i < s.len() ==> pixel_valid(#[trigger] s[i])
}

/// A buffer of `n` pixels with every channel and brightness zeroed: the
/// state of a freshly constructed strip.
pub open spec fn zeroed(n: nat) -> Seq<Pixel> {
    Seq::new(n, |i: int| pixel(0, 0, 0, 0))
}

/// The buffer after every pixel has been overwritten with the same four
/// fields.
pub open spec fn all_set(s: Seq<Pixel>, r: u8, g: u8, b: u8, brightness: u8) -> Seq<Pixel> {
    Seq::new(s.len(), |i: int| pixel(r, g, b, brightness))
}

/// The buffer after `set_pixel(i, r, g, b, brightness)` has been applied,
/// in order, at every index `i` in `0..n`.
pub open spec fn set_pixels_up_to(s: Seq<Pixel>, n: nat, r: u8, g: u8, b: u8, brightness: u8) -> Seq<Pixel>
    decreases n,
{
    if n == 0 {
        s
    } else {
        set_pixels_up_to(s, (n - 1) as nat, r, g, b, brightness).update(
            n - 1,
            pixel(r, g, b, brightness),
        )
    }
}

proof fn lemma_set_pixels_up_to(s: Seq<Pixel>, n: nat, r: u8, g: u8, b: u8, brightness: u8)
    requires
        n <= s.len(),
    ensures
        set_pixels_up_to(s, n, r, g, b, brightness).len() == s.len(),
        forall|j: int|
            0 <= j < n ==> set_pixels_up_to(s, n, r, g, b, brightness)[j] == pixel(
                r,
                g,
                b,
                brightness,
            ),
        forall|j: int| n <= j < s.len() ==> set_pixels_up_to(s, n, r, g, b, brightness)[j] == s[j],
    decreases n,
{
    if n > 0 {
        lemma_set_pixels_up_to(s, (n - 1) as nat, r, g, b, brightness);
    }
}

/// `set_all` is equivalent to calling `set_pixel` with the same arguments
/// on every index `0..N` in order: the fold of per-index updates over the
/// whole buffer is exactly the buffer `set_all` ensures.
pub proof fn lemma_set_all_is_set_pixel_each(s: Seq<Pixel>, r: u8, g: u8, b: u8, brightness: u8)
    ensures
        set_pixels_up_to(s, s.len(), r, g, b, brightness) == all_set(s, r, g, b, brightness),
{
    lemma_set_pixels_up_to(s, s.len(), r, g, b, brightness);
    assert(set_pixels_up_to(s, s.len(), r, g, b, brightness) =~= all_set(s, r, g, b, brightness));
}

/// The buffer after every pixel's brightness has been replaced, color
/// channels untouched.
pub open spec fn all_brightness(s: Seq<Pixel>, brightness: u8) -> Seq<Pixel> {
    Seq::new(s.len(), |i: int| pixel(s[i].red, s[i].green, s[i].blue, brightness))
}

/// The buffer after every color channel has been zeroed, brightness
/// untouched.
pub open spec fn all_cleared(s: Seq<Pixel>) -> Seq<Pixel> {
    Seq::new(s.len(), |i: int| pixel(0, 0, 0, s[i].brightness))
}

} // verus!
