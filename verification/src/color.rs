//! Colour encoding for the panel.
//!
//! The panel is driven in 16 bits per pixel, with blue in the high bits and
//! every bit inverted on the wire.
use vstd::prelude::*;

verus! {

/// Largest value of the red channel of a 5-6-5 colour.
pub const MAX_R: u8 = 31;
/// Largest value of the green channel of a 5-6-5 colour.
pub const MAX_G: u8 = 63;
/// Largest value of the blue channel of a 5-6-5 colour.
pub const MAX_B: u8 = 31;

/// The 16-bit word `(b << 11) | (g << 5) | r`, computed in 16 bits: bits
/// shifted past bit 15 are lost and `r` is not masked.
pub open spec fn bgr_word(r: u16, g: u16, b: u16) -> u16 {
    (b << 11u16) | (g << 5u16) | r
}

/// Low byte of a word, inverted.
pub open spec fn inverted_low(raw: u16) -> u8 {
    !(raw as u8)
}

/// High byte of a word, inverted.
pub open spec fn inverted_high(raw: u16) -> u8 {
    !((raw >> 8u16) as u8)
}

/// A colour as the panel receives it: two bytes, low byte first, both
/// inverted.
pub struct SmallRgb(pub u8, pub u8);

impl SmallRgb {
    /// Encodes the three channels. Channels are not masked: a channel wider
    /// than its field spills into the next one, as the shifts and the `|`
    /// make it.
    pub fn from_rgb(r: u16, g: u16, b: u16) -> (res: Self)
        ensures
            res.0 == inverted_low(bgr_word(r, g, b)),
            res.1 == inverted_high(bgr_word(r, g, b)),
    {
        let raw: u16 = (b << 11u16) | (g << 5u16) | r;
        let lo: u8 = (raw & 0xff) as u8;
        let hi: u8 = (raw >> 8u16) as u8;
        assert(lo == raw as u8) by (bit_vector)
            requires lo == (raw & 0xff) as u8;
        SmallRgb(!lo, !hi)
    }
}


/// A 5-6-5 colour: red and blue in 0..=31, green in 0..=63.
pub struct Rgb565 {
    r: u8,
    g: u8,
    b: u8,
}

impl View for Rgb565 {
    type V = (u8, u8, u8);

    closed spec fn view(&self) -> (u8, u8, u8) {
        (self.r, self.g, self.b)
    }
}

impl Rgb565 {
    #[verifier::type_invariant]
    closed spec fn channels_in_range(self) -> bool {
        self.r <= MAX_R && self.g <= MAX_G && self.b <= MAX_B
    }

    /// Makes a colour; too large channel values lose their unused high bits.
    pub fn new(r: u8, g: u8, b: u8) -> (c: Self)
        ensures
            c@ == (r & MAX_R, g & MAX_G, b & MAX_B),
    {
        let rr: u8 = r & MAX_R;
        let gg: u8 = g & MAX_G;
        let bb: u8 = b & MAX_B;
        assert(rr <= 31 && gg <= 63 && bb <= 31) by (bit_vector)
            requires rr == r & 31u8, gg == g & 63u8, bb == b & 31u8;
        Rgb565 { r: rr, g: gg, b: bb }
    }

    /// The red channel.
    pub fn r(&self) -> (v: u8)
        ensures
            v == self@.0,
            v <= MAX_R,
    {
        proof {
            use_type_invariant(self);
        }
        self.r
    }

    /// The green channel.
    pub fn g(&self) -> (v: u8)
        ensures
            v == self@.1,
            v <= MAX_G,
    {
        proof {
            use_type_invariant(self);
        }
        self.g
    }

    /// The blue channel.
    pub fn b(&self) -> (v: u8)
        ensures
            v == self@.2,
            v <= MAX_B,
    {
        proof {
            use_type_invariant(self);
        }
        self.b
    }
}

/// The two bytes that the panel receives for a colour.
pub open spec fn panel_bytes(c: (u8, u8, u8)) -> Seq<u8> {
    let raw = bgr_word(c.0 as u16, c.1 as u16, c.2 as u16);
    seq![inverted_low(raw), inverted_high(raw)]
}

/// The 16-bit word carried by two panel bytes.
pub open spec fn panel_word(lo: u8, hi: u8) -> u16 {
    ((!hi) as u16) << 8u16 | ((!lo) as u16)
}

/// The colour that two panel bytes stand for.
pub open spec fn decode_panel_bytes(lo: u8, hi: u8) -> (u8, u8, u8) {
    let raw = panel_word(lo, hi);
    ((raw & 0x1f) as u8, ((raw >> 5u16) & 0x3f) as u8, (raw >> 11u16) as u8)
}

/// Encodes a colour as the two bytes that the panel receives.
pub fn dump_color(c: &Rgb565) -> (res: [u8; 2])
    ensures
        res@ == panel_bytes(c@),
        decode_panel_bytes(res[0], res[1]) == c@,
{
    let r: u16 = c.r() as u16;
    let g: u16 = c.g() as u16;
    let b: u16 = c.b() as u16;
    let raw = SmallRgb::from_rgb(r, g, b);
    let res = [raw.0, raw.1];
    assert(res@ =~= panel_bytes(c@));
    proof {
        lemma_panel_bytes_decode(c@.0, c@.1, c@.2);
    }
    res
}

/// Encoding a colour loses nothing: the panel bytes decode back to the
/// colour's three channels.
pub proof fn lemma_panel_bytes_decode(r: u8, g: u8, b: u8)
    requires
        r <= MAX_R,
        g <= MAX_G,
        b <= MAX_B,
    ensures
        decode_panel_bytes(panel_bytes((r, g, b))[0], panel_bytes((r, g, b))[1]) == (r, g, b),
{
    let r16 = r as u16;
    let g16 = g as u16;
    let b16 = b as u16;
    let raw = bgr_word(r16, g16, b16);
    let lo = inverted_low(raw);
    let hi = inverted_high(raw);
    let w = panel_word(lo, hi);
    assert(w == raw) by (bit_vector)
        requires
            raw == (b16 << 11u16) | (g16 << 5u16) | r16,
            lo == !(raw as u8),
            hi == !((raw >> 8u16) as u8),
            w == ((!hi) as u16) << 8u16 | ((!lo) as u16),
    ;
    assert((w & 0x1f) as u8 == r && ((w >> 5u16) & 0x3f) as u8 == g && (w >> 11u16) as u8 == b)
        by (bit_vector)
        requires
            r16 == r as u16,
            g16 == g as u16,
            b16 == b as u16,
            r <= 31,
            g <= 63,
            b <= 31,
            w == (b16 << 11u16) | (g16 << 5u16) | r16,
    ;
}

/// Two colours that the panel receives as the same bytes are the same colour.
pub proof fn lemma_panel_bytes_injective(c1: (u8, u8, u8), c2: (u8, u8, u8))
    requires
        c1.0 <= MAX_R,
        c1.1 <= MAX_G,
        c1.2 <= MAX_B,
        c2.0 <= MAX_R,
        c2.1 <= MAX_G,
        c2.2 <= MAX_B,
        panel_bytes(c1) == panel_bytes(c2),
    ensures
        c1 == c2,
{
    lemma_panel_bytes_decode(c1.0, c1.1, c1.2);
    lemma_panel_bytes_decode(c2.0, c2.1, c2.2);
}

} // verus!
