//! Packed RGBA color values.

use vstd::prelude::*;

verus! {

/// Packed RGBA color: red in the most significant byte, alpha in the least.
#[derive(Copy, Clone, Debug, Default, PartialEq, Eq, Hash, Structural)]
pub struct Color(u32);

/// Red channel of a packed value.
pub open spec fn red_of(packed: u32) -> u8 {
    (packed / 0x100_0000) as u8
}

/// Green channel of a packed value.
pub open spec fn green_of(packed: u32) -> u8 {
    ((packed / 0x1_0000) % 0x100) as u8
}

/// Blue channel of a packed value.
pub open spec fn blue_of(packed: u32) -> u8 {
    ((packed / 0x100) % 0x100) as u8
}

/// Alpha channel of a packed value.
pub open spec fn alpha_of(packed: u32) -> u8 {
    (packed % 0x100) as u8
}

/// The packed value holding the four channels, red first.
pub open spec fn pack(r: u8, g: u8, b: u8, a: u8) -> u32 {
    (r * 0x100_0000 + g * 0x1_0000 + b * 0x100 + a) as u32
}

impl View for Color {
    type V = u32;

    closed spec fn view(&self) -> u32 {
        self.0
    }
}

impl Color {
    /// Opaque black.
    pub fn black() -> (c: Self)
        ensures
            c@ == pack(0, 0, 0, 255),
    {
        Color(0x0000_00ff)
    }

    /// Opaque white.
    pub fn white() -> (c: Self)
        ensures
            c@ == pack(255, 255, 255, 255),
    {
        Color(0xffff_ffff)
    }

    /// Fully transparent black.
    pub fn transparent() -> (c: Self)
        ensures
            c@ == pack(0, 0, 0, 0),
    {
        Color(0)
    }

    /// Create a color from packed RGBA bytes.
    pub fn rgba8(r: u8, g: u8, b: u8, a: u8) -> (c: Self)
        ensures
            c@ == pack(r, g, b, a),
    {
        let v: u32 = ((r as u32) << 24) | ((g as u32) << 16) | ((b as u32) << 8) | (a as u32);
        assert(v == pack(r, g, b, a)) by (bit_vector)
            requires
                v == ((r as u32) << 24) | ((g as u32) << 16) | ((b as u32) << 8) | (a as u32),
        ;
        Color(v)
    }

    /// Returns the packed color.
    pub fn to_rgba8(self) -> (v: u32)
        ensures
            v == self@,
    {
        self.0
    }

    /// Returns the red channel.
    pub fn r(self) -> (c: u8)
        ensures
            c == red_of(self@),
    {
        let v = self.0;
        let c = (v >> 24) as u8;
        assert(c == red_of(v)) by (bit_vector)
            requires
                c == (v >> 24) as u8,
        ;
        c
    }

    /// Returns the green channel.
    pub fn g(self) -> (c: u8)
        ensures
            c == green_of(self@),
    {
        let v = self.0;
        let c = ((v >> 16) & 0xff) as u8;
        assert(c == green_of(v)) by (bit_vector)
            requires
                c == ((v >> 16) & 0xff) as u8,
        ;
        c
    }

    /// Returns the blue channel.
    pub fn b(self) -> (c: u8)
        ensures
            c == blue_of(self@),
    {
        let v = self.0;
        let c = ((v >> 8) & 0xff) as u8;
        assert(c == blue_of(v)) by (bit_vector)
            requires
                c == ((v >> 8) & 0xff) as u8,
        ;
        c
    }

    /// Returns the alpha channel.
    pub fn a(self) -> (c: u8)
        ensures
            c == alpha_of(self@),
    {
        let v = self.0;
        let c = (v & 0xff) as u8;
        assert(c == alpha_of(v)) by (bit_vector)
            requires
                c == (v & 0xff) as u8,
        ;
        c
    }
}

/// Reading a channel back from a packed color gives the byte it was built from.
pub proof fn lemma_channels_of_pack(r: u8, g: u8, b: u8, a: u8)
    ensures
        red_of(pack(r, g, b, a)) == r,
        green_of(pack(r, g, b, a)) == g,
        blue_of(pack(r, g, b, a)) == b,
        alpha_of(pack(r, g, b, a)) == a,
{
    assert(red_of(pack(r, g, b, a)) == r) by (bit_vector);
    assert(green_of(pack(r, g, b, a)) == g) by (bit_vector);
    assert(blue_of(pack(r, g, b, a)) == b) by (bit_vector);
    assert(alpha_of(pack(r, g, b, a)) == a) by (bit_vector);
}

/// Repacking the four channels of a color gives the same color.
pub proof fn lemma_pack_of_channels(c: Color)
    ensures
        pack(red_of(c@), green_of(c@), blue_of(c@), alpha_of(c@)) == c@,
{
    let v = c@;
    assert(pack(red_of(v), green_of(v), blue_of(v), alpha_of(v)) == v) by (bit_vector);
}

} // verus!
