use vstd::prelude::*;

verus! {

/// A 24-bit RGB color: one byte for each channel.
#[derive(Clone, Copy, Debug, PartialEq, Eq, Structural)]
pub struct Color24 {
    pub r: u8,
    pub g: u8,
    pub b: u8,
}

/// The 24-bit integer that packs the channels red, green, blue from high to low.
pub open spec fn pack(r: u8, g: u8, b: u8) -> nat {
    r as nat * 65536 + g as nat * 256 + b as nat
}

/// The channels of a packed value; bits above bit 23 are ignored.
pub open spec fn unpack(x: u32) -> Color24 {
    Color24 {
        r: ((x as nat / 65536) % 256) as u8,
        g: ((x as nat / 256) % 256) as u8,
        b: (x as nat % 256) as u8,
    }
}

impl Color24 {
    /// The packed value of this color.
    pub open spec fn packed(&self) -> nat {
        pack(self.r, self.g, self.b)
    }

    /// Packs the color into the low 24 bits of a `u32`.
    pub fn to_u32(&self) -> (res: u32)
        ensures
            res as nat == self.packed(),
            res < 0x0100_0000,
    {
        let r: u32 = self.r as u32;
        let g: u32 = self.g as u32;
        let b: u32 = self.b as u32;
        let res = r << 16 | g << 8 | b;
        assert(res == r * 65536 + g * 256 + b && res < 0x0100_0000) by (bit_vector)
            requires
                r < 256,
                g < 256,
                b < 256,
                res == r << 16 | g << 8 | b,
        ;
        res
    }

    /// Unpacks the low 24 bits of a `u32` into a color.
    pub fn from_u32(rgb32: u32) -> (res: Color24)
        ensures
            res == unpack(rgb32),
    {
        let red: u8 = (rgb32 >> 16) as u8;
        let green: u8 = (rgb32 >> 8) as u8;
        let blue: u8 = rgb32 as u8;
        assert(red == (rgb32 / 65536) % 256 && green == (rgb32 / 256) % 256 && blue == rgb32
            % 256) by (bit_vector)
            requires
                red == (rgb32 >> 16) as u8,
                green == (rgb32 >> 8) as u8,
                blue == rgb32 as u8,
        ;
        Color24 { r: red, g: green, b: blue }
    }
}

/// Unpacking a 24-bit value and packing it again gives the value back.
pub proof fn lemma_pack_unpack(x: u32)
    requires
        x < 0x0100_0000,
    ensures
        unpack(x).packed() == x as nat,
{
    let n = x as nat;
    let q = n / 256;
    vstd::arithmetic::div_mod::lemma_fundamental_div_mod(n as int, 256);
    vstd::arithmetic::div_mod::lemma_fundamental_div_mod(q as int, 256);
    vstd::arithmetic::div_mod::lemma_div_denominator(n as int, 256, 256);
    assert(n / 65536 < 256);
    assert((n / 65536) % 256 == n / 65536);
}

/// Packing a color and unpacking the result gives the color back.
pub proof fn lemma_unpack_pack(c: Color24)
    ensures
        c.packed() < 0x0100_0000,
        unpack(c.packed() as u32) == c,
{
    let n = c.packed();
    let (r, g, b) = (c.r as nat, c.g as nat, c.b as nat);
    assert(n < 0x0100_0000 && n / 65536 == r && (n / 256) % 256 == g && n % 256 == b)
        by (nonlinear_arith)
        requires
            n == r * 65536 + g * 256 + b,
            r < 256,
            g < 256,
            b < 256,
    ;
}

} // verus!
