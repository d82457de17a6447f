use vstd::prelude::*;

verus! {

/// Red rate of the sky colour, out of 255.
pub const SKY_RED: u64 = 67;

/// Green rate of the sky colour, out of 255.
pub const SKY_GREEN: u64 = 133;

/// Blue rate of the sky colour, out of 255.
pub const SKY_BLUE: u64 = 255;

/// An 8-bit RGB colour.
#[derive(Clone, Copy, Debug, PartialEq, Eq, Structural)]
pub struct Rgb8 {
    pub r: u8,
    pub g: u8,
    pub b: u8,
}

impl Rgb8 {
    pub open spec fn view(self) -> (nat, nat, nat) {
        (self.r as nat, self.g as nat, self.b as nat)
    }
}

/// One channel of the sky gradient at row `y` of an image `h` rows high.
/// The height rate is `max(0, y/h - 1/5)`; the channel is `rate/255` times it,
/// scaled to 255, rounded half up and saturated at 255:
/// `round(rate * (5y - h) / (5h))`.
pub open spec fn gradient_channel(rate: nat, y: nat, h: nat) -> nat {
    if 5 * y <= h {
        0
    } else {
        let v = (2 * rate * ((5 * y - h) as nat) + 5 * h) / (10 * h);
        if v > 255 { 255 } else { v }
    }
}

/// The sky gradient colour of row `y`.
pub open spec fn gradient_spec(y: nat, h: nat) -> (nat, nat, nat) {
    (
        gradient_channel(SKY_RED as nat, y, h),
        gradient_channel(SKY_GREEN as nat, y, h),
        gradient_channel(SKY_BLUE as nat, y, h),
    )
}

/// Stars may appear only while the height rate is at most 0.35.
pub open spec fn in_star_band(y: nat, h: nat) -> bool {
    20 * y <= 11 * h
}

/// Whether the draw `s` (read as `s / 2^32`, uniform in `[0, 1)`) lights a
/// star on row `y`. From height rate 0.05 up the chance is
/// `(0.4 - rate) / 0.35 * 0.003`, that is `3 * (3h - 5y) / (1750 h)`; below it
/// is the floor `1/200`. A star is drawn when the draw is at most the chance.
pub open spec fn star_drawn(y: nat, h: nat, s: nat) -> bool {
    &&& in_star_band(y, h)
    &&& if 4 * y >= h {
        s * (1750 * h) <= 3 * ((3 * h - 5 * y) as nat) * 0x1_0000_0000
    } else {
        s * 200 <= 0x1_0000_0000
    }
}

/// Grey level of a star from the draw `g`: `55 + floor(g / 2^32 * 200)`.
pub open spec fn star_gray(g: nat) -> nat {
    55 + (g * 200) / 0x1_0000_0000
}

/// The background colour of row `y` for the star draw `s` and grey draw `g`.
pub open spec fn background_spec(y: nat, h: nat, s: nat, g: nat) -> (nat, nat, nat) {
    if star_drawn(y, h, s) {
        (star_gray(g), star_gray(g), star_gray(g))
    } else {
        gradient_spec(y, h)
    }
}

fn gradient_channel_exec(rate: u64, y: u32, h: u32) -> (c: u8)
    requires
        rate <= 255,
        h > 0,
    ensures
        c as nat == gradient_channel(rate as nat, y as nat, h as nat),
{
    let y5: u64 = 5 * (y as u64);
    let hh: u64 = h as u64;
    if y5 <= hh {
        0
    } else {
        assert(2 * rate * (y5 - hh) <= 2 * 255 * 0x5_0000_0000) by (nonlinear_arith)
            requires
                rate <= 255,
                y5 - hh <= 0x5_0000_0000,
        ;
        let v: u64 = (2 * rate * (y5 - hh) + 5 * hh) / (10 * hh);
        if v > 255 {
            255
        } else {
            v as u8
        }
    }
}

/// The sky gradient colour of row `y` in an image `height` rows high.
pub fn gradient_color(y: u32, height: u32) -> (c: Rgb8)
    requires
        height > 0,
    ensures
        c.view() == gradient_spec(y as nat, height as nat),
{
    Rgb8 {
        r: gradient_channel_exec(SKY_RED, y, height),
        g: gradient_channel_exec(SKY_GREEN, y, height),
        b: gradient_channel_exec(SKY_BLUE, y, height),
    }
}

/// Whether the star draw `star_draw` lights a star on row `y`.
pub fn is_star(y: u32, height: u32, star_draw: u32) -> (b: bool)
    requires
        height > 0,
    ensures
        b == star_drawn(y as nat, height as nat, star_draw as nat),
{
    let y128: u128 = y as u128;
    let h128: u128 = height as u128;
    let s128: u128 = star_draw as u128;
    if 20 * y128 > 11 * h128 {
        false
    } else if 4 * y128 >= h128 {
        assert(s128 * (1750 * h128) <= 0xffff_ffff * (1750 * 0xffff_ffff)) by (nonlinear_arith)
            requires
                s128 <= 0xffff_ffff,
                h128 <= 0xffff_ffff,
        ;
        s128 * (1750 * h128) <= 3 * (3 * h128 - 5 * y128) * 0x1_0000_0000
    } else {
        s128 * 200 <= 0x1_0000_0000
    }
}

/// The background colour of row `y` for given star and grey draws: a grey
/// star where the star draw lights one, the sky gradient elsewhere.
pub fn background_pixel(y: u32, height: u32, star_draw: u32, gray_draw: u32) -> (c: Rgb8)
    requires
        height > 0,
    ensures
        c.view() == background_spec(y as nat, height as nat, star_draw as nat, gray_draw as nat),
{
    if is_star(y, height, star_draw) {
        assert((gray_draw as nat) * 200 / 0x1_0000_0000 < 200) by (nonlinear_arith)
            requires
                gray_draw < 0x1_0000_0000,
        ;
        let level: u64 = 55 + ((gray_draw as u64) * 200) / 0x1_0000_0000;
        let v: u8 = level as u8;
        Rgb8 { r: v, g: v, b: v }
    } else {
        gradient_color(y, height)
    }
}

} // verus!
