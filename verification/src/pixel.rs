//! Colours as byte triples, and the luminance-only reduction of achromatic
//! vision.

use vstd::prelude::*;

verus! {

/// A colour as three gamma-encoded bytes.
#[derive(Clone, Copy, PartialEq, Eq, Structural, Debug)]
pub struct Pixel {
    pub r: u8,
    pub g: u8,
    pub b: u8,
}

impl Pixel {
    /// Makes a colour of its three channels.
    pub fn new(r: u8, g: u8, b: u8) -> (p: Pixel)
        ensures
            p.r == r,
            p.g == g,
            p.b == b,
    {
        Pixel { r, g, b }
    }

    /// A thousand times the luma of this colour. The luma weighs red by
    /// 0.299, green by 0.587 and blue by 0.114, on the encoded bytes.
    pub open spec fn luma_milli(self) -> int {
        299 * self.r + 587 * self.g + 114 * self.b
    }
}

/// One channel of a colour as achromatic vision sees it, where `orig` is that
/// channel of the colour `p` itself.
///
/// The complete form sees the luma. The partial form sees
/// `(1.75 * luma + orig) / 2.75`, which over a common denominator is
/// `(7 * luma_milli + 4000 * orig) / 11000`. Either way the value is rounded
/// to the nearest whole number, and a value that lies exactly halfway
/// between two whole numbers goes to the higher one: half the denominator is
/// added before the division.
pub open spec fn achromatic_channel(p: Pixel, orig: u8, anomalous: bool) -> int {
    if anomalous {
        (7 * p.luma_milli() + 4000 * orig + 5500) / 11000
    } else {
        (p.luma_milli() + 500) / 1000
    }
}

/// A colour as achromatic vision sees it, channel by channel.
pub open spec fn achromatic(p: Pixel, anomalous: bool) -> Pixel {
    Pixel {
        r: achromatic_channel(p, p.r, anomalous) as u8,
        g: achromatic_channel(p, p.g, anomalous) as u8,
        b: achromatic_channel(p, p.b, anomalous) as u8,
    }
}

/// Every channel that achromatic vision sees is a byte, and it is the whole
/// number nearest to the real value of its formula: the value lies at most
/// a half below it and less than a half above it.
pub proof fn lemma_achromatic_channel(p: Pixel, orig: u8, anomalous: bool) -> (c: int)
    ensures
        c == achromatic_channel(p, orig, anomalous),
        0 <= c <= 255,
        !anomalous ==> 1000 * c - 500 <= p.luma_milli() < 1000 * c + 500,
        anomalous ==> 11000 * c - 5500 <= 7 * p.luma_milli() + 4000 * orig < 11000 * c + 5500,
{
    achromatic_channel(p, orig, anomalous)
}

/// The complete form of achromatic vision sees every colour as a gray: its
/// three channels are one value, the rounded luma.
pub proof fn lemma_achromatopsia_is_gray(p: Pixel)
    ensures
        achromatic(p, false).r == (p.luma_milli() + 500) / 1000,
        achromatic(p, false).g == achromatic(p, false).r,
        achromatic(p, false).b == achromatic(p, false).r,
{
}

/// Achromatic vision, complete or partial, sees a gray as it is.
pub proof fn lemma_achromatic_keeps_gray(p: Pixel, anomalous: bool)
    requires
        p.r == p.g,
        p.g == p.b,
    ensures
        achromatic(p, anomalous) == p,
{
}

fn achroma_channel(luma_milli: u32, orig: u8, anom: bool) -> (c: u8)
    requires
        luma_milli <= 255_000,
    ensures
        anom ==> c == (7 * luma_milli + 4000 * orig + 5500) / 11000,
        !anom ==> c == (luma_milli + 500) / 1000,
{
    if anom {
        ((7 * luma_milli + 4000 * (orig as u32) + 5500) / 11000) as u8
    } else {
        ((luma_milli + 500) / 1000) as u8
    }
}

/// Replaces a colour by what achromatic vision sees of it: its luma in all
/// three channels, blended with the colour itself where `anom` is set, and
/// rounded to the nearest whole number, a half going up.
pub fn process_clr_achroma(inp: &mut Pixel, anom: bool)
    ensures
        *final(inp) == achromatic(*old(inp), anom),
        !anom ==> {
            &&& final(inp).r == (old(inp).luma_milli() + 500) / 1000
            &&& final(inp).g == final(inp).r
            &&& final(inp).b == final(inp).r
        },
        anom ==> {
            &&& final(inp).r == (7 * old(inp).luma_milli() + 4000 * old(inp).r + 5500)
                / 11000
            &&& final(inp).g == (7 * old(inp).luma_milli() + 4000 * old(inp).g + 5500)
                / 11000
            &&& final(inp).b == (7 * old(inp).luma_milli() + 4000 * old(inp).b + 5500)
                / 11000
        },
{
    let s: u32 = 299 * (inp.r as u32) + 587 * (inp.g as u32) + 114 * (inp.b as u32);
    let r: u8 = achroma_channel(s, inp.r, anom);
    let g: u8 = achroma_channel(s, inp.g, anom);
    let b: u8 = achroma_channel(s, inp.b, anom);
    inp.r = r;
    inp.g = g;
    inp.b = b;
}

} // verus!
