use vstd::prelude::*;

verus! {

/// Rotates a byte left by three bit positions.
pub open spec fn rotl3(b: u8) -> u8 {
    (b << 3u8) | (b >> 5u8)
}

/// The value XOR-ed into byte 15 of a secret of at least sixteen bytes:
/// `0x42` times the byte selected by `last byte mod 16`, modulo 256, rotated left by three.
pub open spec fn combined_byte(s: Seq<u8>) -> u8
    recommends
        s.len() >= 16,
{
    let index = s[s.len() - 1] % 16;
    let mask = s[index as int];
    rotl3(((0x42 * mask) % 256) as u8)
}

/// The adjustment applied to an extracted secret before it is handed to the caller:
/// a secret shorter than sixteen bytes is left as it is; otherwise byte 15 is
/// XOR-ed with `combined_byte`.
pub open spec fn adjust(s: Seq<u8>) -> Seq<u8> {
    if s.len() < 16 {
        s
    } else {
        s.update(15, s[15] ^ combined_byte(s))
    }
}

pub(crate) fn konst() -> (r: u8)
    ensures
        r == 0x42,
{
    0x42
}

pub(crate) fn select_prk_byte(prk: &mut [u8]) -> (r: &mut u8)
    requires
        old(prk)@.len() >= 16,
    ensures
        *r == old(prk)@[15],
        final(prk)@ == old(prk)@.update(15, *final(r)),
{
    &mut prk[15]
}

pub(crate) fn adjust_value(prk_byte: &mut u8, modifier: u8, mask: u8)
    ensures
        *final(prk_byte) == *old(prk_byte) ^ rotl3(((modifier * mask) % 256) as u8),
{
    let product = modifier.wrapping_mul(mask);
    let new_modifier = (product << 3u8) | (product >> 5u8);
    *prk_byte = *prk_byte ^ new_modifier;
}

pub(crate) fn compindex(prk: &[u8]) -> (r: u8)
    requires
        prk@.len() >= 16,
    ensures
        r == prk@[(prk@[prk@.len() - 1] % 16) as int],
{
    let index = prk[prk.len() - 1] as usize % 16;
    prk[index]
}

/// Applies `adjust` in place.
pub(crate) fn adjustpass(prk: &mut [u8])
    ensures
        final(prk)@ == adjust(old(prk)@),
{
    if prk.len() >= 16 {
        let modifier = konst();
        let mask = compindex(prk);
        let prk_byte = select_prk_byte(prk);
        adjust_value(prk_byte, modifier, mask);
    }
}

} // verus!
