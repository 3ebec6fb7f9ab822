use crate::adjust::{adjust, combined_byte};
use crate::hkdf::{concat_segments, extract_raw, okm_spec, salt_key, Hkdf};
use vstd::prelude::*;

verus! {

/// A context built directly from the raw (unadjusted) intermediate secret of an
/// extraction produces, for every info and length, the same output as the
/// context that the extraction returned.
pub proof fn lemma_raw_prk_reproduces_context(
    salt: Option<&[u8]>,
    ikm: Seq<u8>,
    extracted: Hkdf,
    direct: Hkdf,
)
    requires
        extracted@ == extract_raw(salt, ikm),
        direct@ == extract_raw(salt, ikm),
    ensures
        forall|info: Seq<u8>, len: nat|
            #[trigger] okm_spec(extracted@, info, len) == okm_spec(direct@, info, len),
{
}

/// The secret that extraction returns differs from the key of the context it
/// returns in byte 15 alone, by XOR with `combined_byte`; the two are equal
/// exactly when that byte is zero.
pub proof fn lemma_adjusted_secret_diverges(raw: Seq<u8>)
    requires
        raw.len() >= 16,
    ensures
        adjust(raw).len() == raw.len(),
        adjust(raw)[15] == raw[15] ^ combined_byte(raw),
        forall|i: int| 0 <= i < raw.len() && i != 15 ==> #[trigger] adjust(raw)[i] == raw[i],
        adjust(raw) == raw <==> combined_byte(raw) == 0,
{
    let x = raw[15];
    let c = combined_byte(raw);
    assert((x ^ c) == x <==> c == 0) by (bit_vector);
    if combined_byte(raw) == 0 {
        assert(adjust(raw) =~= raw);
    } else {
        assert(adjust(raw)[15] != raw[15]);
    }
}

/// Expanding over info segments gives the same output as expanding over their
/// concatenation as one segment, for any split into at least one segment.
pub proof fn lemma_info_split(prk: Seq<u8>, segs: Seq<Seq<u8>>, info: Seq<u8>, len: nat)
    requires
        segs.len() >= 1,
        concat_segments(segs) == info,
    ensures
        okm_spec(prk, concat_segments(segs), len) == okm_spec(prk, concat_segments(seq![info]), len),
        okm_spec(prk, concat_segments(segs), len) == okm_spec(prk, info, len),
{
    let single = seq![info];
    assert(single.drop_last() =~= Seq::<Seq<u8>>::empty());
    assert(concat_segments(single.drop_last()) == Seq::<u8>::empty());
    assert(concat_segments(single) =~= info);
}

/// Derivation is deterministic: equal salt keys, input keying material, info and
/// length give equal output.
pub proof fn lemma_derivation_deterministic(
    a: Hkdf,
    b: Hkdf,
    salt_a: Option<&[u8]>,
    salt_b: Option<&[u8]>,
    ikm: Seq<u8>,
    info: Seq<u8>,
    len: nat,
)
    requires
        a@ == extract_raw(salt_a, ikm),
        b@ == extract_raw(salt_b, ikm),
        salt_key(salt_a) == salt_key(salt_b),
    ensures
        a@ == b@,
        okm_spec(a@, info, len) == okm_spec(b@, info, len),
{
}

/// The adjustment leaves a secret shorter than sixteen bytes unchanged. On a
/// longer one it changes at most byte 15, and the new byte depends only on the
/// bytes at positions 15, the last index, and `last byte mod 16`.
pub proof fn lemma_adjust_is_local(s: Seq<u8>, t: Seq<u8>)
    ensures
        s.len() < 16 ==> adjust(s) == s,
        adjust(s).len() == s.len(),
        forall|i: int| 0 <= i < s.len() && i != 15 ==> #[trigger] adjust(s)[i] == s[i],
        s.len() >= 16 && t.len() >= 16 && s[15] == t[15] && s[s.len() - 1] == t[t.len() - 1]
            && s[(s[s.len() - 1] % 16) as int] == t[(t[t.len() - 1] % 16) as int]
            ==> adjust(s)[15] == adjust(t)[15],
{
}

} // verus!
