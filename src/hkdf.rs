use crate::adjust::{adjust, adjustpass};
use crate::errors::{InvalidLength, InvalidPrkLength};
use crate::mac::{
    hmac_sha256, mac_absorbed, mac_clone, mac_finalize, mac_key, mac_new, mac_update,
    HmacSha256, MAC_OUTPUT_SIZE,
};
use vstd::prelude::*;

verus! {

/// Longest output that one expansion may produce: 255 blocks, since the block
/// counter is a single byte running from 1 to 255.
pub const MAX_OUTPUT_LEN: usize = 255 * MAC_OUTPUT_SIZE;

/// The salt used when none is given: as many zero bytes as a MAC tag has.
pub open spec fn zero_salt() -> Seq<u8> {
    Seq::new(MAC_OUTPUT_SIZE as nat, |i: int| 0u8)
}

/// The key that extraction runs the MAC under.
pub open spec fn salt_key(salt: Option<&[u8]>) -> Seq<u8> {
    match salt {
        Some(s) => s@,
        None => zero_salt(),
    }
}

/// The intermediate secret of extraction, before any adjustment.
pub open spec fn extract_raw(salt: Option<&[u8]>, ikm: Seq<u8>) -> Seq<u8> {
    hmac_sha256(salt_key(salt), ikm)
}

/// The concatenation of info segments, in order.
pub open spec fn concat_segments(segs: Seq<Seq<u8>>) -> Seq<u8>
    decreases segs.len(),
{
    if segs.len() == 0 {
        Seq::empty()
    } else {
        concat_segments(segs.drop_last()) + segs.last()
    }
}

/// The views of a list of borrowed info segments.
pub open spec fn segment_views(segs: Seq<&[u8]>) -> Seq<Seq<u8>> {
    segs.map_values(|s: &[u8]| s@)
}

/// Block `T(n)` of the expansion under key `prk`:
/// `T(0)` is empty and `T(n) = HMAC(prk, T(n-1) ‖ info ‖ n)`.
pub open spec fn block(prk: Seq<u8>, info: Seq<u8>, n: nat) -> Seq<u8>
    decreases n,
{
    if n == 0 {
        Seq::empty()
    } else {
        hmac_sha256(prk, block(prk, info, (n - 1) as nat) + info + seq![n as u8])
    }
}

/// The first `len` bytes of `T(1) ‖ T(2) ‖ ...`: byte `i` is byte `i mod 32` of
/// block `i / 32 + 1`.
pub open spec fn okm_spec(prk: Seq<u8>, info: Seq<u8>, len: nat) -> Seq<u8> {
    Seq::new(
        len,
        |i: int| block(prk, info, (i / MAC_OUTPUT_SIZE as int + 1) as nat)[i % MAC_OUTPUT_SIZE as int],
    )
}

proof fn lemma_block_position(b: int, t: int)
    requires
        0 <= b,
        0 <= t < 32,
    ensures
        (b * 32 + t) / 32 == b,
        (b * 32 + t) % 32 == t,
{
    assert((b * 32 + t) / 32 == b && (b * 32 + t) % 32 == t) by (nonlinear_arith)
        requires 0 <= b, 0 <= t < 32;
}

/// An extraction session: an HMAC-SHA-256 instance keyed with the salt that
/// absorbs input keying material until it is finalized.
pub struct HkdfExtract {
    hmac: HmacSha256,
}

impl HkdfExtract {
    /// The key that the session's MAC runs under.
    pub closed spec fn key(&self) -> Seq<u8> {
        mac_key(self.hmac)
    }

    /// The input keying material absorbed so far, in call order.
    pub closed spec fn absorbed(&self) -> Seq<u8> {
        mac_absorbed(self.hmac)
    }

    /// Opens a session keyed with `salt`, or with `MAC_OUTPUT_SIZE` zero bytes
    /// when there is none.
    pub fn new(salt: Option<&[u8]>) -> (r: Self)
        ensures
            r.key() == salt_key(salt),
            r.absorbed() == Seq::<u8>::empty(),
    {
        let default_salt: [u8; 32] = [0u8; 32];
        let hmac = match salt {
            Some(s) => mac_new(s),
            None => {
                assert(default_salt@ =~= zero_salt());
                mac_new(default_salt.as_slice())
            },
        };
        HkdfExtract { hmac }
    }

    /// Absorbs more input keying material.
    pub fn input_ikm(&mut self, ikm: &[u8])
        ensures
            final(self).key() == old(self).key(),
            final(self).absorbed() == old(self).absorbed() + ikm@,
    {
        mac_update(&mut self.hmac, ikm);
    }

    /// Ends the session. The context is keyed with the raw intermediate secret
    /// `HMAC(key, absorbed)`; the secret returned beside it is that value with
    /// `adjust` applied.
    pub fn finalize(self) -> (r: ([u8; 32], Hkdf))
        ensures
            r.0@ == adjust(hmac_sha256(self.key(), self.absorbed())),
            r.1@ == hmac_sha256(self.key(), self.absorbed()),
    {
        let mut prk = mac_finalize(self.hmac);
        let hkdf = Hkdf { hmac: mac_new(prk.as_slice()) };
        adjustpass(&mut prk);
        (prk, hkdf)
    }
}

/// A derivation context: an HMAC-SHA-256 state keyed with an intermediate
/// secret, from which any number of expansions can be run.
pub struct Hkdf {
    hmac: HmacSha256,
}

impl Clone for Hkdf {
    /// A copy keyed with the same intermediate secret.
    fn clone(&self) -> (r: Self)
        ensures
            r@ == self@,
    {
        proof {
            use_type_invariant(self);
        }
        Hkdf { hmac: mac_clone(&self.hmac) }
    }
}

impl View for Hkdf {
    type V = Seq<u8>;

    /// The intermediate secret that the context's MAC state is keyed with.
    closed spec fn view(&self) -> Seq<u8> {
        mac_key(self.hmac)
    }
}

impl Hkdf {
    /// Extracts from `salt` and `ikm` and keeps only the derivation context,
    /// which is keyed with the unadjusted intermediate secret.
    pub fn new(salt: Option<&[u8]>, ikm: &[u8]) -> (r: Self)
        ensures
            r@ == extract_raw(salt, ikm@),
    {
        let (_, hkdf) = Self::extract(salt, ikm);
        hkdf
    }

    /// Builds a context keyed directly with `prk`, with no adjustment.
    /// Fails exactly when `prk` is shorter than a MAC tag.
    pub fn from_prk(prk: &[u8]) -> (r: Result<Self, InvalidPrkLength>)
        ensures
            r is Err <==> prk@.len() < MAC_OUTPUT_SIZE,
            r is Ok ==> r->Ok_0@ == prk@,
    {
        if prk.len() < MAC_OUTPUT_SIZE {
            return Err(InvalidPrkLength);
        }
        Ok(Hkdf { hmac: mac_new(prk) })
    }

    /// Runs an extraction session over `ikm` under `salt` (zeros when absent).
    /// Returns the adjusted intermediate secret together with a context keyed
    /// with the unadjusted one.
    pub fn extract(salt: Option<&[u8]>, ikm: &[u8]) -> (r: ([u8; 32], Self))
        ensures
            r.0@ == adjust(extract_raw(salt, ikm@)),
            r.1@ == extract_raw(salt, ikm@),
    {
        let mut extract_ctx = HkdfExtract::new(salt);
        extract_ctx.input_ikm(ikm);
        assert(extract_ctx.absorbed() =~= ikm@);
        extract_ctx.finalize()
    }

    /// The stored MAC state has absorbed nothing, so each expansion block
    /// starts from the bare key.
    #[verifier::type_invariant]
    closed spec fn inv(self) -> bool {
        mac_absorbed(self.hmac) == Seq::<u8>::empty()
    }

    /// Expands into `okm` with the concatenation of `info_components` as info.
    /// Fails, writing nothing, exactly when `okm` is longer than 255 MAC blocks.
    pub fn expand_multi_info(&self, info_components: &[&[u8]], okm: &mut [u8]) -> (r: Result<
        (),
        InvalidLength,
    >)
        ensures
            r is Err <==> old(okm)@.len() > MAX_OUTPUT_LEN,
            r is Err ==> final(okm)@ == old(okm)@,
            r is Ok ==> final(okm)@ == okm_spec(
                self@,
                concat_segments(segment_views(info_components@)),
                old(okm)@.len(),
            ),
    {
        proof {
            use_type_invariant(self);
        }
        let ghost key = self@;
        let ghost info = concat_segments(segment_views(info_components@));
        let ghost len = okm@.len();
        let chunk_len: usize = MAC_OUTPUT_SIZE;
        if okm.len() > chunk_len * 255 {
            return Err(InvalidLength);
        }
        let total: usize = okm.len();
        let mut prev: Option<[u8; 32]> = None;
        let mut block_n: usize = 0;
        let mut pos: usize = 0;
        while pos < total
            invariant
                key == self@,
                info == concat_segments(segment_views(info_components@)),
                mac_absorbed(self.hmac) == Seq::<u8>::empty(),
                mac_key(self.hmac) == key,
                len == total,
                total <= MAX_OUTPUT_LEN,
                okm@.len() == total,
                chunk_len == 32,
                pos <= total,
                pos < total ==> pos == block_n * 32,
                block_n <= 255,
                prev is None <==> block_n == 0,
                prev is Some ==> prev->0@ == block(key, info, block_n as nat),
                forall|i: int|
                    0 <= i < pos ==> #[trigger] okm@[i] == okm_spec(key, info, len)[i],
            decreases total - pos,
        {
            let mut hmac = mac_clone(&self.hmac);
            let ghost previous = block(key, info, block_n as nat);
            match &prev {
                Some(p) => {
                    mac_update(&mut hmac, p.as_slice());
                },
                None => {
                    assert(mac_absorbed(hmac) =~= previous);
                },
            }
            let mut j: usize = 0;
            while j < info_components.len()
                invariant
                    j <= info_components@.len(),
                    mac_key(hmac) == key,
                    mac_absorbed(hmac) == previous + concat_segments(
                        segment_views(info_components@.take(j as int)),
                    ),
                decreases info_components@.len() - j,
            {
                let ghost before = mac_absorbed(hmac);
                mac_update(&mut hmac, info_components[j]);
                proof {
                    let segs = segment_views(info_components@.take(j as int + 1));
                    assert(segs.drop_last() =~= segment_views(info_components@.take(j as int)));
                    assert(mac_absorbed(hmac) =~= before + segs.last());
                }
                j = j + 1;
            }
            assert(info_components@.take(info_components@.len() as int) =~= info_components@);
            let counter: [u8; 1] = [(block_n + 1) as u8];
            mac_update(&mut hmac, counter.as_slice());
            assert(counter@ =~= seq![(block_n + 1) as u8]);
            let output = mac_finalize(hmac);
            assert(output@ == block(key, info, (block_n + 1) as nat));
            let block_len: usize = if total - pos < chunk_len {
                total - pos
            } else {
                chunk_len
            };
            let mut t: usize = 0;
            while t < block_len
                invariant
                    pos == block_n * 32,
                    pos + block_len <= total,
                    block_len <= 32,
                    t <= block_len,
                    okm@.len() == total,
                    len == total,
                    output@ == block(key, info, (block_n + 1) as nat),
                    forall|i: int|
                        0 <= i < pos + t ==> #[trigger] okm@[i] == okm_spec(key, info, len)[i],
                decreases block_len - t,
            {
                okm[pos + t] = output[t];
                proof {
                    lemma_block_position(block_n as int, t as int);
                }
                t = t + 1;
            }
            prev = Some(output);
            block_n = block_n + 1;
            pos = pos + block_len;
        }
        assert(okm@ =~= okm_spec(key, info, len));
        Ok(())
    }

    /// Expands into `okm` with a single info string.
    /// Fails, writing nothing, exactly when `okm` is longer than 255 MAC blocks.
    pub fn expand(&self, info: &[u8], okm: &mut [u8]) -> (r: Result<(), InvalidLength>)
        ensures
            r is Err <==> old(okm)@.len() > MAX_OUTPUT_LEN,
            r is Err ==> final(okm)@ == old(okm)@,
            r is Ok ==> final(okm)@ == okm_spec(self@, info@, old(okm)@.len()),
    {
        let segments: [&[u8]; 1] = [info];
        let r = self.expand_multi_info(segments.as_slice(), okm);
        proof {
            let views = segment_views(segments@);
            assert(segments@.len() == 1 && segments@[0] == info);
            assert(views.len() == 1 && views.last() == info@);
            assert(views.drop_last() =~= Seq::<Seq<u8>>::empty());
            assert(concat_segments(views.drop_last()) == Seq::<u8>::empty());
            assert(concat_segments(views) =~= info@);
        }
        r
    }
}

} // verus!
