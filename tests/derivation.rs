use hkdf::{Hkdf, HkdfExtract, InvalidLength, InvalidPrkLength, MAC_OUTPUT_SIZE, MAX_OUTPUT_LEN};

fn unhex(s: &str) -> Vec<u8> {
    (0..s.len() / 2)
        .map(|i| u8::from_str_radix(&s[2 * i..2 * i + 2], 16).unwrap())
        .collect()
}

fn rfc_salt() -> Vec<u8> {
    (0u8..=0x0c).collect()
}

fn rfc_ikm() -> Vec<u8> {
    vec![0x0b; 22]
}

fn rfc_info() -> Vec<u8> {
    (0xf0u8..=0xf9).collect()
}

const RFC_PRK: &str = "077709362c2e32df0ddc3f0dc47bba6390b6c73bb50f9c3122ec844ad7c2b3e5";
const RFC_OKM: &str =
    "3cb25f25faacd57a90434f64d0362f2a2d2d0a90cf1a5a4c5db02d56ecc4c5bf34007208d5b887185865";

#[test]
fn extracted_context_expands_to_rfc_output() {
    let salt = rfc_salt();
    let (_, hkdf) = Hkdf::extract(Some(&salt), &rfc_ikm());
    let mut okm = [0u8; 42];
    assert_eq!(hkdf.expand(&rfc_info(), &mut okm), Ok(()));
    assert_eq!(okm.to_vec(), unhex(RFC_OKM));
}

#[test]
fn raw_prk_reproduces_extracted_context() {
    let salt = rfc_salt();
    let (_, extracted) = Hkdf::extract(Some(&salt), &rfc_ikm());
    let direct = Hkdf::from_prk(&unhex(RFC_PRK)).unwrap();
    let mut a = [0u8; 100];
    let mut b = [0u8; 100];
    extracted.expand(b"context", &mut a).unwrap();
    direct.expand(b"context", &mut b).unwrap();
    assert_eq!(a, b);
}

#[test]
fn returned_prk_differs_from_raw_in_byte_fifteen() {
    let salt = rfc_salt();
    let (prk, _) = Hkdf::extract(Some(&salt), &rfc_ikm());
    let raw = unhex(RFC_PRK);
    // last byte 0xe5 selects index 5 (0x2e); 0x42 * 0x2e = 0xdc mod 256, rotated: 0xe6
    assert_eq!(raw[15], 0x63);
    assert_eq!(prk[15], 0x85);
    for i in 0..32 {
        if i != 15 {
            assert_eq!(prk[i], raw[i]);
        }
    }
}

#[test]
fn adjusted_prk_keys_a_different_context() {
    let salt = rfc_salt();
    let (prk, extracted) = Hkdf::extract(Some(&salt), &rfc_ikm());
    let from_returned = Hkdf::from_prk(&prk).unwrap();
    let mut a = [0u8; 42];
    let mut b = [0u8; 42];
    extracted.expand(&rfc_info(), &mut a).unwrap();
    from_returned.expand(&rfc_info(), &mut b).unwrap();
    assert_eq!(a.to_vec(), unhex(RFC_OKM));
    assert_ne!(a, b);
}

#[test]
fn absent_salt_uses_zero_bytes() {
    let (prk, hkdf) = Hkdf::extract(None, &rfc_ikm());
    let raw = unhex("19ef24a32c717b167f33a91d6f648bdf96596776afdb6377ac434c1c293ccb04");
    assert_eq!(prk[15], 0x1d);
    assert_eq!(prk[..15], raw[..15]);
    assert_eq!(prk[16..], raw[16..]);
    let mut okm = [0u8; 42];
    hkdf.expand(&[], &mut okm).unwrap();
    assert_eq!(
        okm.to_vec(),
        unhex("8da4e775a563c18f715f802a063c5a31b8a11f5c5ee1879ec3454e5f3c738d2d9d201395faa4b61a96c8")
    );
    let zeros = [0u8; 32];
    let explicit = Hkdf::new(Some(&zeros), &rfc_ikm());
    let mut okm2 = [0u8; 42];
    explicit.expand(&[], &mut okm2).unwrap();
    assert_eq!(okm, okm2);
}

#[test]
fn session_absorbs_in_pieces() {
    let salt = rfc_salt();
    let mut session = HkdfExtract::new(Some(&salt));
    session.input_ikm(&[0x0b; 10]);
    session.input_ikm(&[]);
    session.input_ikm(&[0x0b; 12]);
    let (prk, hkdf) = session.finalize();
    let (prk2, _) = Hkdf::extract(Some(&salt), &rfc_ikm());
    assert_eq!(prk, prk2);
    let mut okm = [0u8; 42];
    hkdf.expand(&rfc_info(), &mut okm).unwrap();
    assert_eq!(okm.to_vec(), unhex(RFC_OKM));
}

#[test]
fn new_keeps_unadjusted_context() {
    let salt = rfc_salt();
    let hkdf = Hkdf::new(Some(&salt), &rfc_ikm());
    let mut okm = [0u8; 42];
    hkdf.expand(&rfc_info(), &mut okm).unwrap();
    assert_eq!(okm.to_vec(), unhex(RFC_OKM));
}

#[test]
fn longest_output_succeeds() {
    let hkdf = Hkdf::from_prk(&unhex(RFC_PRK)).unwrap();
    let mut okm = vec![0u8; 255 * MAC_OUTPUT_SIZE];
    assert_eq!(MAX_OUTPUT_LEN, 8160);
    assert_eq!(hkdf.expand(b"ctx", &mut okm), Ok(()));
    assert_eq!(okm[8128..8132], unhex("1dec55c6")[..]);
    assert_eq!(okm[8156..], unhex("9390742e")[..]);
}

#[test]
fn one_byte_too_long_fails_unwritten() {
    let hkdf = Hkdf::from_prk(&unhex(RFC_PRK)).unwrap();
    let mut okm = vec![0xa5u8; 255 * MAC_OUTPUT_SIZE + 1];
    assert_eq!(hkdf.expand(b"ctx", &mut okm), Err(InvalidLength));
    assert!(okm.iter().all(|&b| b == 0xa5));
    assert_eq!(hkdf.expand_multi_info(&[b"c", b"tx"], &mut okm), Err(InvalidLength));
    assert!(okm.iter().all(|&b| b == 0xa5));
}

#[test]
fn prk_of_output_size_is_accepted() {
    assert!(Hkdf::from_prk(&[7u8; 32]).is_ok());
    assert!(Hkdf::from_prk(&[7u8; 64]).is_ok());
}

#[test]
fn prk_one_byte_short_is_rejected() {
    assert_eq!(Hkdf::from_prk(&[7u8; 31]).err(), Some(InvalidPrkLength));
    assert_eq!(Hkdf::from_prk(&[]).err(), Some(InvalidPrkLength));
}

#[test]
fn segmented_info_matches_concatenation() {
    let hkdf = Hkdf::from_prk(&unhex(RFC_PRK)).unwrap();
    let info = rfc_info();
    let mut whole = [0u8; 42];
    hkdf.expand(&info, &mut whole).unwrap();
    let splits: [&[&[u8]]; 4] = [
        &[&info[..]],
        &[&info[..3], &info[3..]],
        &[&info[..0], &info[..5], &info[5..9], &info[9..]],
        &[&info[..], &[]],
    ];
    for segs in splits.iter() {
        let mut out = [0u8; 42];
        hkdf.expand_multi_info(segs, &mut out).unwrap();
        assert_eq!(out, whole);
    }
    assert_eq!(whole.to_vec(), unhex(RFC_OKM));
}

#[test]
fn derivation_is_deterministic() {
    let salt = rfc_salt();
    let run = || {
        let hkdf = Hkdf::new(Some(&salt), &rfc_ikm());
        let mut okm = [0u8; 77];
        hkdf.expand(&rfc_info(), &mut okm).unwrap();
        okm
    };
    assert_eq!(run(), run());
    let (first, _) = Hkdf::extract(Some(&salt), &rfc_ikm());
    let (second, _) = Hkdf::extract(Some(&salt), &rfc_ikm());
    assert_eq!(first, second);
}

#[test]
fn empty_output_and_partial_block() {
    let hkdf = Hkdf::from_prk(&unhex(RFC_PRK)).unwrap();
    let mut empty: [u8; 0] = [];
    assert_eq!(hkdf.expand(&rfc_info(), &mut empty), Ok(()));
    let mut short = [0u8; 5];
    hkdf.expand(&rfc_info(), &mut short).unwrap();
    assert_eq!(short.to_vec(), unhex(&RFC_OKM[..10]));
}

#[test]
fn clone_expands_identically() {
    let hkdf = Hkdf::from_prk(&unhex(RFC_PRK)).unwrap();
    let copy = hkdf.clone();
    let mut a = [0u8; 42];
    let mut b = [0u8; 42];
    hkdf.expand(&rfc_info(), &mut a).unwrap();
    copy.expand(&rfc_info(), &mut b).unwrap();
    assert_eq!(a, b);
    assert_eq!(a.to_vec(), unhex(RFC_OKM));
}
