use vstd::prelude::*;

verus! {

/// The requested output is longer than 255 blocks of the MAC's output size.
#[derive(Clone, Copy, Debug, PartialEq, Eq)]
pub struct InvalidLength;

/// A secret handed to `Hkdf::from_prk` is shorter than the MAC's output size.
#[derive(Clone, Copy, Debug, PartialEq, Eq)]
pub struct InvalidPrkLength;

} // verus!
