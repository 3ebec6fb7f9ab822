use crate::mac::HmacSha256;
use vstd::prelude::*;

verus! {

/// Private supertrait that keeps `HmacImpl` closed to types of other crates.
pub trait Sealed {}

impl Sealed for HmacSha256 {}

} // verus!
