//! Fonts.
use vstd::prelude::*;

verus! {

/// A font, as the bytes of its font file.
pub trait Font: Clone {
    fn to_bytes(&self) -> &[u8];
}

} // verus!
