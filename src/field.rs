use vstd::prelude::*;

verus! {

/// A field element as its canonical integer value, written as base-2^32
/// digits, least significant first.
pub type Limbs = Vec<u32>;

/// The integer that a sequence of base-2^32 digits (least significant first)
/// stands for.
pub open spec fn limbs_value(s: Seq<u32>) -> nat
    decreases s.len(),
{
    if s.len() == 0 {
        0
    } else {
        s[0] as nat + 0x1_0000_0000 * limbs_value(s.drop_first())
    }
}

} // verus!
