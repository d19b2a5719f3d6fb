//! The miscellaneous-info selector (MISCSELECT): which extended information
//! is saved in the state save area when an enclave exits asynchronously.
use vstd::prelude::*;

verus! {

/// Report page faults and general-protection exceptions raised inside the enclave.
pub const EXINFO: u32 = 0x1;
/// Every defined selector bit.
pub const MISC_SELECT_ALL: u32 = 0x1;
/// Size in bytes of the selector.
pub const MISC_SELECT_SIZE: usize = 4;

/// A set of selector bits: only bits of `MISC_SELECT_ALL` may be set.
#[derive(Clone, Copy, Debug, PartialEq, Eq, Structural)]
pub struct MiscSelect {
    bits: u32,
}

impl View for MiscSelect {
    type V = u32;

    closed spec fn view(&self) -> u32 {
        self.bits
    }
}

impl MiscSelect {
    #[verifier::type_invariant]
    spec fn inv(&self) -> bool {
        self.bits & !MISC_SELECT_ALL == 0
    }

    /// The set holding exactly `bits`, or `None` when an undefined bit is set.
    pub fn new(bits: u32) -> (r: Option<MiscSelect>)
        ensures
            r is Some <==> bits & !MISC_SELECT_ALL == 0,
            r matches Some(m) ==> m@ == bits,
    {
        if bits & !MISC_SELECT_ALL == 0 {
            Some(MiscSelect { bits })
        } else {
            None
        }
    }

    /// The bits of this set.
    pub fn bits(&self) -> (r: u32)
        ensures
            r == self@,
            r & !MISC_SELECT_ALL == 0,
    {
        proof { use_type_invariant(self); }
        self.bits
    }

    /// The little-endian bytes of the selector.
    pub fn to_vec(&self) -> (r: Vec<u8>)
        ensures
            r@ == seq![
                self@ as u8,
                (self@ >> 8u32) as u8,
                (self@ >> 16u32) as u8,
                (self@ >> 24u32) as u8,
            ],
            r@.len() == MISC_SELECT_SIZE,
    {
        let b = self.bits;
        let mut v: Vec<u8> = Vec::new();
        v.push(b as u8);
        v.push((b >> 8) as u8);
        v.push((b >> 16) as u8);
        v.push((b >> 24) as u8);
        assert(v@ =~= seq![b as u8, (b >> 8u32) as u8, (b >> 16u32) as u8, (b >> 24u32) as u8]);
        v
    }
}

} // verus!
