//! The shape of a nul-terminated buffer of 16-bit code units.

use vstd::prelude::*;

verus! {

/// Some code unit of `s` is the terminator value 0.
pub open spec fn has_nul(s: Seq<u16>) -> bool {
    exists|i: int| 0 <= i < s.len() && s[i] == 0
}

/// No code unit of `s` is 0.
pub open spec fn nul_free(s: Seq<u16>) -> bool {
    forall|i: int| 0 <= i < s.len() ==> s[i] != 0
}

/// `s` ends in exactly one terminator: its last code unit is 0 and no
/// earlier one is.
pub open spec fn is_terminated(s: Seq<u16>) -> bool {
    &&& s.len() >= 1
    &&& s.last() == 0
    &&& nul_free(s.drop_last())
}

/// The text of a terminated buffer: everything before the terminator.
pub open spec fn payload_of(s: Seq<u16>) -> Seq<u16> {
    s.drop_last()
}

} // verus!
