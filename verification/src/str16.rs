//! The borrowed view over a nul-terminated buffer.

use vstd::prelude::*;
use vstd::slice::slice_subrange;
use vstd::pervasive::unreached;
use crate::units::{has_nul, nul_free, is_terminated, payload_of};
use crate::utf16::{decode_utf16, is_well_formed_utf16, utf16_decoded};

verus! {

/// A borrowed, nul-terminated string of 16-bit code units.
///
/// The view does not own its storage. It always covers the text followed by
/// exactly one terminator, and holds no other 0.
#[derive(Clone, Copy)]
pub struct Str16<'a> {
    inner: &'a [u16],
}

impl<'a> View for Str16<'a> {
    type V = Seq<u16>;

    /// All code units of the view, the terminator included.
    closed spec fn view(&self) -> Seq<u16> {
        self.inner@
    }
}

impl<'a> Str16<'a> {
    #[verifier::type_invariant]
    spec fn terminated(&self) -> bool {
        is_terminated(self.inner@)
    }

    /// The code units of the text, without the terminator.
    pub open spec fn payload(&self) -> Seq<u16> {
        payload_of(self@)
    }

    /// A view is nothing but the code units it covers: two views that cover
    /// the same code units are the same view.
    pub proof fn lemma_equal_by_units(self, other: Str16<'a>)
        requires
            self@ == other@,
        ensures
            self == other,
    {
        assert(self.inner =~= other.inner);
    }

    /// Views the nul-terminated string that starts at the beginning of
    /// `memory`.
    ///
    /// `memory` is what lies at the address of the string's first code unit.
    /// It must hold a terminator somewhere; what follows the first
    /// terminator is ignored. The view covers every code unit up to and
    /// including that terminator.
    pub fn from_ptr(memory: &'a [u16]) -> (r: Str16<'a>)
        requires
            has_nul(memory@),
        ensures
            is_terminated(r@),
            r@.len() <= memory@.len(),
            r@ == memory@.take(r@.len() as int),
    {
        let mut len: usize = 0;
        proof {
            assert(memory@.take(0) =~= Seq::<u16>::empty());
        }
        while memory[len] != 0
            invariant
                nul_free(memory@.take(len as int)),
                exists|k: int| len <= k < memory@.len() && memory@[k] == 0,
            decreases memory@.len() - len,
        {
            proof {
                let k = choose|k: int| len <= k < memory@.len() && memory@[k] == 0;
                assert(len + 1 <= k < memory@.len() && memory@[k] == 0);
                let seen = memory@.take(len as int);
                let next = memory@.take(len + 1);
                assert forall|i: int| 0 <= i < next.len() implies next[i] != 0 by {
                    if i < len {
                        assert(seen[i] == next[i]);
                    }
                }
            }
            len += 1;
        }
        let covered = slice_subrange(memory, 0, len + 1);
        proof {
            assert(covered@ =~= memory@.take(len + 1));
            assert(covered@.drop_last() =~= memory@.take(len as int));
        }
        Str16::from_u16_slice(covered)
    }

    /// Views a slice that is already known to end in its only 0.
    pub fn from_u16_slice(slice: &'a [u16]) -> (r: Str16<'a>)
        requires
            is_terminated(slice@),
        ensures
            r@ == slice@,
    {
        Str16 { inner: slice }
    }

    /// The storage that the view addresses: the text and its terminator,
    /// starting at the first code unit.
    pub fn as_ptr(&self) -> (r: &'a [u16])
        ensures
            r@ == self@,
            is_terminated(r@),
    {
        proof {
            use_type_invariant(self);
        }
        self.inner
    }

    /// The code units of the text, without the terminator.
    pub fn as_utf16(&self) -> (r: &'a [u16])
        ensures
            r@ == self.payload(),
            nul_free(r@),
            r@.len() + 1 == self@.len(),
    {
        proof {
            use_type_invariant(self);
        }
        let text = slice_subrange(self.inner, 0, self.inner.len() - 1);
        proof {
            assert(text@ =~= self.inner@.drop_last());
        }
        text
    }

    /// The text as a native string, or `None` where the payload is not
    /// well-formed UTF-16.
    ///
    /// Any well-formed payload is accepted, surrogate pairs included, not
    /// only what [`String16`](crate::string16::String16) can hold.
    pub fn try_to_string(&self) -> (r: Option<String>)
        ensures
            match utf16_decoded(self.payload()) {
                Some(text) => r is Some && r.unwrap()@ == text,
                None => r is None,
            },
    {
        decode_utf16(self.as_utf16())
    }

    /// The text as a native string, for a payload that is well-formed
    /// UTF-16.
    pub fn to_string(&self) -> (r: String)
        requires
            is_well_formed_utf16(self.payload()),
        ensures
            Some(r@) == utf16_decoded(self.payload()),
    {
        match self.try_to_string() {
            Some(text) => text,
            None => unreached(),
        }
    }
}

} // verus!
