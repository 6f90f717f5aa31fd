//! The owned buffer, and the validating encoder that fills it.

use vstd::prelude::*;
use crate::str16::Str16;
use crate::units::is_terminated;

verus! {

/// Why a native string cannot be stored as a [`String16`].
#[derive(Debug)]
pub enum TryFromString16Error {
    /// The string holds a surrogate code point.
    Surrogate,
    /// The string holds a code point of the private use area.
    Private,
    /// The string holds a code point beyond the basic multilingual plane.
    OutOfRange,
    /// The string holds the code point 0.
    Nul,
}

/// The reason for which the code point `cp` is refused, or `None` where it
/// is accepted.
pub open spec fn rejection(cp: u32) -> Option<TryFromString16Error> {
    if cp == 0 {
        Some(TryFromString16Error::Nul)
    } else if cp <= 0xD7FF {
        None
    } else if cp <= 0xDFFF {
        Some(TryFromString16Error::Surrogate)
    } else if cp <= 0xF8FF {
        Some(TryFromString16Error::Private)
    } else if cp <= 0xFFFF {
        None
    } else {
        Some(TryFromString16Error::OutOfRange)
    }
}

/// `c` can be stored: it lies in the basic multilingual plane and is neither
/// 0, nor a surrogate, nor of the private use area.
pub open spec fn is_accepted(c: char) -> bool {
    rejection(c as u32) is None
}

/// Every character of `text` can be stored.
pub open spec fn all_accepted(text: Seq<char>) -> bool {
    forall|i: int| 0 <= i < text.len() ==> is_accepted(#[trigger] text[i])
}

/// The first character of `text` that cannot be stored stands at `n`.
pub open spec fn first_rejected_at(text: Seq<char>, n: int) -> bool {
    &&& 0 <= n < text.len()
    &&& !is_accepted(text[n])
    &&& all_accepted(text.take(n))
}

/// One code unit per character of `text`, each holding its code point.
pub open spec fn code_units(text: Seq<char>) -> Seq<u16> {
    Seq::new(text.len(), |i: int| text[i] as u16)
}

/// The buffer that stores `text`: its code units and one terminator.
pub open spec fn encoded(text: Seq<char>) -> Seq<u16> {
    code_units(text).push(0)
}

/// An accepted character fits in one code unit, which is not 0.
pub proof fn lemma_unit_of_accepted(c: char)
    requires
        is_accepted(c),
    ensures
        (c as u16) as u32 == c as u32,
        c as u16 != 0,
        (c as u16) as char == c,
{
    let cp = c as u32;
    assert(cp as char == c);
}

/// The buffer of an accepted text ends in its only 0.
pub proof fn lemma_encoded_is_terminated(text: Seq<char>)
    requires
        all_accepted(text),
    ensures
        is_terminated(encoded(text)),
{
    let units = code_units(text);
    assert(encoded(text).drop_last() =~= units);
    assert forall|i: int| 0 <= i < units.len() implies units[i] != 0 by {
        assert(is_accepted(text[i]));
        lemma_unit_of_accepted(text[i]);
    }
}

/// Classifies one code point: the code unit that stores it, or the reason
/// for which it is refused.
pub fn encode_code_point(cp: u32) -> (r: Result<u16, TryFromString16Error>)
    ensures
        match rejection(cp) {
            None => r == Ok::<u16, TryFromString16Error>(cp as u16) && cp <= 0xFFFF,
            Some(e) => r == Err::<u16, TryFromString16Error>(e),
        },
{
    if cp == 0 {
        Err(TryFromString16Error::Nul)
    } else if cp <= 0xD7FF {
        Ok(cp as u16)
    } else if cp <= 0xDFFF {
        Err(TryFromString16Error::Surrogate)
    } else if cp <= 0xF8FF {
        Err(TryFromString16Error::Private)
    } else if cp <= 0xFFFF {
        Ok(cp as u16)
    } else {
        Err(TryFromString16Error::OutOfRange)
    }
}

/// An owned, nul-terminated string of 16-bit code units.
///
/// The buffer always holds the text followed by exactly one terminator, and
/// no other 0.
pub struct String16 {
    inner: Vec<u16>,
}

impl View for String16 {
    type V = Seq<u16>;

    /// All code units of the buffer, the terminator included.
    closed spec fn view(&self) -> Seq<u16> {
        self.inner@
    }
}

impl String16 {
    #[verifier::type_invariant]
    spec fn terminated(&self) -> bool {
        is_terminated(self.inner@)
    }

    /// The borrowed view over the whole buffer, text and terminator.
    pub fn deref(&self) -> (r: Str16<'_>)
        ensures
            r@ == self@,
            is_terminated(r@),
    {
        proof {
            use_type_invariant(self);
        }
        Str16::from_u16_slice(self.inner.as_slice())
    }
}

impl<'a> TryFrom<&'a str> for String16 {
    type Error = TryFromString16Error;

    /// Stores `input` as a nul-terminated buffer, one code unit per
    /// character.
    ///
    /// Succeeds exactly where every character is accepted. Otherwise the
    /// error is the reason for which the first refused character is refused,
    /// and no buffer comes back.
    fn try_from(input: &'a str) -> (r: Result<String16, TryFromString16Error>)
        ensures
            r is Ok <==> all_accepted(input@),
            match r {
                Ok(s) => s@ == encoded(input@) && is_terminated(s@),
                Err(e) => exists|n: int|
                    first_rejected_at(input@, n) && rejection(input@[n] as u32) == Some(e),
            },
    {
        let bytes: usize = input.len();
        let mut output: Vec<u16> = if bytes < usize::MAX {
            Vec::with_capacity(bytes + 1)
        } else {
            Vec::new()
        };
        for c in it: input.chars()
            invariant
                it.seq() == input@,
                all_accepted(input@.take(it.index() as int)),
                output@ == code_units(input@.take(it.index() as int)),
        {
            let ghost n = it.index() as int;
            match encode_code_point(c as u32) {
                Ok(unit) => {
                    output.push(unit);
                    proof {
                        lemma_unit_of_accepted(c);
                        assert(input@.take(n + 1) =~= input@.take(n).push(c));
                        assert(output@ =~= code_units(input@.take(n + 1)));
                    }
                },
                Err(e) => {
                    assert(first_rejected_at(input@, n));
                    return Err(e);
                },
            }
        }
        proof {
            assert(input@.take(input@.len() as int) =~= input@);
            lemma_encoded_is_terminated(input@);
        }
        output.push(0);
        Ok(String16 { inner: output })
    }
}

/// No spec expression can build the buffer that a successful conversion
/// returns, so the conversion is not described by a spec function: what it
/// returns is stated on `try_from` itself, over the buffer's view.
impl<'a> vstd::std_specs::convert::TryFromSpecImpl<&'a str> for String16 {
    open spec fn obeys_try_from_spec() -> bool {
        false
    }

    open spec fn try_from_spec(v: &'a str) -> Result<Self, Self::Error> {
        arbitrary()
    }
}

} // verus!
