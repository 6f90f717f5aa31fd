//! Laws that relate encoding, decoding and projection.

use vstd::prelude::*;
use crate::str16::Str16;
use crate::string16::{
    all_accepted, code_units, encoded, first_rejected_at, is_accepted,
    lemma_encoded_is_terminated, lemma_unit_of_accepted,
};
use crate::string16::String16;
use crate::units::{is_terminated, payload_of};
use crate::utf16::{is_surrogate, utf16_decoded};

verus! {

/// Round trip: the buffer that stores an accepted text decodes to that text
/// exactly.
pub proof fn lemma_round_trip(text: Seq<char>)
    requires
        all_accepted(text),
    ensures
        is_terminated(encoded(text)),
        utf16_decoded(payload_of(encoded(text))) == Some(text),
{
    lemma_encoded_is_terminated(text);
    assert(payload_of(encoded(text)) =~= code_units(text));
    lemma_code_units_decode(text);
}

/// The code units of an accepted text are well-formed UTF-16 and decode to
/// the text.
pub proof fn lemma_code_units_decode(text: Seq<char>)
    requires
        all_accepted(text),
    ensures
        utf16_decoded(code_units(text)) == Some(text),
    decreases text.len(),
{
    let units = code_units(text);
    if text.len() == 0 {
        assert(text =~= Seq::<char>::empty());
    } else {
        let c = text[0];
        let rest = text.skip(1);
        assert(is_accepted(c));
        lemma_unit_of_accepted(c);
        assert(!is_surrogate(units[0]));
        assert((units[0] as char) == c);
        assert(units.skip(1) =~= code_units(rest));
        assert forall|i: int| 0 <= i < rest.len() implies is_accepted(#[trigger] rest[i]) by {
            assert(rest[i] == text[i + 1]);
        }
        lemma_code_units_decode(rest);
        assert(seq![c] + rest =~= text);
    }
}

/// The error of a refused text is determined: the first refused character
/// stands at one place only, and a text has one exactly where not all of its
/// characters are accepted.
pub proof fn lemma_first_rejection_unique(text: Seq<char>, n: int, m: int)
    requires
        first_rejected_at(text, n),
        first_rejected_at(text, m),
    ensures
        n == m,
        !all_accepted(text),
{
    if n < m {
        assert(text.take(m)[n] == text[n]);
    } else if m < n {
        assert(text.take(n)[m] == text[m]);
    }
}

/// The terminated prefix of a buffer is unique: two prefixes of the same
/// buffer that both end in their only 0 have the same length. So the view
/// that a scan from the start of a buffer gives is determined by the buffer.
pub proof fn lemma_terminated_prefix_unique(buf: Seq<u16>, a: int, b: int)
    requires
        0 <= a <= buf.len(),
        0 <= b <= buf.len(),
        is_terminated(buf.take(a)),
        is_terminated(buf.take(b)),
    ensures
        a == b,
{
    if a < b {
        assert(buf.take(b).drop_last()[a - 1] == buf.take(a).last());
    } else if b < a {
        assert(buf.take(a).drop_last()[b - 1] == buf.take(b).last());
    }
}

/// Projection is stable: two views taken of the same buffer are the same
/// view, with the same length, the same code units and the same payload.
pub proof fn lemma_projection_stable<'a>(owner: String16, first: Str16<'a>, second: Str16<'a>)
    requires
        first@ == owner@,
        second@ == owner@,
    ensures
        first == second,
        first@.len() == second@.len(),
        first@ == second@,
        first.payload() == second.payload(),
{
    first.lemma_equal_by_units(second);
}

} // verus!
