//! UTF-16 decoding of code units into native text.

use vstd::prelude::*;
use vstd::pervasive::unreached;

verus! {

/// `u` is the first half of a surrogate pair.
pub open spec fn is_high_surrogate(u: u16) -> bool {
    0xD800 <= u <= 0xDBFF
}

/// `u` is the second half of a surrogate pair.
pub open spec fn is_low_surrogate(u: u16) -> bool {
    0xDC00 <= u <= 0xDFFF
}

/// `u` is either half of a surrogate pair.
pub open spec fn is_surrogate(u: u16) -> bool {
    0xD800 <= u <= 0xDFFF
}

/// `x` is a Unicode scalar value: a code point that is no surrogate.
pub open spec fn is_scalar_value(x: u32) -> bool {
    x <= 0xD7FF || 0xE000 <= x <= 0x10FFFF
}

/// The supplementary-plane code point that the pair `hi`, `lo` encodes.
pub open spec fn pair_scalar(hi: u16, lo: u16) -> int {
    0x10000 + (hi - 0xD800) * 0x400 + (lo - 0xDC00)
}

/// Puts `c` in front of a decoded tail, if there is one.
pub open spec fn prepend(c: char, tail: Option<Seq<char>>) -> Option<Seq<char>> {
    match tail {
        Some(rest) => Some(seq![c] + rest),
        None => None,
    }
}

/// The text that `units` encodes in UTF-16, or `None` where `units` is not
/// well-formed: a unit outside the surrogate range stands for itself, a high
/// surrogate followed by a low one stands for a supplementary code point, and
/// any other surrogate is unpaired.
pub open spec fn utf16_decoded(units: Seq<u16>) -> Option<Seq<char>>
    decreases units.len(),
{
    if units.len() == 0 {
        Some(Seq::empty())
    } else if !is_surrogate(units[0]) {
        prepend(units[0] as char, utf16_decoded(units.skip(1)))
    } else if is_high_surrogate(units[0]) && units.len() >= 2 && is_low_surrogate(units[1]) {
        prepend(pair_scalar(units[0], units[1]) as char, utf16_decoded(units.skip(2)))
    } else {
        None
    }
}

/// `units` is well-formed UTF-16.
pub open spec fn is_well_formed_utf16(units: Seq<u16>) -> bool {
    utf16_decoded(units) is Some
}

/// `String::push` of the standard library: the string afterwards is the
/// string before with `ch` appended.
pub assume_specification[ String::push ](s: &mut String, ch: char)
    ensures
        final(s)@ == old(s)@.push(ch),
;

/// `char::from_u32` of the standard library: a scalar value comes back as the
/// `char` with that number, anything else as `None`.
pub assume_specification[ char::from_u32 ](i: u32) -> (r: Option<char>)
    ensures
        r == (if is_scalar_value(i) { Some(i as char) } else { None::<char> }),
;

/// Decodes `units` as UTF-16 into native text.
///
/// The whole UTF-16 repertoire is accepted, surrogate pairs included. The
/// result is `None` exactly where `units` holds an unpaired surrogate.
pub fn decode_utf16(units: &[u16]) -> (r: Option<String>)
    ensures
        match utf16_decoded(units@) {
            Some(text) => r is Some && r.unwrap()@ == text,
            None => r is None,
        },
{
    let mut out = String::new();
    let mut i: usize = 0;
    proof {
        assert(units@.skip(0) =~= units@);
        if let Some(text) = utf16_decoded(units@) {
            assert(out@ + text =~= text);
        }
    }
    while i < units.len()
        invariant
            i <= units@.len(),
            match utf16_decoded(units@.skip(i as int)) {
                Some(rest) => utf16_decoded(units@) == Some(out@ + rest),
                None => utf16_decoded(units@) is None,
            },
        decreases units@.len() - i,
    {
        let ghost here = units@.skip(i as int);
        let ghost before = out@;
        let u: u16 = units[i];
        let scalar: u32;
        let width: usize;
        if u < 0xD800 || u > 0xDFFF {
            scalar = u as u32;
            width = 1;
        } else if u <= 0xDBFF && i + 1 < units.len() && 0xDC00 <= units[i + 1] && units[i + 1] <= 0xDFFF {
            let lo: u16 = units[i + 1];
            scalar = 0x10000 + (u as u32 - 0xD800) * 0x400 + (lo as u32 - 0xDC00);
            width = 2;
        } else {
            return None;
        }
        match char::from_u32(scalar) {
            Some(c) => {
                out.push(c);
                i += width;
                proof {
                    let ghost rest = units@.skip(i as int);
                    assert(here.skip(width as int) =~= rest);
                    assert(utf16_decoded(here) == prepend(c, utf16_decoded(rest)));
                    if let Some(tail) = utf16_decoded(rest) {
                        assert(before + (seq![c] + tail) =~= before.push(c) + tail);
                    }
                }
            },
            None => {
                return unreached();
            },
        }
    }
    assert(units@.skip(i as int) =~= Seq::<u16>::empty());
    assert(out@ + Seq::<char>::empty() =~= out@);
    Some(out)
}

} // verus!
