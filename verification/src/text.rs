//! Small text helpers for log messages.

use vstd::prelude::*;
use vstd::string::StringSliceAdditionalSpecFns;
use vstd::utf8::{
    decode_utf8, encode_utf8, encode_utf8_decode_utf8, encode_utf8_valid_utf8,
    is_char_boundary, length_of_first_scalar, pop_first_scalar, valid_first_scalar,
    valid_utf8,
};

verus! {

broadcast use
    vstd::string::next_postcondition,
    vstd::string::axiom_spec_iter,
    vstd::string::group_string_axioms,
    encode_utf8_valid_utf8;

/// The Unicode uppercase mapping of one character: one or more characters,
/// depending on the character alone.
pub uninterp spec fn upper_of(c: char) -> Seq<char>;

/// Relies on char::to_uppercase: yields the Unicode uppercase mapping of
/// the character as one or more characters, a function of the character
/// alone.
#[verifier::external_body]
fn unicode_upper(c: char) -> (r: String)
    ensures
        r@ == upper_of(c),
        r@.len() >= 1,
{
    c.to_uppercase().collect()
}

/// A string with its first character replaced by that character's Unicode
/// uppercase mapping, the rest unchanged.
pub open spec fn spec_capitalize(s: Seq<char>) -> Seq<char> {
    if s.len() == 0 {
        s
    } else {
        upper_of(s[0]) + s.skip(1)
    }
}

/// A nonempty string's encoding starts with its first character's scalar:
/// the scalar's width is the first character boundary after zero, and
/// everything past it encodes the remaining characters.
proof fn lemma_first_char_encoding(chars: Seq<char>)
    requires
        chars.len() > 0,
    ensures
        ({
            let bytes = encode_utf8(chars);
            let len1 = length_of_first_scalar(bytes);
            &&& 1 <= len1 <= 4
            &&& len1 <= bytes.len()
            &&& forall|i: int| 0 < i < len1 ==> !is_char_boundary(bytes, i)
            &&& is_char_boundary(bytes, len1)
            &&& decode_utf8(bytes.subrange(len1, bytes.len() as int)) == chars.skip(1)
        }),
{
    let bytes = encode_utf8(chars);
    assert(valid_utf8(bytes));
    assert(bytes =~= vstd::utf8::encode_scalar(chars[0] as u32) + encode_utf8(
        chars.drop_first(),
    ));
    assert(bytes.len() > 0);
    assert(valid_first_scalar(bytes));
    let len1 = length_of_first_scalar(bytes);
    assert(1 <= len1 <= 4);
    assert(len1 <= bytes.len());
    reveal_with_fuel(is_char_boundary, 2);
    assert(is_char_boundary(bytes, len1));
    assert forall|i: int| 0 < i < len1 implies !is_char_boundary(bytes, i) by {
        assert(i - len1 < 0);
    }
    encode_utf8_decode_utf8(chars);
    assert(decode_utf8(bytes) == chars);
    assert(pop_first_scalar(bytes) == bytes.subrange(len1, bytes.len() as int));
    assert(decode_utf8(bytes) =~= seq![
        vstd::utf8::decode_first_scalar(bytes) as char,
    ] + decode_utf8(pop_first_scalar(bytes)));
    assert(decode_utf8(pop_first_scalar(bytes)) =~= chars.skip(1));
}

/// Capitalizes a string: the first character becomes its Unicode uppercase
/// mapping (possibly several characters) and the rest is unchanged; the
/// empty string comes back empty.
pub fn capitalize(s: &str) -> (r: String)
    ensures
        r@ == spec_capitalize(s@),
{
    let mut it = s.chars();
    let first = it.next();
    let c = match first {
        None => {
            let r = String::new();
            proof {
                assert(r@ =~= s@);
            }
            return r;
        },
        Some(c) => c,
    };
    proof {
        assert(s@.len() > 0 && c == s@[0]);
        lemma_first_char_encoding(s@);
    }
    let mut flen: usize = 1;
    while flen < 4 && !s.is_char_boundary(flen)
        invariant
            1 <= flen <= 4,
            s@.len() > 0,
            forall|i: int| 0 < i < flen ==> !is_char_boundary(s.spec_bytes(), i),
        decreases 4 - flen,
    {
        flen = flen + 1;
    }
    proof {
        lemma_first_char_encoding(s@);
        let len1 = length_of_first_scalar(s.spec_bytes());
        // The first boundary after zero is exactly the first scalar's width:
        // boundaries below it are ruled out, so the probe cannot stop short,
        // and it cannot pass it because the width itself is a boundary.
        assert(len1 >= flen);
        if flen < 4 {
            assert(is_char_boundary(s.spec_bytes(), flen as int));
            assert(flen as int == len1);
        } else {
            assert(len1 == 4);
            assert(is_char_boundary(s.spec_bytes(), flen as int));
        }
    }
    let (_first_part, rest) = s.split_at(flen);
    proof {
        let len1 = length_of_first_scalar(s.spec_bytes());
        assert(rest.spec_bytes() =~= s.spec_bytes().subrange(
            len1,
            s.spec_bytes().len() as int,
        ));
        encode_utf8_decode_utf8(rest@);
        assert(decode_utf8(rest.spec_bytes()) == rest@);
        assert(rest@ =~= s@.skip(1));
    }
    let mut out = unicode_upper(c);
    out.append(rest);
    proof {
        assert(out@ =~= spec_capitalize(s@));
    }
    out
}

} // verus!
