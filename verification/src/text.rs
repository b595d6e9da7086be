//! Text as the game hands it over: bytes read as UTF-8, and names put in
//! upper case before they are compared.

use vstd::prelude::*;
use vstd::utf8::{decode_utf8, encode_utf8, is_ascii_chars, valid_utf8};

verus! {

/// What `str::to_uppercase` makes of a string: its upper case by the Unicode
/// case mapping.
pub uninterp spec fn str_uppercase(s: Seq<char>) -> Seq<char>;

/// An ASCII character in upper case: `a` to `z` become `A` to `Z`, every
/// other character stays.
pub open spec fn ascii_upper_char(c: char) -> char {
    if 'a' <= c <= 'z' {
        ((c as u32) - 32) as char
    } else {
        c
    }
}

/// Characters each put in upper case by `ascii_upper_char`.
pub open spec fn ascii_uppercase(s: Seq<char>) -> Seq<char> {
    Seq::new(s.len(), |i: int| ascii_upper_char(s[i]))
}

/// A byte in ASCII upper case: `a` to `z` become `A` to `Z`.
pub open spec fn ascii_upper_byte(b: u8) -> u8 {
    if 97 <= b <= 122 {
        (b - 32) as u8
    } else {
        b
    }
}

/// Bytes each put in ASCII upper case.
pub open spec fn ascii_upper_bytes(s: Seq<u8>) -> Seq<u8> {
    Seq::new(s.len(), |i: int| ascii_upper_byte(s[i]))
}

/// Whether every byte is ASCII.
pub open spec fn ascii_bytes(s: Seq<u8>) -> bool {
    forall|i: int| 0 <= i < s.len() ==> s[i] < 128
}

/// The text of bytes, where they are UTF-8: `std::str::from_utf8`. std
/// documents that it succeeds exactly on valid UTF-8, giving the string the
/// bytes encode.
#[verifier::external_body]
pub(crate) fn utf8_str(bytes: &[u8]) -> (r: Option<&str>)
    ensures
        r is Some == valid_utf8(bytes@),
        r matches Some(s) ==> s@ == decode_utf8(bytes@),
{
    std::str::from_utf8(bytes).ok()
}

/// `str::to_uppercase`: the string in upper case by the Unicode case
/// mapping, named `str_uppercase`. Of its value only the ASCII case is
/// claimed: the Unicode upper case of an ASCII letter `a` to `z` is `A` to
/// `Z`, and every other ASCII character is its own upper case.
#[verifier::external_body]
pub(crate) fn to_uppercase(s: &str) -> (r: String)
    ensures
        r@ == str_uppercase(s@),
        is_ascii_chars(s@) ==> r@ == ascii_uppercase(s@),
{
    s.to_uppercase()
}

/// The bytes of a name put in upper case as `str::to_uppercase` does, where
/// the name is UTF-8.
pub open spec fn upper_name(name: Seq<u8>) -> Option<Seq<u8>> {
    if valid_utf8(name) {
        Some(encode_utf8(str_uppercase(decode_utf8(name))))
    } else {
        None
    }
}

proof fn lemma_ascii_text(name: Seq<u8>)
    requires
        ascii_bytes(name),
    ensures
        valid_utf8(name),
        is_ascii_chars(decode_utf8(name)),
        decode_utf8(name) == Seq::new(name.len(), |i: int| name[i] as char),
{
    let c = Seq::new(name.len(), |i: int| name[i] as char);
    assert(is_ascii_chars(c));
    vstd::utf8::is_ascii_chars_encode_utf8(c);
    assert(encode_utf8(c) =~= name);
    vstd::utf8::encode_utf8_valid_utf8(c);
    vstd::utf8::encode_utf8_decode_utf8(c);
}

/// A name in upper case, as `str::to_uppercase` puts it; `None` for a name
/// that is not UTF-8. An ASCII name comes out in ASCII upper case.
pub fn uppercase_name(name: &[u8]) -> (r: Option<Vec<u8>>)
    ensures
        r is None == (upper_name(name@) is None),
        r matches Some(v) ==> upper_name(name@) == Some(v@),
        ascii_bytes(name@) ==> (r matches Some(v) && v@ == ascii_upper_bytes(name@)),
{
    let s = match utf8_str(name) {
        Some(s) => s,
        None => {
            proof {
                if ascii_bytes(name@) {
                    lemma_ascii_text(name@);
                }
            }
            return None;
        },
    };
    let upper = to_uppercase(s);
    let bytes: &[u8] = upper.as_str().as_bytes();
    let mut v: Vec<u8> = Vec::new();
    let mut i: usize = 0;
    while i < bytes.len()
        invariant
            i <= bytes@.len(),
            v@ == bytes@.take(i as int),
        decreases bytes@.len() - i,
    {
        v.push(bytes[i]);
        i = i + 1;
        assert(v@ =~= bytes@.take(i as int));
    }
    assert(v@ =~= bytes@);
    proof {
        if ascii_bytes(name@) {
            lemma_ascii_text(name@);
            let up = ascii_uppercase(s@);
            assert(is_ascii_chars(up)) by {
                assert forall|k: int| 0 <= k < up.len() implies '\0' <= #[trigger] up[k] <= '\u{7f}' by {
                    assert(s@[k] == name@[k] as char);
                }
            }
            vstd::utf8::is_ascii_chars_encode_utf8(up);
            assert forall|k: int| 0 <= k < v@.len() implies v@[k] == ascii_upper_bytes(name@)[k] by {
                assert(s@[k] == name@[k] as char);
                assert(up[k] as u8 == encode_utf8(up)[k]);
            }
            assert(v@ =~= ascii_upper_bytes(name@));
        }
    }
    Some(v)
}

} // verus!
