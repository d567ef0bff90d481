//! The textual view of an input, and the small operations on it.

use vstd::prelude::*;
use vstd::utf8::*;

verus! {

/// The grouping separator, which the parser ignores wherever it stands.
pub const UNDERSCORE: u8 = 0x5f;

/// The text that `String::from_utf8_lossy` makes of bytes.
pub uninterp spec fn lossy_text(data: Seq<u8>) -> Seq<char>;

/// The text that an input is read as: the text it encodes where it is valid
/// UTF-8, else the text after the lossy replacement of what is invalid.
pub open spec fn text_of(data: Seq<u8>) -> Seq<char> {
    if valid_utf8(data) {
        decode_utf8(data)
    } else {
        lossy_text(data)
    }
}

/// The bytes of the text that an input is read as: the input itself where it
/// is valid UTF-8.
pub open spec fn text_bytes(data: Seq<u8>) -> Seq<u8> {
    if valid_utf8(data) {
        data
    } else {
        encode_utf8(lossy_text(data))
    }
}

/// `s` without its underscores.
pub open spec fn strip_underscores(s: Seq<u8>) -> Seq<u8>
    decreases s.len(),
{
    if s.len() == 0 {
        s
    } else if s.last() == UNDERSCORE {
        strip_underscores(s.drop_last())
    } else {
        strip_underscores(s.drop_last()).push(s.last())
    }
}

/// `t` begins with `p`.
pub open spec fn has_prefix(t: Seq<u8>, p: Seq<u8>) -> bool {
    p.len() <= t.len() && t.take(p.len() as int) == p
}

/// Every byte is ASCII.
pub open spec fn is_ascii_bytes(b: Seq<u8>) -> bool {
    forall|i: int| 0 <= i < b.len() ==> #[trigger] b[i] < 0x80
}

/// The characters that ASCII bytes write, one for each byte.
pub open spec fn ascii_chars(b: Seq<u8>) -> Seq<char> {
    Seq::new(b.len(), |i: int| b[i] as char)
}

/// ASCII bytes are valid UTF-8: they are their own textual view, and the text
/// has one character for each byte.
pub proof fn lemma_ascii_text(b: Seq<u8>)
    requires
        is_ascii_bytes(b),
    ensures
        valid_utf8(b),
        text_bytes(b) == b,
        text_of(b) == ascii_chars(b),
{
    let chars = ascii_chars(b);
    assert(is_ascii_chars(chars));
    is_ascii_chars_encode_utf8(chars);
    assert(encode_utf8(chars) =~= b);
    encode_utf8_valid_utf8(chars);
    encode_utf8_decode_utf8(chars);
}

/// Stripping leaves a text without underscores as it is.
pub proof fn lemma_strip_nothing(s: Seq<u8>)
    requires
        forall|i: int| 0 <= i < s.len() ==> #[trigger] s[i] != UNDERSCORE,
    ensures
        strip_underscores(s) == s,
    decreases s.len(),
{
    if s.len() > 0 {
        lemma_strip_nothing(s.drop_last());
        assert(s.drop_last().push(s.last()) =~= s);
    }
}

/// Calls `String::from_utf8_lossy`, which returns valid UTF-8 unchanged and
/// replaces each invalid sequence by U+FFFD.
#[verifier::external_body]
pub(crate) fn utf8_lossy(data: &[u8]) -> (s: String)
    ensures
        s@ == lossy_text(data@),
        valid_utf8(data@) ==> s@ == decode_utf8(data@),
{
    String::from_utf8_lossy(data).into_owned()
}

/// The text that bytes are read as; it never fails.
pub fn to_text(data: &[u8]) -> (s: String)
    ensures
        s@ == text_of(data@),
        encode_utf8(s@) == text_bytes(data@),
{
    let s = utf8_lossy(data);
    proof {
        if valid_utf8(data@) {
            decode_utf8_encode_utf8(data@);
        }
    }
    s
}

/// Copies `s` without its underscores.
pub fn without_underscores(s: &[u8]) -> (r: Vec<u8>)
    ensures
        r@ == strip_underscores(s@),
{
    let mut r: Vec<u8> = Vec::new();
    let mut i: usize = 0;
    assert(s@.take(0) =~= Seq::<u8>::empty());
    while i < s.len()
        invariant
            i <= s.len(),
            r@ == strip_underscores(s@.take(i as int)),
        decreases s.len() - i,
    {
        assert(s@.take(i + 1).drop_last() =~= s@.take(i as int));
        if s[i] != UNDERSCORE {
            r.push(s[i]);
        }
        i += 1;
    }
    assert(s@.take(i as int) =~= s@);
    r
}

/// Whether `t` begins with `p`.
pub fn starts_with(t: &[u8], p: &[u8]) -> (r: bool)
    ensures
        r == has_prefix(t@, p@),
{
    if p.len() > t.len() {
        return false;
    }
    let mut i: usize = 0;
    while i < p.len()
        invariant
            i <= p.len() <= t.len(),
            forall|j: int| 0 <= j < i ==> t@[j] == p@[j],
        decreases p.len() - i,
    {
        if t[i] != p[i] {
            assert(t@.take(p@.len() as int)[i as int] != p@[i as int]);
            return false;
        }
        i += 1;
    }
    assert(t@.take(p@.len() as int) =~= p@);
    true
}

} // verus!
