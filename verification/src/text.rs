//! Text as the bytes that a sink receives.

use vstd::prelude::*;
use vstd::utf8::{encode_utf8, is_ascii_chars, is_ascii_chars_encode_utf8};

verus! {

/// The bytes of a text: its UTF-8 encoding.
pub open spec fn bytes_of(text: Seq<char>) -> Seq<u8> {
    encode_utf8(text)
}

/// The UTF-8 encoding of a concatenation is the concatenation of the encodings.
pub proof fn lemma_bytes_of_concat(a: Seq<char>, b: Seq<char>)
    ensures
        bytes_of(a + b) == bytes_of(a) + bytes_of(b),
    decreases a.len(),
{
    if a.len() == 0 {
        assert(a + b =~= b);
        assert(bytes_of(a) + bytes_of(b) =~= bytes_of(b));
    } else {
        lemma_bytes_of_concat(a.drop_first(), b);
        assert((a + b).drop_first() =~= a.drop_first() + b);
        assert(bytes_of(a + b) =~= bytes_of(a) + bytes_of(b));
    }
}

/// An ASCII character is encoded as the one byte of its own number.
pub proof fn lemma_bytes_of_ascii(c: char)
    requires
        c <= '\u{7f}',
    ensures
        bytes_of(seq![c]) == seq![c as u8],
{
    let chars = seq![c];
    assert(is_ascii_chars(chars));
    is_ascii_chars_encode_utf8(chars);
    assert(chars[0] == c);
    assert(bytes_of(chars) =~= seq![c as u8]);
}

/// Appends the bytes of `s` to `out`.
pub(crate) fn push_str(out: &mut Vec<u8>, s: &str)
    ensures
        final(out)@ == old(out)@ + bytes_of(s@),
{
    out.extend_from_slice(s.as_bytes());
    assert(out@ =~= old(out)@ + bytes_of(s@));
}

/// Appends one ASCII character to `out`.
pub(crate) fn push_ascii(out: &mut Vec<u8>, b: u8)
    requires
        b <= 0x7f,
    ensures
        final(out)@ == old(out)@ + bytes_of(seq![b as char]),
{
    out.push(b);
    proof {
        lemma_bytes_of_ascii(b as char);
        assert(out@ =~= old(out)@ + seq![b]);
    }
}

} // verus!
