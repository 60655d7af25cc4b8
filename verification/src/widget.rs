//! The in-memory surface: the line that a UI shows in place of a terminal.

use crate::stream::{Sink, Stream};
use crate::text::lemma_bytes_of_concat;
use vstd::prelude::*;
use vstd::string::StringSliceAdditionalSpecFns;
use vstd::utf8::{
    decode_utf8, decode_utf8_encode_utf8, encode_scalar, encode_utf8, encode_utf8_decode_utf8,
    encode_utf8_first_scalar, encode_utf8_valid_utf8, partial_valid_partial_invalid_utf8,
    valid_utf8,
};

verus! {

/// `core::str::Utf8Error`, the error of `core::str::from_utf8`. Nothing is
/// known of what it holds.
#[verifier::external_type_specification]
#[verifier::external_body]
pub struct ExUtf8Error(core::str::Utf8Error);

/// `core::str::from_utf8` accepts exactly the well-formed UTF-8 sequences,
/// and the string slice it gives back is made of the bytes it was given.
pub assume_specification[ core::str::from_utf8 ](v: &[u8]) -> (r: Result<
    &str,
    core::str::Utf8Error,
>)
    ensures
        r is Ok <==> valid_utf8(v@),
        r matches Ok(s) ==> s.spec_bytes() == v@,
;

/// The text that a surface holding `bytes` shows: the text that they encode,
/// and nothing where they are not well-formed UTF-8.
pub open spec fn shown_text(bytes: Seq<u8>) -> Seq<char> {
    if valid_utf8(bytes) {
        decode_utf8(bytes)
    } else {
        Seq::empty()
    }
}

/// A byte buffer that holds the line currently visible.
pub struct SpinnerWidget {
    value: Vec<u8>,
}

impl View for SpinnerWidget {
    type V = Seq<u8>;

    closed spec fn view(&self) -> Seq<u8> {
        self.value@
    }
}

impl Default for SpinnerWidget {
    fn default() -> (widget: Self)
        ensures
            widget@ == Seq::<u8>::empty(),
    {
        SpinnerWidget { value: Vec::new() }
    }
}

impl Clone for SpinnerWidget {
    fn clone(&self) -> (copy: Self)
        ensures
            copy@ == self@,
    {
        SpinnerWidget { value: self.value.clone() }
    }
}

impl SpinnerWidget {
    /// Empties the buffer.
    pub fn clear(&mut self)
        ensures
            final(self)@ == Seq::<u8>::empty(),
    {
        self.value.clear();
    }

    /// A stream that writes to a surface holding what this one holds.
    pub fn as_steam(&self) -> (stream: Stream)
        ensures
            stream@ == Sink::Surface(self@),
    {
        Stream::Ratatui(self.clone())
    }

    /// Appends `buf` and reports how many bytes were taken: all of them.
    pub fn write(&mut self, buf: &[u8]) -> (taken: usize)
        ensures
            taken == buf@.len(),
            final(self)@ == old(self)@ + buf@,
    {
        self.value.extend_from_slice(buf);
        assert(self.value@ =~= old(self).value@ + buf@);
        buf.len()
    }

    /// Does nothing: what was written is visible at once.
    pub fn flush(&mut self)
        ensures
            *final(self) == *old(self),
    {
    }

    /// The bytes held.
    pub fn as_bytes(&self) -> (bytes: &[u8])
        ensures
            bytes@ == self@,
    {
        self.value.as_slice()
    }

    /// The text to show.
    pub fn text(&self) -> (text: &str)
        ensures
            text@ == shown_text(self@),
    {
        match core::str::from_utf8(self.value.as_slice()) {
            Ok(text) => {
                proof {
                    encode_utf8_decode_utf8(text@);
                }
                text
            },
            Err(_) => {
                proof {
                    reveal_strlit("");
                }
                ""
            },
        }
    }
}

/// A surface that holds the bytes of a text shows that text.
pub proof fn lemma_text_is_shown(text: Seq<char>)
    ensures
        shown_text(encode_utf8(text)) == text,
{
    encode_utf8_valid_utf8(text);
    encode_utf8_decode_utf8(text);
}

/// Well-formed bytes after well-formed bytes show as the one text after the
/// other.
pub proof fn lemma_shown_text_concat(first: Seq<u8>, second: Seq<u8>)
    requires
        valid_utf8(first),
        valid_utf8(second),
    ensures
        valid_utf8(first + second),
        shown_text(first + second) == shown_text(first) + shown_text(second),
{
    let (a, b) = (decode_utf8(first), decode_utf8(second));
    decode_utf8_encode_utf8(first);
    decode_utf8_encode_utf8(second);
    lemma_bytes_of_concat(a, b);
    lemma_text_is_shown(a + b);
    encode_utf8_valid_utf8(a + b);
}

/// A text cut off inside the encoding of a character shows as nothing:
/// `text`, then the first `kept` bytes of `c`, with at least one byte of `c`
/// kept and at least one missing.
pub proof fn lemma_truncated_shows_nothing(text: Seq<char>, c: char, kept: int)
    requires
        0 < kept < encode_scalar(c as u32).len(),
    ensures
        !valid_utf8(encode_utf8(text) + encode_scalar(c as u32).subrange(0, kept)),
        shown_text(encode_utf8(text) + encode_scalar(c as u32).subrange(0, kept)) == Seq::<
            char,
        >::empty(),
{
    let whole = encode_scalar(c as u32);
    let part = whole.subrange(0, kept);
    let bytes = encode_utf8(text) + part;
    let at = encode_utf8(text).len() as int;
    encode_utf8_valid_utf8(text);
    let one = seq![c];
    encode_utf8_first_scalar(one);
    assert(one[0] == c);
    assert(one.drop_first() =~= Seq::<char>::empty());
    assert(encode_utf8(one) =~= whole + encode_utf8(one.drop_first()));
    assert(encode_utf8(one) =~= whole);
    assert(part[0] == whole[0]);
    assert(!valid_utf8(part));
    assert(bytes.subrange(0, at) =~= encode_utf8(text));
    assert(bytes.subrange(at, bytes.len() as int) =~= part);
    partial_valid_partial_invalid_utf8(bytes, at);
}

} // verus!
