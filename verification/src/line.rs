//! The three shapes of a line: a plain tick, a timed tick, the final line.

use crate::elapsed::{elapsed_field, format_elapsed};
use crate::text::{bytes_of, lemma_bytes_of_ascii, lemma_bytes_of_concat, push_str};
use vstd::prelude::*;

verus! {

/// A plain tick: `<frame> <message>`.
pub open spec fn plain_text(frame: Seq<char>, message: Seq<char>) -> Seq<char> {
    frame + seq![' '] + message
}

/// A timed tick: a carriage return, the frame, the elapsed time in its
/// field, ` s`, a tab, the message.
pub open spec fn timed_text(frame: Seq<char>, message: Seq<char>, secs: u64, nanos: u32) -> Seq<
    char,
> {
    seq!['\r'] + frame + elapsed_field(secs, nanos) + seq![' ', 's', '\t'] + message
}

/// The final line. A symbol counts only beside a message.
pub open spec fn stop_text(message: Option<Seq<char>>, symbol: Option<Seq<char>>) -> Seq<char> {
    match (message, symbol) {
        (Some(message), Some(symbol)) => symbol + seq![' '] + message + seq!['\n'],
        (Some(message), None) => message + seq!['\n'],
        (None, _) => seq!['\n'],
    }
}

/// The text of an optional string slice.
pub open spec fn text_of(s: Option<&str>) -> Option<Seq<char>> {
    match s {
        Some(s) => Some(s@),
        None => None,
    }
}

/// The bytes of a plain tick, part by part.
pub proof fn lemma_plain_line_parts(frame: Seq<char>, message: Seq<char>)
    ensures
        bytes_of(plain_text(frame, message)) == bytes_of(frame) + seq![0x20u8] + bytes_of(message),
{
    lemma_bytes_of_ascii(' ');
    lemma_bytes_of_concat(frame, seq![' ']);
    lemma_bytes_of_concat(frame + seq![' '], message);
}

/// The bytes of a timed tick, part by part.
pub proof fn lemma_timed_line_parts(frame: Seq<char>, message: Seq<char>, secs: u64, nanos: u32)
    ensures
        bytes_of(timed_text(frame, message, secs, nanos)) == seq![0x0du8] + bytes_of(frame)
            + bytes_of(elapsed_field(secs, nanos)) + seq![0x20u8, 0x73u8, 0x09u8] + bytes_of(
            message,
        ),
{
    let field = elapsed_field(secs, nanos);
    let head = seq!['\r'] + frame + field;
    let unit = seq![' ', 's', '\t'];
    lemma_bytes_of_ascii('\r');
    lemma_bytes_of_ascii(' ');
    lemma_bytes_of_ascii('s');
    lemma_bytes_of_ascii('\t');
    lemma_bytes_of_concat(seq!['\r'], frame);
    lemma_bytes_of_concat(seq!['\r'] + frame, field);
    lemma_bytes_of_concat(seq![' '], seq!['s']);
    lemma_bytes_of_concat(seq![' ', 's'], seq!['\t']);
    assert(seq![' '] + seq!['s'] =~= seq![' ', 's']);
    assert(seq![' ', 's'] + seq!['\t'] =~= unit);
    assert(bytes_of(unit) =~= seq![0x20u8, 0x73u8, 0x09u8]);
    lemma_bytes_of_concat(head, unit);
    lemma_bytes_of_concat(head + unit, message);
}

/// The bytes of the final line, part by part.
pub proof fn lemma_stop_line_parts(message: Option<Seq<char>>, symbol: Option<Seq<char>>)
    ensures
        bytes_of(stop_text(message, symbol)) == match (message, symbol) {
            (Some(message), Some(symbol)) => bytes_of(symbol) + seq![0x20u8] + bytes_of(message)
                + seq![0x0au8],
            (Some(message), None) => bytes_of(message) + seq![0x0au8],
            (None, _) => seq![0x0au8],
        },
{
    lemma_bytes_of_ascii(' ');
    lemma_bytes_of_ascii('\n');
    match (message, symbol) {
        (Some(message), Some(symbol)) => {
            lemma_bytes_of_concat(symbol, seq![' ']);
            lemma_bytes_of_concat(symbol + seq![' '], message);
            lemma_bytes_of_concat(symbol + seq![' '] + message, seq!['\n']);
        },
        (Some(message), None) => {
            lemma_bytes_of_concat(message, seq!['\n']);
        },
        (None, _) => {},
    }
}

/// The bytes of a plain tick.
pub fn plain_line(frame: &str, message: &str) -> (line: Vec<u8>)
    ensures
        line@ == bytes_of(plain_text(frame@, message@)),
{
    let mut line: Vec<u8> = Vec::new();
    push_str(&mut line, frame);
    line.push(0x20);
    push_str(&mut line, message);
    proof {
        lemma_plain_line_parts(frame@, message@);
        assert(line@ =~= bytes_of(frame@) + seq![0x20u8] + bytes_of(message@));
    }
    line
}

/// The bytes of a timed tick, for an elapsed time of `secs` seconds and
/// `nanos` nanoseconds.
pub fn timed_line(frame: &str, message: &str, secs: u64, nanos: u32) -> (line: Vec<u8>)
    ensures
        line@ == bytes_of(timed_text(frame@, message@, secs, nanos)),
{
    let mut line: Vec<u8> = Vec::new();
    line.push(0x0d);
    push_str(&mut line, frame);
    let mut field = format_elapsed(secs, nanos);
    line.append(&mut field);
    line.push(0x20);
    line.push(0x73);
    line.push(0x09);
    push_str(&mut line, message);
    proof {
        lemma_timed_line_parts(frame@, message@, secs, nanos);
        assert(line@ =~= seq![0x0du8] + bytes_of(frame@) + bytes_of(elapsed_field(secs, nanos))
            + seq![0x20u8, 0x73u8, 0x09u8] + bytes_of(message@));
    }
    line
}

/// The bytes of the final line.
pub fn stop_line(message: Option<&str>, symbol: Option<&str>) -> (line: Vec<u8>)
    ensures
        line@ == bytes_of(stop_text(text_of(message), text_of(symbol))),
{
    let mut line: Vec<u8> = Vec::new();
    if let Some(message) = message {
        if let Some(symbol) = symbol {
            push_str(&mut line, symbol);
            line.push(0x20);
        }
        push_str(&mut line, message);
    }
    line.push(0x0a);
    proof {
        lemma_stop_line_parts(text_of(message), text_of(symbol));
        assert(line@ =~= bytes_of(stop_text(text_of(message), text_of(symbol))));
    }
    line
}

} // verus!
