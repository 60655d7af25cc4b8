//! The elapsed-time field of a timed tick: seconds with three decimals,
//! right-aligned in ten columns.

use crate::text::{bytes_of, lemma_bytes_of_concat, push_ascii};
use vstd::prelude::*;
use vstd::utf8::{is_ascii_chars, is_ascii_chars_encode_utf8};

verus! {

/// Columns that the field fills at least.
pub const FIELD_WIDTH: usize = 10;

/// The whole number of milliseconds nearest to `secs` seconds and `nanos`
/// nanoseconds; half-way between two, the even one.
pub open spec fn nearest_millis(secs: u64, nanos: u32) -> nat {
    let total = secs as nat * 1_000_000_000 + nanos as nat;
    let whole = total / 1_000_000;
    let rest = total % 1_000_000;
    if rest > 500_000 || (rest == 500_000 && whole % 2 == 1) {
        whole + 1
    } else {
        whole
    }
}

/// The character for one decimal digit.
pub open spec fn digit(d: nat) -> char
    recommends
        d < 10,
{
    (0x30 + d) as u8 as char
}

/// Whether `c` is one of `0` to `9`.
pub open spec fn is_digit(c: char) -> bool {
    '0' <= c <= '9'
}

/// The decimal numeral of `n`, without leading zeros.
pub open spec fn decimal(n: nat) -> Seq<char>
    decreases n,
{
    if n < 10 {
        seq![digit(n)]
    } else {
        decimal(n / 10).push(digit(n % 10))
    }
}

/// `millis` thousandths as a numeral with exactly three decimals.
pub open spec fn fixed3(millis: nat) -> Seq<char> {
    decimal(millis / 1000) + seq![
        '.',
        digit(millis / 100 % 10),
        digit(millis / 10 % 10),
        digit(millis % 10),
    ]
}

/// `text` with blanks in front until it fills `width` columns; unchanged if
/// it already does.
pub open spec fn right_aligned(text: Seq<char>, width: nat) -> Seq<char> {
    if text.len() >= width {
        text
    } else {
        Seq::new((width - text.len()) as nat, |i: int| ' ') + text
    }
}

/// The field that a timed tick shows for an elapsed time of `secs` seconds
/// and `nanos` nanoseconds.
pub open spec fn elapsed_field(secs: u64, nanos: u32) -> Seq<char> {
    right_aligned(fixed3(nearest_millis(secs, nanos)), FIELD_WIDTH as nat)
}

/// Rounds an elapsed time to whole milliseconds.
pub fn round_to_millis(secs: u64, nanos: u32) -> (millis: u128)
    ensures
        millis == nearest_millis(secs, nanos),
{
    let total: u128 = secs as u128 * 1_000_000_000 + nanos as u128;
    let whole: u128 = total / 1_000_000;
    let rest: u128 = total % 1_000_000;
    if rest > 500_000 || (rest == 500_000 && whole % 2 == 1) {
        whole + 1
    } else {
        whole
    }
}

fn push_digit(out: &mut Vec<u8>, d: u8)
    requires
        d < 10,
    ensures
        final(out)@ == old(out)@ + bytes_of(seq![digit(d as nat)]),
{
    push_ascii(out, 0x30 + d);
}

fn push_decimal(out: &mut Vec<u8>, n: u128)
    ensures
        final(out)@ == old(out)@ + bytes_of(decimal(n as nat)),
    decreases n,
{
    if n >= 10 {
        push_decimal(out, n / 10);
    }
    push_digit(out, (n % 10) as u8);
    proof {
        if n >= 10 {
            let head = decimal((n / 10) as nat);
            let last = seq![digit((n % 10) as nat)];
            lemma_bytes_of_concat(head, last);
            assert(decimal(n as nat) =~= head + last);
            assert(out@ =~= old(out)@ + bytes_of(decimal(n as nat)));
        }
    }
}

/// No whole number of milliseconds is nearer to the elapsed time than the one
/// chosen: it is at most half a millisecond away.
pub proof fn lemma_nearest_millis_is_nearest(secs: u64, nanos: u32)
    ensures
        ({
            let exact = secs * 1_000_000_000 + nanos;
            let shown = nearest_millis(secs, nanos) * 1_000_000;
            -500_000 <= shown - exact <= 500_000
        }),
{
}

/// A numeral holds digits only, and at least one.
pub proof fn lemma_decimal_digits(n: nat)
    ensures
        decimal(n).len() >= 1,
        forall|i: int| 0 <= i < decimal(n).len() ==> is_digit(#[trigger] decimal(n)[i]),
    decreases n,
{
    if n >= 10 {
        lemma_decimal_digits(n / 10);
    }
}

/// The shape of the field: at least ten columns; blanks, then digits, then a
/// point, then exactly three digits.
pub proof fn lemma_elapsed_field_shape(secs: u64, nanos: u32)
    ensures
        ({
            let field = elapsed_field(secs, nanos);
            let point = field.len() - 4;
            &&& field.len() >= FIELD_WIDTH
            &&& field[point] == '.'
            &&& forall|i: int| point < i < field.len() ==> is_digit(#[trigger] field[i])
            &&& is_digit(field[point - 1])
            &&& forall|i: int|
                0 <= i < point ==> is_digit(#[trigger] field[i]) || field[i] == ' '
            &&& forall|i: int, j: int|
                0 <= i < j < point && is_digit(#[trigger] field[i]) ==> is_digit(
                    #[trigger] field[j],
                )
        }),
{
    let millis = nearest_millis(secs, nanos);
    lemma_decimal_digits(millis / 1000);
}

/// The field is plain ASCII: one byte for each column.
pub proof fn lemma_elapsed_field_ascii(secs: u64, nanos: u32)
    ensures
        is_ascii_chars(elapsed_field(secs, nanos)),
        bytes_of(elapsed_field(secs, nanos)).len() == elapsed_field(secs, nanos).len(),
{
    lemma_elapsed_field_shape(secs, nanos);
    is_ascii_chars_encode_utf8(elapsed_field(secs, nanos));
}

/// Formats an elapsed time of `secs` seconds and `nanos` nanoseconds as the
/// field of a timed tick.
pub fn format_elapsed(secs: u64, nanos: u32) -> (out: Vec<u8>)
    ensures
        out@ == bytes_of(elapsed_field(secs, nanos)),
{
    let millis: u128 = round_to_millis(secs, nanos);
    let mut body: Vec<u8> = Vec::new();
    push_decimal(&mut body, millis / 1000);
    push_ascii(&mut body, 0x2e);
    push_digit(&mut body, (millis / 100 % 10) as u8);
    push_digit(&mut body, (millis / 10 % 10) as u8);
    push_digit(&mut body, (millis % 10) as u8);
    let ghost text = fixed3(millis as nat);
    proof {
        let whole = decimal((millis / 1000) as nat);
        let d2 = seq![digit((millis / 100 % 10) as nat)];
        let d1 = seq![digit((millis / 10 % 10) as nat)];
        let d0 = seq![digit((millis % 10) as nat)];
        lemma_bytes_of_concat(whole, seq!['.']);
        lemma_bytes_of_concat(whole + seq!['.'], d2);
        lemma_bytes_of_concat(whole + seq!['.'] + d2, d1);
        lemma_bytes_of_concat(whole + seq!['.'] + d2 + d1, d0);
        assert(text =~= whole + seq!['.'] + d2 + d1 + d0);
        assert(body@ =~= bytes_of(text));
        lemma_decimal_digits((millis / 1000) as nat);
        assert(is_ascii_chars(text));
        is_ascii_chars_encode_utf8(text);
    }
    let blanks: usize = if body.len() < FIELD_WIDTH {
        FIELD_WIDTH - body.len()
    } else {
        0
    };
    let mut out: Vec<u8> = Vec::new();
    let mut i: usize = 0;
    while i < blanks
        invariant
            i <= blanks,
            out@ == bytes_of(Seq::new(i as nat, |k: int| ' ')),
        decreases blanks - i,
    {
        push_ascii(&mut out, 0x20);
        proof {
            let before = Seq::new(i as nat, |k: int| ' ');
            lemma_bytes_of_concat(before, seq![' ']);
            assert(Seq::new((i + 1) as nat, |k: int| ' ') =~= before + seq![' ']);
        }
        i += 1;
    }
    out.append(&mut body);
    proof {
        let front = Seq::new(blanks as nat, |k: int| ' ');
        lemma_bytes_of_concat(front, text);
        assert(front + text =~= elapsed_field(secs, nanos));
    }
    out
}

} // verus!
