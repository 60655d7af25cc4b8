//! The line protocol over the three sinks.
//!
//! A surface is written in place. What is meant for a process stream is handed
//! back as chunks: the caller writes each chunk whole and flushes it before
//! the next, and gives up at the first failure.

use crate::clock::{gap_between, measure};
use crate::line::{plain_line, plain_text, stop_line, stop_text, text_of, timed_line, timed_text};
use crate::text::{bytes_of, lemma_bytes_of_ascii};
use crate::widget::{lemma_shown_text_concat, lemma_text_is_shown, shown_text, SpinnerWidget};
use vstd::utf8::{encode_utf8_valid_utf8, valid_utf8};
use std::time::Instant;
use vstd::prelude::*;

verus! {

/// Carriage return: back to the first column.
pub open spec fn carriage_return() -> Seq<u8> {
    seq![0x0du8]
}

/// `ESC [ 2 K` and a carriage return: erase the whole line, back to the first
/// column.
pub open spec fn erase_sequence() -> Seq<u8> {
    seq![0x1bu8, 0x5bu8, 0x32u8, 0x4bu8, 0x0du8]
}

/// A sink as the protocol sees it: one of the two process streams, or a
/// surface with the bytes it holds.
pub enum Sink {
    /// The standard error of the process.
    Stderr,
    /// The standard output of the process.
    Stdout,
    /// A surface that holds these bytes.
    Surface(Seq<u8>),
}

/// What an operation leaves behind: the sink after it, and the chunks to put
/// on the process stream, in order.
pub struct Outcome {
    /// The sink after the operation.
    pub sink: Sink,
    /// The chunks for the process stream; none for a surface.
    pub sent: Seq<Seq<u8>>,
}

impl Outcome {
    /// This outcome and then `next`, which started from `self.sink`.
    pub open spec fn followed_by(self, next: Outcome) -> Outcome {
        Outcome { sink: next.sink, sent: self.sent + next.sent }
    }

    /// What stands on the line now: all that a surface holds, or the last
    /// chunk sent to a process stream.
    pub open spec fn line(self) -> Seq<u8> {
        match self.sink {
            Sink::Surface(held) => held,
            _ => self.sent.last(),
        }
    }
}

impl Sink {
    /// Whether `other` is the same sink: the same process stream, or a surface
    /// as this one is, whatever the two hold.
    pub open spec fn same_kind(self, other: Sink) -> bool {
        match self {
            Sink::Stderr => other is Stderr,
            Sink::Stdout => other is Stdout,
            Sink::Surface(_) => other is Surface,
        }
    }

    /// Taking in `bytes`: a surface holds them after what it held; a process
    /// stream is sent them.
    pub open spec fn take(self, bytes: Seq<u8>) -> Outcome {
        match self {
            Sink::Surface(held) => Outcome { sink: Sink::Surface(held + bytes), sent: seq![] },
            _ => Outcome { sink: self, sent: seq![bytes] },
        }
    }

    /// Going back to the start of the line: a surface is emptied; a process
    /// stream is sent a carriage return.
    pub open spec fn start_of_line(self) -> Outcome {
        match self {
            Sink::Surface(_) => Outcome { sink: Sink::Surface(Seq::empty()), sent: seq![] },
            _ => Outcome { sink: self, sent: seq![carriage_return()] },
        }
    }

    /// Erasing the line: a surface is emptied; a process stream is sent the
    /// erase sequence.
    pub open spec fn erase_line(self) -> Outcome {
        match self {
            Sink::Surface(_) => Outcome { sink: Sink::Surface(Seq::empty()), sent: seq![] },
            _ => Outcome { sink: self, sent: seq![erase_sequence()] },
        }
    }

    /// A plain tick: the line holds `<frame> <message>` and nothing else.
    pub open spec fn print(self, frame: Seq<char>, message: Seq<char>) -> Outcome {
        let line = bytes_of(plain_text(frame, message));
        match self {
            Sink::Surface(_) => Outcome { sink: Sink::Surface(line), sent: seq![] },
            _ => Outcome { sink: self, sent: seq![carriage_return(), line] },
        }
    }

    /// A timed tick: the timed line is taken in as it is; its own carriage
    /// return is all that sets it apart from what came before.
    pub open spec fn print_elapsed(
        self,
        frame: Seq<char>,
        message: Seq<char>,
        secs: u64,
        nanos: u32,
    ) -> Outcome {
        self.take(bytes_of(timed_text(frame, message, secs, nanos)))
    }

    /// A timed tick with the time from `start` to `end`.
    pub open spec fn print_between(
        self,
        frame: Seq<char>,
        message: Seq<char>,
        start: Instant,
        end: Instant,
    ) -> Outcome {
        let gap = gap_between(end, start);
        self.print_elapsed(frame, message, gap.0, gap.1)
    }

    /// The final line: with a message, the line is erased first; without one,
    /// a line break is all.
    pub open spec fn stop(self, message: Option<Seq<char>>, symbol: Option<Seq<char>>) -> Outcome {
        let line = bytes_of(stop_text(message, symbol));
        match (self, message) {
            (_, None) => self.take(line),
            (Sink::Surface(_), Some(_)) => Outcome { sink: Sink::Surface(line), sent: seq![] },
            (_, Some(_)) => Outcome { sink: self, sent: seq![erase_sequence(), line] },
        }
    }
}

/// Where a spinner's output goes. It is chosen once and stays.
pub enum Stream {
    /// The standard error of the process.
    Stderr,
    /// The standard output of the process.
    Stdout,
    /// A surface in memory, for a terminal UI to draw.
    Ratatui(SpinnerWidget),
}

impl View for Stream {
    type V = Sink;

    open spec fn view(&self) -> Sink {
        match self {
            Stream::Stderr => Sink::Stderr,
            Stream::Stdout => Sink::Stdout,
            Stream::Ratatui(widget) => Sink::Surface(widget@),
        }
    }
}

/// The chunks as plain byte sequences.
pub open spec fn chunks(sent: Vec<Vec<u8>>) -> Seq<Seq<u8>> {
    sent@.map_values(|chunk: Vec<u8>| chunk@)
}

/// What an operation has left behind that ends with the stream as `after`
/// and hands back `sent`.
pub open spec fn outcome(after: Stream, sent: Vec<Vec<u8>>) -> Outcome {
    Outcome { sink: after@, sent: chunks(sent) }
}

impl Default for Stream {
    fn default() -> (stream: Self)
        ensures
            stream == Stream::Stderr,
    {
        Stream::Stderr
    }
}

impl Clone for Stream {
    fn clone(&self) -> (copy: Self)
        ensures
            copy@ == self@,
    {
        match self {
            Stream::Stderr => Stream::Stderr,
            Stream::Stdout => Stream::Stdout,
            Stream::Ratatui(widget) => Stream::Ratatui(widget.clone()),
        }
    }
}

impl Stream {
    /// The surface that this stream writes to, if it writes to one.
    pub fn surface(&self) -> (surface: Option<&SpinnerWidget>)
        ensures
            match surface {
                Some(widget) => self@ == Sink::Surface(widget@),
                None => !(self@ is Surface),
            },
    {
        match self {
            Stream::Ratatui(widget) => Some(widget),
            _ => None,
        }
    }

    /// One tick: the frame and the message, as a plain tick where no
    /// `start_time` is given, else as a timed tick with the time elapsed from
    /// `start_time` to `stop_time`, or to now.
    pub fn write(
        &mut self,
        frame: &str,
        message: &str,
        start_time: Option<Instant>,
        stop_time: Option<Instant>,
    ) -> (sent: Vec<Vec<u8>>)
        ensures
            start_time is None ==> outcome(*final(self), sent) == old(self)@.print(
                frame@,
                message@,
            ),
            start_time is Some ==> exists|secs: u64, nanos: u32|
                nanos < 1_000_000_000 && outcome(*final(self), sent) == #[trigger] old(
                    self,
                )@.print_elapsed(frame@, message@, secs, nanos),
            start_time matches Some(start) ==> match stop_time {
                Some(stop) => outcome(*final(self), sent) == old(self)@.print_between(
                    frame@,
                    message@,
                    start,
                    stop,
                ),
                None => exists|now: Instant|
                    outcome(*final(self), sent) == #[trigger] old(self)@.print_between(
                        frame@,
                        message@,
                        start,
                        now,
                    ),
            },
    {
        match start_time {
            None => self.print(frame, message),
            Some(start_time) => self.print_with_duration(frame, message, start_time, stop_time),
        }
    }

    /// A plain tick: back to the start of the line, then `<frame> <message>`.
    pub fn print(&mut self, frame: &str, message: &str) -> (sent: Vec<Vec<u8>>)
        ensures
            outcome(*final(self), sent) == old(self)@.print(frame@, message@),
    {
        let mut sent = self.start_of_line();
        let mut more = self.put(plain_line(frame, message));
        let ghost (first, second) = (chunks(sent), chunks(more));
        sent.append(&mut more);
        proof {
            let line = bytes_of(plain_text(frame@, message@));
            assert(Seq::<u8>::empty() + line =~= line);
            assert(chunks(sent) =~= first + second);
            assert(first + second =~= old(self)@.print(frame@, message@).sent);
        }
        sent
    }

    /// A timed tick with the time elapsed from `start_time` to `stop_time`,
    /// or to now. A `stop_time` before `start_time` counts as no time at all.
    pub fn print_with_duration(
        &mut self,
        frame: &str,
        message: &str,
        start_time: Instant,
        stop_time: Option<Instant>,
    ) -> (sent: Vec<Vec<u8>>)
        ensures
            exists|secs: u64, nanos: u32|
                nanos < 1_000_000_000 && outcome(*final(self), sent) == #[trigger] old(
                    self,
                )@.print_elapsed(frame@, message@, secs, nanos),
            match stop_time {
                Some(stop) => outcome(*final(self), sent) == old(self)@.print_between(
                    frame@,
                    message@,
                    start_time,
                    stop,
                ),
                None => exists|now: Instant|
                    outcome(*final(self), sent) == #[trigger] old(self)@.print_between(
                        frame@,
                        message@,
                        start_time,
                        now,
                    ),
            },
    {
        let (secs, nanos): (u64, u32) = measure(start_time, stop_time);
        let sent = self.print_elapsed(frame, message, secs, nanos);
        proof {
            assert(outcome(*self, sent) == old(self)@.print_elapsed(frame@, message@, secs, nanos));
            if stop_time is None {
                let now = choose|now: Instant| (secs, nanos) == gap_between(now, start_time);
                assert(outcome(*self, sent) == old(self)@.print_between(
                    frame@,
                    message@,
                    start_time,
                    now,
                ));
            }
        }
        sent
    }

    /// A timed tick with an elapsed time of `secs` seconds and `nanos`
    /// nanoseconds.
    pub fn print_elapsed(&mut self, frame: &str, message: &str, secs: u64, nanos: u32) -> (sent:
        Vec<Vec<u8>>)
        ensures
            outcome(*final(self), sent) == old(self)@.print_elapsed(
                frame@,
                message@,
                secs,
                nanos,
            ),
    {
        self.put(timed_line(frame, message, secs, nanos))
    }

    /// The final line, with an optional message and an optional symbol in
    /// front of it.
    pub fn stop(&mut self, message: Option<&str>, symbol: Option<&str>) -> (sent: Vec<Vec<u8>>)
        ensures
            outcome(*final(self), sent) == old(self)@.stop(text_of(message), text_of(symbol)),
    {
        let line = stop_line(message, symbol);
        match message {
            Some(_) => {
                let mut sent = self.erase_line();
                let mut more = self.put(line);
                let ghost (first, second) = (chunks(sent), chunks(more));
                sent.append(&mut more);
                proof {
                    let text = stop_text(text_of(message), text_of(symbol));
                    assert(Seq::<u8>::empty() + bytes_of(text) =~= bytes_of(text));
                    assert(chunks(sent) =~= first + second);
                    assert(first + second =~= old(self)@.stop(
                        text_of(message),
                        text_of(symbol),
                    ).sent);
                }
                sent
            },
            None => self.put(line),
        }
    }

    /// Goes back to the start of the line.
    pub fn start_of_line(&mut self) -> (sent: Vec<Vec<u8>>)
        ensures
            outcome(*final(self), sent) == old(self)@.start_of_line(),
    {
        match self {
            Stream::Ratatui(widget) => {
                widget.clear();
                let sent: Vec<Vec<u8>> = Vec::new();
                assert(chunks(sent) =~= seq![]);
                sent
            },
            _ => {
                let mut code: Vec<u8> = Vec::new();
                code.push(0x0d);
                assert(code@ =~= carriage_return());
                self.put(code)
            },
        }
    }

    /// Erases the line.
    pub fn erase_line(&mut self) -> (sent: Vec<Vec<u8>>)
        ensures
            outcome(*final(self), sent) == old(self)@.erase_line(),
    {
        match self {
            Stream::Ratatui(widget) => {
                widget.clear();
                let sent: Vec<Vec<u8>> = Vec::new();
                assert(chunks(sent) =~= seq![]);
                sent
            },
            _ => {
                let mut code: Vec<u8> = Vec::new();
                code.push(0x1b);
                code.push(0x5b);
                code.push(0x32);
                code.push(0x4b);
                code.push(0x0d);
                assert(code@ =~= erase_sequence());
                self.put(code)
            },
        }
    }

    /// Hands `bytes` to the sink.
    fn put(&mut self, bytes: Vec<u8>) -> (sent: Vec<Vec<u8>>)
        ensures
            outcome(*final(self), sent) == old(self)@.take(bytes@),
    {
        match self {
            Stream::Ratatui(widget) => {
                widget.write(bytes.as_slice());
                widget.flush();
                let sent: Vec<Vec<u8>> = Vec::new();
                assert(chunks(sent) =~= seq![]);
                sent
            },
            _ => {
                let mut sent: Vec<Vec<u8>> = Vec::new();
                sent.push(bytes);
                assert(chunks(sent) =~= seq![bytes@]);
                sent
            },
        }
    }
}

/// No operation turns one sink into another, and none sends anything on
/// behalf of a surface.
pub proof fn lemma_sink_is_kept(
    sink: Sink,
    frame: Seq<char>,
    message: Seq<char>,
    secs: u64,
    nanos: u32,
    last: Option<Seq<char>>,
    symbol: Option<Seq<char>>,
)
    ensures
        sink.same_kind(sink.start_of_line().sink),
        sink.same_kind(sink.erase_line().sink),
        sink.same_kind(sink.print(frame, message).sink),
        sink.same_kind(sink.print_elapsed(frame, message, secs, nanos).sink),
        sink.same_kind(sink.stop(last, symbol).sink),
        sink is Surface ==> {
            &&& sink.start_of_line().sent.len() == 0
            &&& sink.erase_line().sent.len() == 0
            &&& sink.print(frame, message).sent.len() == 0
            &&& sink.print_elapsed(frame, message, secs, nanos).sent.len() == 0
            &&& sink.stop(last, symbol).sent.len() == 0
        },
{
}

/// A plain tick is a return to the start of the line and then the bytes of
/// `<frame> <message>`, whatever the sink is; these bytes are then all that
/// stands on the line.
pub proof fn lemma_plain_tick(sink: Sink, frame: Seq<char>, message: Seq<char>)
    ensures
        sink.print(frame, message) == sink.start_of_line().followed_by(
            sink.start_of_line().sink.take(bytes_of(plain_text(frame, message))),
        ),
        sink.print(frame, message).line() == bytes_of(plain_text(frame, message)),
{
    let line = bytes_of(plain_text(frame, message));
    let reset = sink.start_of_line();
    assert(Seq::<u8>::empty() + line =~= line);
    assert(reset.sent + reset.sink.take(line).sent =~= sink.print(frame, message).sent);
}

/// A surface never gathers plain ticks: after two of them it holds the second
/// alone, and shows its text.
pub proof fn lemma_surface_keeps_last_tick(
    sink: Sink,
    first_frame: Seq<char>,
    first_message: Seq<char>,
    frame: Seq<char>,
    message: Seq<char>,
)
    requires
        sink is Surface,
    ensures
        sink.print(first_frame, first_message).sink.print(frame, message).sink == Sink::Surface(
            bytes_of(plain_text(frame, message)),
        ),
        shown_text(bytes_of(plain_text(frame, message))) == plain_text(frame, message),
{
    lemma_text_is_shown(plain_text(frame, message));
}

/// A surface that holds well-formed text shows every line that it is handed:
/// a plain tick and a final line with a message stand alone; a timed tick
/// and a bare line break come after what it showed.
pub proof fn lemma_surface_shows_its_lines(
    held: Seq<u8>,
    frame: Seq<char>,
    message: Seq<char>,
    secs: u64,
    nanos: u32,
    symbol: Option<Seq<char>>,
)
    requires
        valid_utf8(held),
    ensures
        ({
            let surface = Sink::Surface(held);
            &&& shown_text(surface.print(frame, message).line()) == plain_text(frame, message)
            &&& shown_text(surface.print_elapsed(frame, message, secs, nanos).line())
                == shown_text(held) + timed_text(frame, message, secs, nanos)
            &&& shown_text(surface.stop(Some(message), symbol).line()) == stop_text(
                Some(message),
                symbol,
            )
            &&& shown_text(surface.stop(None, symbol).line()) == shown_text(held) + seq!['\n']
        }),
{
    let timed = timed_text(frame, message, secs, nanos);
    lemma_text_is_shown(plain_text(frame, message));
    lemma_text_is_shown(stop_text(Some(message), symbol));
    lemma_text_is_shown(timed);
    lemma_text_is_shown(seq!['\n']);
    encode_utf8_valid_utf8(timed);
    encode_utf8_valid_utf8(seq!['\n']);
    lemma_shown_text_concat(held, bytes_of(timed));
    lemma_shown_text_concat(held, bytes_of(seq!['\n']));
}

/// Whichever of a clearing and a write comes first, the surface then holds
/// the written bytes whole or nothing at all: never a part of them, and
/// nothing of what it held.
pub proof fn lemma_clear_and_write_in_either_order(held: Seq<u8>, bytes: Seq<u8>)
    ensures
        Sink::Surface(held).start_of_line().sink.take(bytes).sink == Sink::Surface(bytes),
        Sink::Surface(held).take(bytes).sink.start_of_line().sink == Sink::Surface(Seq::empty()),
{
    assert(Seq::<u8>::empty() + bytes =~= bytes);
}

/// With a message, the final line takes the place of what stood there: the
/// line is erased, then come the symbol and a blank, if there is a symbol,
/// the message and a line break.
pub proof fn lemma_stop_with_message(sink: Sink, message: Seq<char>, symbol: Option<Seq<char>>)
    ensures
        sink.stop(Some(message), symbol) == sink.erase_line().followed_by(
            sink.erase_line().sink.take(bytes_of(stop_text(Some(message), symbol))),
        ),
        sink.stop(Some(message), symbol).line() == bytes_of(stop_text(Some(message), symbol)),
        stop_text(Some(message), symbol) == match symbol {
            Some(symbol) => symbol + seq![' '] + message + seq!['\n'],
            None => message + seq!['\n'],
        },
{
    let line = bytes_of(stop_text(Some(message), symbol));
    let erased = sink.erase_line();
    assert(Seq::<u8>::empty() + line =~= line);
    assert(erased.sent + erased.sink.take(line).sent =~= sink.stop(Some(message), symbol).sent);
}

/// Without a message nothing is erased and a line break is all that is added,
/// symbol or not.
pub proof fn lemma_stop_without_message(sink: Sink, symbol: Option<Seq<char>>)
    ensures
        sink.stop(None, symbol) == sink.take(seq![0x0au8]),
{
    lemma_bytes_of_ascii('\n');
}

} // verus!
