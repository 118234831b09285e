//! The control mode stream: bytes in, events out.

use vstd::prelude::*;
use vstd::slice::slice_subrange;
use vstd::utf8::{decode_utf8, encode_utf8, valid_utf8};

use crate::text::{
    ascii_bytes, decimal, decode_lossy, decode_strict, decoded, is_digit, law_decimal_reads_back,
    utf8_refusal,
};
use crate::tmux_cc::event::{Event, EventView, Guarded, GuardedView};
use crate::tmux_cc::line::{announced, law_output_line_reads_back, output_line, parse_line};
use crate::tmux_cc::unvis::{escaped, escaped_byte, Error};

verus! {

/// What the stream held where a line of the protocol was due.
#[derive(Debug, Clone, PartialEq, Eq)]
pub struct StreamError {
    pub text: String,
}

/// Turns the bytes of the control mode stream into events.
pub struct Parser {
    buffer: Vec<u8>,
    begun: Option<Guarded>,
}

/// The state of a [`Parser`]: the bytes of the line it is in, and the command output it
/// is in, if any.
pub struct ParserState {
    pub buffer: Seq<u8>,
    pub begun: Option<GuardedView>,
}

impl View for Parser {
    type V = ParserState;

    closed spec fn view(&self) -> ParserState {
        ParserState {
            buffer: self.buffer@,
            begun: match self.begun {
                Some(begun) => Some(begun@),
                None => None,
            },
        }
    }
}

/// The state at the beginning of a line, outside any command output.
pub open spec fn idle() -> ParserState {
    ParserState { buffer: Seq::empty(), begun: None }
}

/// The state at the beginning of a line, with the command output `begun`.
pub open spec fn within(begun: GuardedView) -> ParserState {
    ParserState { buffer: Seq::empty(), begun: Some(begun) }
}

/// The bytes of a line without the carriage return that may end them.
pub open spec fn without_cr(line: Seq<u8>) -> Seq<u8> {
    if line.len() > 0 && line.last() == 0x0d {
        line.drop_last()
    } else {
        line
    }
}

/// Whether a guard line closes the command output `begun`.
pub open spec fn closes(begun: GuardedView, timestamp: i64, number: u64, flags: i64) -> bool {
    begun.timestamp == timestamp && begun.number == number && begun.flags == flags
}

/// What the line `line` does to the command output `begun`: a matching guard completes
/// it, another guard drops it, and any other line is appended to it.
pub open spec fn guarded_line(line: Seq<u8>, begun: GuardedView) -> (
    ParserState,
    Result<Option<EventView>, Seq<char>>,
) {
    if !valid_utf8(line) {
        (ParserState { buffer: line, begun: Some(begun) }, Err(utf8_refusal(line)))
    } else {
        match announced(line) {
            Ok(EventView::End { timestamp, number, flags }) => if closes(
                begun,
                timestamp,
                number,
                flags,
            ) {
                (idle(), Ok(Some(EventView::Guarded(begun))))
            } else {
                (idle(), Ok(None))
            },
            Ok(EventView::Error { timestamp, number, flags }) => if closes(
                begun,
                timestamp,
                number,
                flags,
            ) {
                (idle(), Ok(Some(EventView::Guarded(GuardedView { error: true, ..begun }))))
            } else {
                (idle(), Ok(None))
            },
            _ => (
                within(
                    GuardedView {
                        output: begun.output + decode_utf8(line) + seq!['\n'],
                        ..begun
                    },
                ),
                Ok(None),
            ),
        }
    }
}

/// What the end of a line does: the next state, and the event or the refused text.
pub open spec fn end_of_line(state: ParserState) -> (
    ParserState,
    Result<Option<EventView>, Seq<char>>,
) {
    let line = without_cr(state.buffer);
    match state.begun {
        Some(begun) => guarded_line(line, begun),
        None => match announced(line) {
            Ok(EventView::Begin { timestamp, number, flags }) => (
                within(
                    GuardedView { error: false, timestamp, number, flags, output: Seq::empty() },
                ),
                Ok(None),
            ),
            Ok(event) => (idle(), Ok(Some(event))),
            Err(_) => (ParserState { buffer: line, begun: None }, Err(decoded(line))),
        },
    }
}

/// What one byte of the stream does.
pub open spec fn step(state: ParserState, c: u8) -> (
    ParserState,
    Result<Option<EventView>, Seq<char>>,
) {
    if c == 0x0a {
        end_of_line(state)
    } else {
        (ParserState { buffer: state.buffer.push(c), ..state }, Ok(None))
    }
}

/// The event, if there is one, before the events of a successful run.
pub open spec fn before_events(
    event: Option<EventView>,
    r: Result<Seq<EventView>, Seq<char>>,
) -> Result<Seq<EventView>, Seq<char>> {
    match event {
        Some(event) => after_events(seq![event], r),
        None => r,
    }
}

/// `events` before the events of a successful run.
pub open spec fn after_events(
    events: Seq<EventView>,
    r: Result<Seq<EventView>, Seq<char>>,
) -> Result<Seq<EventView>, Seq<char>> {
    match r {
        Ok(more) => Ok(events + more),
        Err(text) => Err(text),
    }
}

/// What a run of bytes does: the next state, and all events in order. At the first line
/// that is refused, the refused text and the bytes from the line's end on are what is
/// left.
pub open spec fn run(state: ParserState, bytes: Seq<u8>) -> (
    ParserState,
    Result<Seq<EventView>, Seq<char>>,
)
    decreases bytes.len(),
{
    if bytes.len() == 0 {
        (state, Ok(Seq::empty()))
    } else {
        let (next, r) = step(state, bytes[0]);
        match r {
            Ok(event) => {
                let (last, rest) = run(next, bytes.skip(1));
                (last, before_events(event, rest))
            },
            Err(text) => (next, Err(text + decoded(bytes))),
        }
    }
}

/// The outcome of a byte as a mathematical value.
pub open spec fn step_outcome(r: Result<Option<Event>, StreamError>) -> Result<
    Option<EventView>,
    Seq<char>,
> {
    match r {
        Ok(Some(event)) => Ok(Some(event@)),
        Ok(None) => Ok(None),
        Err(e) => Err(e.text@),
    }
}

/// A row of events as mathematical values.
pub open spec fn event_views(events: Seq<Event>) -> Seq<EventView> {
    Seq::new(events.len(), |i: int| events[i]@)
}

/// The outcome of a run of bytes as a mathematical value.
pub open spec fn run_outcome(r: Result<Vec<Event>, StreamError>) -> Result<
    Seq<EventView>,
    Seq<char>,
> {
    match r {
        Ok(events) => Ok(event_views(events@)),
        Err(e) => Err(e.text@),
    }
}

impl Parser {
    /// A parser at the beginning of the stream.
    pub fn new() -> (parser: Self)
        ensures
            parser@ == idle(),
    {
        Self { buffer: Vec::new(), begun: None }
    }

    /// Takes in one byte.
    pub fn advance_byte(&mut self, c: u8) -> (r: Result<Option<Event>, StreamError>)
        ensures
            step(old(self)@, c) == (final(self)@, step_outcome(r)),
    {
        if c == 0x0a {
            self.process_line()
        } else {
            self.buffer.push(c);
            Ok(None)
        }
    }

    /// Takes in the bytes of a string.
    pub fn advance_string(&mut self, s: &str) -> (r: Result<Vec<Event>, StreamError>)
        ensures
            run(old(self)@, encode_utf8(s@)) == (final(self)@, run_outcome(r)),
    {
        self.advance_bytes(s.as_bytes())
    }

    /// Takes in bytes.
    pub fn advance_bytes(&mut self, bytes: &[u8]) -> (r: Result<Vec<Event>, StreamError>)
        ensures
            run(old(self)@, bytes@) == (final(self)@, run_outcome(r)),
    {
        let mut events: Vec<Event> = Vec::new();
        let mut i: usize = 0;
        assert(bytes@.skip(0) == bytes@);
        proof {
            if let Ok(more) = run(self@, bytes@).1 {
                assert(event_views(events@) + more == more);
            }
        }
        while i < bytes.len()
            invariant
                i <= bytes@.len(),
                run(old(self)@, bytes@).0 == run(self@, bytes@.skip(i as int)).0,
                run(old(self)@, bytes@).1 == after_events(
                    event_views(events@),
                    run(self@, bytes@.skip(i as int)).1,
                ),
            decreases bytes@.len() - i,
        {
            let ghost rest = bytes@.skip(i as int);
            assert(rest.skip(1) == bytes@.skip(i + 1));
            match self.advance_byte(bytes[i]) {
                Ok(option_event) => {
                    if let Some(e) = option_event {
                        let ghost before = events@;
                        events.push(e);
                        assert(event_views(events@) == event_views(before) + seq![e@]);
                        proof {
                            if let Ok(more) = run(self@, bytes@.skip(i + 1)).1 {
                                assert(event_views(before) + (seq![e@] + more) == event_views(
                                    events@,
                                ) + more);
                            }
                        }
                    }
                },
                Err(err) => {
                    // the refused text, and then the bytes that were not digested
                    let mut text = err.text;
                    let left = slice_subrange(bytes, i, bytes.len());
                    assert(left@ == rest);
                    let left = decode_lossy(left);
                    text.append(left.as_str());
                    return Err(StreamError { text });
                },
            }
            i += 1;
        }
        assert(bytes@.skip(bytes@.len() as int) == Seq::<u8>::empty());
        assert(event_views(events@) + Seq::<EventView>::empty() == event_views(events@));
        Ok(events)
    }

    fn process_guarded_line(&mut self, begun: Guarded) -> (r: Result<Option<Event>, StreamError>)
        ensures
            guarded_line(old(self)@.buffer, begun@) == (final(self)@, step_outcome(r)),
    {
        let line = match decode_strict(self.buffer.as_slice()) {
            Ok(line) => line,
            Err(text) => {
                self.begun = Some(begun);
                return Err(StreamError { text });
            },
        };
        let mut begun = begun;
        let result = match parse_line(self.buffer.as_slice()) {
            Ok(Event::End { timestamp, number, flags }) => {
                self.begun = None;
                if begun.timestamp == timestamp && begun.number == number && begun.flags == flags {
                    Some(Event::Guarded(begun))
                } else {
                    None
                }
            },
            Ok(Event::Error { timestamp, number, flags }) => {
                self.begun = None;
                if begun.timestamp == timestamp && begun.number == number && begun.flags == flags {
                    begun.error = true;
                    Some(Event::Guarded(begun))
                } else {
                    None
                }
            },
            _ => {
                let ghost before = begun.output@;
                begun.output.append(line.as_str());
                begun.output.push('\n');
                assert(begun.output@ == before + decode_utf8(self.buffer@) + seq!['\n']);
                self.begun = Some(begun);
                None
            },
        };
        self.buffer.clear();
        Ok(result)
    }

    fn process_line(&mut self) -> (r: Result<Option<Event>, StreamError>)
        ensures
            end_of_line(old(self)@) == (final(self)@, step_outcome(r)),
    {
        if self.buffer.len() > 0 && self.buffer[self.buffer.len() - 1] == 0x0d {
            self.buffer.pop();
        }
        assert(self.buffer@ == without_cr(old(self).buffer@));
        if let Some(begun) = self.begun.take() {
            return self.process_guarded_line(begun);
        }
        let result = match parse_line(self.buffer.as_slice()) {
            Ok(Event::Begin { timestamp, number, flags }) => {
                self.begun = Some(
                    Guarded { error: false, timestamp, number, flags, output: String::new() },
                );
                None
            },
            Ok(event) => Some(event),
            Err(_) => {
                let text = decode_lossy(self.buffer.as_slice());
                return Err(StreamError { text });
            },
        };
        self.buffer.clear();
        Ok(result)
    }
}

// ---------------------------------------------------------------------------
// Laws
// ---------------------------------------------------------------------------

/// The stream may be cut anywhere: bytes taken in two pieces do what they do in one.
/// Where the first piece holds a refused line, the second is not looked at.
pub proof fn law_stream_may_be_cut(state: ParserState, first: Seq<u8>, second: Seq<u8>)
    ensures
        match run(state, first) {
            (mid, Ok(events)) => run(state, first + second) == (
                run(mid, second).0,
                after_events(events, run(mid, second).1),
            ),
            (mid, Err(_)) => run(state, first + second).1 is Err && run(state, first + second).0
                == mid,
        },
    decreases first.len(),
{
    let all = first + second;
    if first.len() == 0 {
        assert(all == second);
        if let Ok(more) = run(state, second).1 {
            assert(Seq::<EventView>::empty() + more == more);
        }
    } else {
        let (next, r) = step(state, first[0]);
        assert(all[0] == first[0]);
        assert(all.skip(1) == first.skip(1) + second);
        if let Ok(event) = r {
            law_stream_may_be_cut(next, first.skip(1), second);
            let (mid, rest) = run(next, first.skip(1));
            if let Ok(events) = rest {
                if let Ok(more) = run(mid, second).1 {
                    if let Some(event) = event {
                        assert(seq![event] + (events + more) == (seq![event] + events) + more);
                    }
                }
            }
        }
    }
}

/// Whether `line` can stand in the stream as one line: it holds no line feed and does
/// not end in a carriage return.
pub open spec fn is_line(line: Seq<u8>) -> bool {
    &&& !line.contains(0x0a)
    &&& line.len() > 0 ==> line.last() != 0x0d
}

pub proof fn lemma_run_in_line(state: ParserState, bytes: Seq<u8>)
    requires
        !bytes.contains(0x0a),
    ensures
        run(state, bytes) == (
            (ParserState { buffer: state.buffer + bytes, ..state }),
            Ok::<Seq<EventView>, Seq<char>>(Seq::empty()),
        ),
    decreases bytes.len(),
{
    if bytes.len() == 0 {
        assert(state.buffer + bytes == state.buffer);
    } else {
        let next = ParserState { buffer: state.buffer.push(bytes[0]), ..state };
        assert(bytes.contains(bytes[0]));
        assert forall|c: u8| bytes.skip(1).contains(c) implies bytes.contains(c) by {
            let i = choose|i: int| 0 <= i < bytes.skip(1).len() && bytes.skip(1)[i] == c;
            assert(bytes[i + 1] == c);
        }
        lemma_run_in_line(next, bytes.skip(1));
        assert(next.buffer + bytes.skip(1) == state.buffer + bytes);
    }
}

/// A whole line does what the end of the line does with its bytes.
pub proof fn lemma_run_line(state: ParserState, line: Seq<u8>)
    requires
        is_line(line),
        state.buffer.len() == 0,
    ensures
        match end_of_line(ParserState { buffer: line, ..state }) {
            (next, Ok(event)) => run(state, line.push(0x0a)) == (
                next,
                Ok::<Seq<EventView>, Seq<char>>(
                    match event {
                        Some(event) => seq![event],
                        None => Seq::empty(),
                    },
                ),
            ),
            (next, Err(_)) => run(state, line.push(0x0a)).1 is Err,
        },
{
    lemma_run_in_line(state, line);
    assert(state.buffer + line == line);
    law_stream_may_be_cut(state, line, seq![0x0a]);
    assert(line + seq![0x0au8] == line.push(0x0a));
    let mid = ParserState { buffer: line, ..state };
    let end = seq![0x0au8];
    assert(end.skip(1) == Seq::<u8>::empty());
    reveal_with_fuel(run, 2);
    if let Ok(event) = step(mid, 0x0a).1 {
        match event {
            Some(event) => {
                assert(Seq::<EventView>::empty() + (seq![event] + Seq::<EventView>::empty())
                    == seq![event]);
            },
            None => {
                assert(Seq::<EventView>::empty() + Seq::<EventView>::empty() == Seq::<
                    EventView,
                >::empty());
            },
        }
    }
}

/// Lines as they stand in the stream, each with its line feed.
pub open spec fn stream_of(lines: Seq<Seq<u8>>) -> Seq<u8>
    decreases lines.len(),
{
    if lines.len() == 0 {
        Seq::empty()
    } else {
        lines[0].push(0x0a) + stream_of(lines.skip(1))
    }
}

/// The text of lines, each with its line feed.
pub open spec fn text_of(lines: Seq<Seq<u8>>) -> Seq<char>
    decreases lines.len(),
{
    if lines.len() == 0 {
        Seq::empty()
    } else {
        decode_utf8(lines[0]).push('\n') + text_of(lines.skip(1))
    }
}

/// Whether `line` can stand in command output: text that is itself no closing guard.
pub open spec fn is_output_line(line: Seq<u8>) -> bool {
    &&& is_line(line)
    &&& valid_utf8(line)
    &&& !(announced(line) matches Ok(EventView::End { .. }))
    &&& !(announced(line) matches Ok(EventView::Error { .. }))
}

proof fn lemma_run_output(begun: GuardedView, lines: Seq<Seq<u8>>)
    requires
        forall|i: int| 0 <= i < lines.len() ==> is_output_line(#[trigger] lines[i]),
    ensures
        run(within(begun), stream_of(lines)) == (
            within(GuardedView { output: begun.output + text_of(lines), ..begun }),
            Ok::<Seq<EventView>, Seq<char>>(Seq::empty()),
        ),
    decreases lines.len(),
{
    if lines.len() == 0 {
        assert(begun.output + text_of(lines) == begun.output);
    } else {
        let line = lines[0];
        let tail = lines.skip(1);
        lemma_run_line(within(begun), line);
        let more = GuardedView {
            output: begun.output + decode_utf8(line) + seq!['\n'],
            ..begun
        };
        assert forall|i: int| 0 <= i < tail.len() implies is_output_line(#[trigger] tail[i]) by {
            assert(tail[i] == lines[i + 1]);
        }
        lemma_run_output(more, tail);
        law_stream_may_be_cut(within(begun), line.push(0x0a), stream_of(tail));
        assert(more.output + text_of(tail) == begun.output + text_of(lines));
        assert(Seq::<EventView>::empty() + Seq::<EventView>::empty() == Seq::<EventView>::empty());
    }
}

/// The output of a command comes out as one event: between a `%begin` line and the guard
/// line that matches it, every line of text is kept, in order, and the guard says whether
/// the command failed.
pub proof fn law_command_output_comes_out_whole(
    begin: Seq<u8>,
    lines: Seq<Seq<u8>>,
    end: Seq<u8>,
    error: bool,
    timestamp: i64,
    number: u64,
    flags: i64,
)
    requires
        is_line(begin),
        announced(begin) == Ok::<EventView, Error>(
            EventView::Begin { timestamp, number, flags },
        ),
        forall|i: int| 0 <= i < lines.len() ==> is_output_line(#[trigger] lines[i]),
        is_line(end),
        valid_utf8(end),
        announced(end) == Ok::<EventView, Error>(
            if error {
                EventView::Error { timestamp, number, flags }
            } else {
                EventView::End { timestamp, number, flags }
            },
        ),
    ensures
        run(idle(), begin.push(0x0a) + stream_of(lines) + end.push(0x0a)) == (
            idle(),
            Ok::<Seq<EventView>, Seq<char>>(
                seq![
                    EventView::Guarded(
                        GuardedView { error, timestamp, number, flags, output: text_of(lines) },
                    ),
                ],
            ),
        ),
{
    let g = GuardedView { error: false, timestamp, number, flags, output: Seq::empty() };
    let done = GuardedView { output: text_of(lines), ..g };
    lemma_run_line(idle(), begin);
    lemma_run_output(g, lines);
    assert(g.output + text_of(lines) == text_of(lines));
    lemma_run_line(within(done), end);
    let head = begin.push(0x0a) + stream_of(lines);
    law_stream_may_be_cut(idle(), begin.push(0x0a), stream_of(lines));
    law_stream_may_be_cut(idle(), head, end.push(0x0a));
    let event = EventView::Guarded(GuardedView { error, ..done });
    assert(Seq::<EventView>::empty() + Seq::<EventView>::empty() == Seq::<EventView>::empty());
    assert(Seq::<EventView>::empty() + seq![event] == seq![event]);
}

proof fn lemma_escaped_bytes(s: Seq<u8>)
    ensures
        forall|i: int| 0 <= i < escaped(s).len() ==> #[trigger] escaped(s)[i] >= 0x20,
    decreases s.len(),
{
    if s.len() > 0 {
        let head = escaped_byte(s[0]);
        let tail = escaped(s.skip(1));
        lemma_escaped_bytes(s.skip(1));
        assert forall|i: int| 0 <= i < escaped(s).len() implies #[trigger] escaped(s)[i]
            >= 0x20 by {
            if i >= head.len() {
                assert(escaped(s)[i] == tail[i - head.len()]);
            } else {
                assert(escaped(s)[i] == head[i]);
            }
        }
    }
}

/// What a pane wrote comes out of the stream as one event with the same bytes, whether they
/// are text or not.
pub proof fn law_pane_output_comes_out(pane: u64, output: Seq<u8>)
    ensures
        run(idle(), output_line(pane, output).push(0x0a)) == (
            idle(),
            Ok::<Seq<EventView>, Seq<char>>(seq![EventView::Output { pane, text: output }]),
        ),
{
    let line = output_line(pane, output);
    let d = decimal(pane as nat);
    let front = "%output "@ + seq!['%'] + d + seq![' '];
    law_decimal_reads_back(pane as nat);
    lemma_escaped_bytes(output);
    assert forall|i: int| 0 <= i < line.len() implies #[trigger] line[i] >= 0x20 by {
        if i < front.len() {
            reveal_strlit("%output ");
            if 9 <= i < 9 + d.len() {
                assert(front[i] == d[i - 9]);
                assert(is_digit(d[i - 9]));
            }
            assert(line[i] == ascii_bytes(front)[i]);
        } else {
            assert(line[i] == escaped(output)[i - front.len()]);
        }
    }
    law_output_line_reads_back(pane, output);
    lemma_run_line(idle(), line);
}

} // verus!
