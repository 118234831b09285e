//! The lines of the control mode stream.
//!
//! A line is a keyword and the fields that the keyword calls for. Text fields are
//! escaped (see [`unvis`](crate::tmux_cc::unvis)); pane output is taken from the
//! bytes of the line, everything else from the line decoded as UTF-8.

use vstd::prelude::*;
use vstd::slice::slice_subrange;
use vstd::utf8::{
    decode_utf8, encode_utf8, encode_utf8_decode_utf8, encode_utf8_valid_utf8, valid_utf8,
};

use crate::text::{
    after_char, after_prefix, ascii_bytes, ascii_text, chars_of, contents, decimal, decode_lossy,
    decoded, in_class, is_digit, law_decimal_reads_back, lemma_ascii_front_is_read,
    lemma_ascii_front_of_utf8, lemma_run_len, lemma_run_len_is, lemma_take_decimal, parse_u64,
    run_len, split_at_first, split_number, split_once, split_run, split_words, string_of,
    strip_char, strip_str, take_number, take_run, unsigned_in, words, CharClass,
};
use crate::tmux_cc::event::{Event, EventView};
use crate::tmux_cc::layout::TmuxParser;
use crate::tmux_cc::unvis::{
    escaped, law_unvis_inverts_escaping, unescaped, unescaped_text, unvis, unvis_bytes, Error,
};

verus! {

// ---------------------------------------------------------------------------
// Fields
// ---------------------------------------------------------------------------

/// An id: a sigil and a number.
pub open spec fn take_id(s: Seq<char>, sigil: char) -> Option<(u64, Seq<char>)> {
    match after_char(s, sigil) {
        Some(s) => take_number(s),
        None => None,
    }
}

/// An id and nothing else.
pub open spec fn only_id(s: Seq<char>, sigil: char) -> Option<u64> {
    match take_id(s, sigil) {
        Some((id, rest)) => if rest.len() == 0 {
            Some(id)
        } else {
            None
        },
        None => None,
    }
}

/// An id, a space, and the text after it.
pub open spec fn id_and_text(s: Seq<char>, sigil: char) -> Option<(u64, Seq<char>)> {
    match take_id(s, sigil) {
        Some((id, rest)) => match after_char(rest, ' ') {
            Some(text) => Some((id, text)),
            None => None,
        },
        None => None,
    }
}

/// Two ids with a space between them, and nothing else.
pub open spec fn two_ids(s: Seq<char>, first: char, second: char) -> Option<(u64, u64)> {
    match id_and_text(s, first) {
        Some((a, rest)) => match only_id(rest, second) {
            Some(b) => Some((a, b)),
            None => None,
        },
        None => None,
    }
}

/// The timestamp, number and flags of a guard line.
pub open spec fn guard_fields(s: Seq<char>) -> Option<(i64, u64, i64)> {
    match take_number(s) {
        Some((timestamp, s)) => match after_char(s, ' ') {
            Some(s) => match take_number(s) {
                Some((number, s)) => match after_char(s, ' ') {
                    Some(s) => match take_number(s) {
                        Some((flags, s)) => if s.len() == 0 && timestamp <= i64::MAX && flags
                            <= i64::MAX {
                            Some((timestamp as i64, number, flags as i64))
                        } else {
                            None
                        },
                        None => None,
                    },
                    None => None,
                },
                None => None,
            },
            None => None,
        },
        None => None,
    }
}

/// A client name, a space, a session id, a space and the session's name.
pub open spec fn client_session_fields(s: Seq<char>) -> Option<(Seq<char>, u64, Seq<char>)> {
    match take_run(CharClass::Word, s) {
        Some((client, s)) => match after_char(s, ' ') {
            Some(s) => match id_and_text(s, '$') {
                Some((session, name)) => Some((client, session, name)),
                None => None,
            },
            None => None,
        },
        None => None,
    }
}

/// A client name and nothing else.
pub open spec fn only_client(s: Seq<char>) -> Option<Seq<char>> {
    match take_run(CharClass::Word, s) {
        Some((client, rest)) => if rest.len() == 0 {
            Some(client)
        } else {
            None
        },
        None => None,
    }
}

/// A layout, then either nothing or a space, the visible layout, a space and flags.
pub open spec fn layout_fields(s: Seq<char>) -> Option<
    (Seq<char>, Option<Seq<char>>, Option<Seq<char>>),
> {
    match take_run(CharClass::Layout, s) {
        Some((layout, rest)) => if rest.len() == 0 {
            Some((layout, None, None))
        } else {
            match after_char(rest, ' ') {
                Some(rest) => match take_run(CharClass::Layout, rest) {
                    Some((visible, rest)) => match after_char(rest, ' ') {
                        Some(flags) => Some((layout, Some(visible), Some(flags))),
                        None => None,
                    },
                    None => None,
                },
                None => None,
            }
        },
        None => None,
    }
}

/// The `n`th field, if there are that many.
pub open spec fn nth(f: Seq<Seq<char>>, n: int) -> Option<Seq<char>> {
    if 0 <= n < f.len() {
        Some(f[n])
    } else {
        None
    }
}

/// A number, if the field holds one.
pub open spec fn number_field(f: Option<Seq<char>>) -> Option<u64> {
    match f {
        Some(s) => match unsigned_in(s, u64::MAX as int) {
            Some(v) => Some(v as u64),
            None => None,
        },
        None => None,
    }
}

/// An id, if the field holds one.
pub open spec fn id_field(f: Option<Seq<char>>, sigil: char) -> Option<u64> {
    match f {
        Some(s) => number_field(after_char(s, sigil)),
        None => None,
    }
}

/// The header and the value of a subscription notification: what stands before and
/// after the first ` : `. Without one, all of it is header.
pub open spec fn subscription_parts(body: Seq<char>) -> (Seq<char>, Seq<char>) {
    match split_at_first(body, " : "@) {
        Some((header, value)) => (header, value),
        None => (body, Seq::empty()),
    }
}

/// The event that a subscription notification announces: the words of its header are the
/// name and the ids, of which those that are missing or malformed are left out.
pub open spec fn subscription_event(body: Seq<char>) -> EventView {
    let (header, value) = subscription_parts(body);
    let f = words(header);
    EventView::SubscriptionChanged {
        name: match nth(f, 0) {
            Some(name) => name,
            None => Seq::empty(),
        },
        session: id_field(nth(f, 1), '$'),
        window: id_field(nth(f, 2), '@'),
        window_index: number_field(nth(f, 3)),
        pane: id_field(nth(f, 4), '%'),
        value,
    }
}

fn read_id(s: &[char], sigil: char) -> (r: Option<(u64, &[char])>)
    ensures
        match r {
            Some((id, rest)) => take_id(s@, sigil) == Some((id, rest@)) && rest@.len() < s@.len(),
            None => take_id(s@, sigil) is None,
        },
{
    let s = strip_char(s, sigil)?;
    split_number(s)
}

fn read_only_id(s: &[char], sigil: char) -> (r: Option<u64>)
    ensures
        r == only_id(s@, sigil),
{
    let (id, rest) = read_id(s, sigil)?;
    if rest.len() == 0 {
        Some(id)
    } else {
        None
    }
}

fn read_id_and_text(s: &[char], sigil: char) -> (r: Option<(u64, &[char])>)
    ensures
        match r {
            Some((id, text)) => id_and_text(s@, sigil) == Some((id, text@)) && text@.len()
                < s@.len(),
            None => id_and_text(s@, sigil) is None,
        },
{
    let (id, rest) = read_id(s, sigil)?;
    let text = strip_char(rest, ' ')?;
    Some((id, text))
}

fn read_two_ids(s: &[char], first: char, second: char) -> (r: Option<(u64, u64)>)
    ensures
        r == two_ids(s@, first, second),
{
    let (a, rest) = read_id_and_text(s, first)?;
    let b = read_only_id(rest, second)?;
    Some((a, b))
}

/// Parses the fields of a %begin, %end, %error guard line.
fn parse_guard(s: &[char]) -> (r: Option<(i64, u64, i64)>)
    ensures
        r == guard_fields(s@),
{
    let (timestamp, s) = split_number(s)?;
    let s = strip_char(s, ' ')?;
    let (number, s) = split_number(s)?;
    let s = strip_char(s, ' ')?;
    let (flags, s) = split_number(s)?;
    if s.len() == 0 && timestamp <= i64::MAX as u64 && flags <= i64::MAX as u64 {
        Some((timestamp as i64, number, flags as i64))
    } else {
        None
    }
}

fn read_client_session(s: &[char]) -> (r: Option<(&[char], u64, &[char])>)
    ensures
        match r {
            Some((client, session, name)) => client_session_fields(s@) == Some(
                (client@, session, name@),
            ),
            None => client_session_fields(s@) is None,
        },
{
    let (client, s) = split_run(CharClass::Word, s)?;
    let s = strip_char(s, ' ')?;
    let (session, name) = read_id_and_text(s, '$')?;
    Some((client, session, name))
}

fn read_only_client(s: &[char]) -> (r: Option<&[char]>)
    ensures
        match r {
            Some(client) => only_client(s@) == Some(client@),
            None => only_client(s@) is None,
        },
{
    let (client, rest) = split_run(CharClass::Word, s)?;
    if rest.len() == 0 {
        Some(client)
    } else {
        None
    }
}

fn read_layouts(s: &[char]) -> (r: Option<(&[char], Option<(&[char], &[char])>)>)
    ensures
        match r {
            Some((layout, None)) => layout_fields(s@) == Some(
                (layout@, None::<Seq<char>>, None::<Seq<char>>),
            ),
            Some((layout, Some((visible, flags)))) => layout_fields(s@) == Some(
                (layout@, Some(visible@), Some(flags@)),
            ),
            None => layout_fields(s@) is None,
        },
{
    let (layout, rest) = split_run(CharClass::Layout, s)?;
    if rest.len() == 0 {
        return Some((layout, None));
    }
    let rest = strip_char(rest, ' ')?;
    let (visible, rest) = split_run(CharClass::Layout, rest)?;
    let flags = strip_char(rest, ' ')?;
    Some((layout, Some((visible, flags))))
}

fn unvis_chars(s: &[char]) -> (r: Result<String, Error>)
    ensures
        match r {
            Ok(text) => unescaped_text(s@) == Ok::<Seq<char>, Error>(text@),
            Err(e) => unescaped_text(s@) == Err::<Seq<char>, Error>(e),
        },
{
    let s = string_of(s);
    unvis(s.as_str())
}

/// What a field holds, if there is one.
pub open spec fn field_contents(f: Option<&[char]>) -> Option<Seq<char>> {
    match f {
        Some(s) => Some(s@),
        None => None,
    }
}

/// The number that a field holds, if it holds one.
pub fn read_number_field(f: Option<&[char]>) -> (r: Option<u64>)
    ensures
        r == number_field(field_contents(f)),
{
    match f {
        Some(s) => parse_u64(s),
        None => None,
    }
}

fn read_id_field(f: Option<&[char]>, sigil: char) -> (r: Option<u64>)
    ensures
        r == id_field(field_contents(f), sigil),
{
    match f {
        Some(s) => read_number_field(strip_char(s, sigil)),
        None => None,
    }
}

/// The `n`th field, if there are that many.
pub fn get_field<'a>(f: &Vec<&'a [char]>, n: usize) -> (r: Option<&'a [char]>)
    ensures
        field_contents(r) == nth(contents(f@), n as int),
{
    if n < f.len() {
        Some(f[n])
    } else {
        None
    }
}

/// Parse the body of a `%subscription-changed` notification (everything after
/// the `%subscription-changed ` prefix).
///
/// Example bodies:
///   `tmux_status_left $1 - - - : [main] 12:00`        (session-scoped)
///   `tmux_pane_title $1 @2 3 %4 : vim ~/src`          (pane-scoped)
///
/// The header (everything before the first ` : `) is split on whitespace into
/// the subscription name and the id/index fields; the value is the remainder
/// after ` : ` and may be empty. Parsing is best-effort: unrecognised id fields
/// simply become `None` rather than erroring.
pub fn parse_subscription_changed(body: &[char]) -> (event: Event)
    ensures
        event@ == subscription_event(body@),
{
    let separator = chars_of(" : ");
    let (header, value) = match split_once(body, separator.as_slice()) {
        Some((header, value)) => (header, string_of(value)),
        None => (body, String::new()),
    };
    let f = split_words(header);
    let name = match get_field(&f, 0) {
        Some(name) => string_of(name),
        None => String::new(),
    };
    Event::SubscriptionChanged {
        name,
        session: read_id_field(get_field(&f, 1), '$'),
        window: read_id_field(get_field(&f, 2), '@'),
        window_index: read_number_field(get_field(&f, 3)),
        pane: read_id_field(get_field(&f, 4), '%'),
        value,
    }
}

// ---------------------------------------------------------------------------
// Keywords
// ---------------------------------------------------------------------------

/// The words that a notification begins with.
#[derive(Debug, Clone, Copy, PartialEq, Eq)]
pub enum Keyword {
    Begin,
    End,
    Error,
    ClientDetached,
    ClientSessionChanged,
    ConfigError,
    Message,
    PasteBufferChanged,
    PasteBufferDeleted,
    SessionRenamed,
    Continue,
    PaneModeChanged,
    Pause,
    UnlinkedWindowAdd,
    UnlinkedWindowClose,
    UnlinkedWindowRenamed,
    WindowAdd,
    WindowClose,
    Output,
    ExtendedOutput,
    Exit,
    LayoutChange,
    SessionChanged,
    WindowRenamed,
    SessionWindowChanged,
    WindowPaneChanged,
    SessionsChanged,
    SubscriptionChanged,
}

/// The text of a keyword, with the space that separates it from its first field.
pub open spec fn keyword_text(keyword: Keyword) -> Seq<char> {
    match keyword {
        Keyword::Begin => "%begin "@,
        Keyword::End => "%end "@,
        Keyword::Error => "%error "@,
        Keyword::ClientDetached => "%client-detached "@,
        Keyword::ClientSessionChanged => "%client-session-changed "@,
        Keyword::ConfigError => "%config-error "@,
        Keyword::Message => "%message "@,
        Keyword::PasteBufferChanged => "%paste-buffer-changed "@,
        Keyword::PasteBufferDeleted => "%paste-buffer-deleted "@,
        Keyword::SessionRenamed => "%session-renamed "@,
        Keyword::Continue => "%continue "@,
        Keyword::PaneModeChanged => "%pane-mode-changed "@,
        Keyword::Pause => "%pause "@,
        Keyword::UnlinkedWindowAdd => "%unlinked-window-add "@,
        Keyword::UnlinkedWindowClose => "%unlinked-window-close "@,
        Keyword::UnlinkedWindowRenamed => "%unlinked-window-renamed "@,
        Keyword::WindowAdd => "%window-add "@,
        Keyword::WindowClose => "%window-close "@,
        Keyword::Output => "%output "@,
        Keyword::ExtendedOutput => "%extended-output "@,
        Keyword::Exit => "%exit"@,
        Keyword::LayoutChange => "%layout-change "@,
        Keyword::SessionChanged => "%session-changed "@,
        Keyword::WindowRenamed => "%window-renamed "@,
        Keyword::SessionWindowChanged => "%session-window-changed "@,
        Keyword::WindowPaneChanged => "%window-pane-changed "@,
        Keyword::SessionsChanged => "%sessions-changed"@,
        Keyword::SubscriptionChanged => "%subscription-changed "@,
    }
}

/// The keyword that `t` begins with, and what follows it. No keyword is the beginning
/// of another.
pub open spec fn take_keyword(t: Seq<char>) -> Option<(Keyword, Seq<char>)> {
    if let Some(s) = after_prefix(t, keyword_text(Keyword::Begin)) {
        Some((Keyword::Begin, s))
    } else if let Some(s) = after_prefix(t, keyword_text(Keyword::End)) {
        Some((Keyword::End, s))
    } else if let Some(s) = after_prefix(t, keyword_text(Keyword::Error)) {
        Some((Keyword::Error, s))
    } else if let Some(s) = after_prefix(t, keyword_text(Keyword::ClientDetached)) {
        Some((Keyword::ClientDetached, s))
    } else if let Some(s) = after_prefix(t, keyword_text(Keyword::ClientSessionChanged)) {
        Some((Keyword::ClientSessionChanged, s))
    } else if let Some(s) = after_prefix(t, keyword_text(Keyword::ConfigError)) {
        Some((Keyword::ConfigError, s))
    } else if let Some(s) = after_prefix(t, keyword_text(Keyword::Message)) {
        Some((Keyword::Message, s))
    } else if let Some(s) = after_prefix(t, keyword_text(Keyword::PasteBufferChanged)) {
        Some((Keyword::PasteBufferChanged, s))
    } else if let Some(s) = after_prefix(t, keyword_text(Keyword::PasteBufferDeleted)) {
        Some((Keyword::PasteBufferDeleted, s))
    } else if let Some(s) = after_prefix(t, keyword_text(Keyword::SessionRenamed)) {
        Some((Keyword::SessionRenamed, s))
    } else if let Some(s) = after_prefix(t, keyword_text(Keyword::Continue)) {
        Some((Keyword::Continue, s))
    } else if let Some(s) = after_prefix(t, keyword_text(Keyword::PaneModeChanged)) {
        Some((Keyword::PaneModeChanged, s))
    } else if let Some(s) = after_prefix(t, keyword_text(Keyword::Pause)) {
        Some((Keyword::Pause, s))
    } else if let Some(s) = after_prefix(t, keyword_text(Keyword::UnlinkedWindowAdd)) {
        Some((Keyword::UnlinkedWindowAdd, s))
    } else if let Some(s) = after_prefix(t, keyword_text(Keyword::UnlinkedWindowClose)) {
        Some((Keyword::UnlinkedWindowClose, s))
    } else if let Some(s) = after_prefix(t, keyword_text(Keyword::UnlinkedWindowRenamed)) {
        Some((Keyword::UnlinkedWindowRenamed, s))
    } else if let Some(s) = after_prefix(t, keyword_text(Keyword::WindowAdd)) {
        Some((Keyword::WindowAdd, s))
    } else if let Some(s) = after_prefix(t, keyword_text(Keyword::WindowClose)) {
        Some((Keyword::WindowClose, s))
    } else if let Some(s) = after_prefix(t, keyword_text(Keyword::Output)) {
        Some((Keyword::Output, s))
    } else if let Some(s) = after_prefix(t, keyword_text(Keyword::ExtendedOutput)) {
        Some((Keyword::ExtendedOutput, s))
    } else if let Some(s) = after_prefix(t, keyword_text(Keyword::Exit)) {
        Some((Keyword::Exit, s))
    } else if let Some(s) = after_prefix(t, keyword_text(Keyword::LayoutChange)) {
        Some((Keyword::LayoutChange, s))
    } else if let Some(s) = after_prefix(t, keyword_text(Keyword::SessionChanged)) {
        Some((Keyword::SessionChanged, s))
    } else if let Some(s) = after_prefix(t, keyword_text(Keyword::WindowRenamed)) {
        Some((Keyword::WindowRenamed, s))
    } else if let Some(s) = after_prefix(t, keyword_text(Keyword::SessionWindowChanged)) {
        Some((Keyword::SessionWindowChanged, s))
    } else if let Some(s) = after_prefix(t, keyword_text(Keyword::WindowPaneChanged)) {
        Some((Keyword::WindowPaneChanged, s))
    } else if let Some(s) = after_prefix(t, keyword_text(Keyword::SessionsChanged)) {
        Some((Keyword::SessionsChanged, s))
    } else if let Some(s) = after_prefix(t, keyword_text(Keyword::SubscriptionChanged)) {
        Some((Keyword::SubscriptionChanged, s))
    } else {
        None
    }
}

/// Splits the keyword off the front of a line.
fn split_keyword(t: &[char]) -> (r: Option<(Keyword, &[char])>)
    ensures
        match r {
            Some((keyword, s)) => take_keyword(t@) == Some((keyword, s@)) && s@.len() <= t@.len(),
            None => take_keyword(t@) is None,
        },
{
    if let Some(s) = strip_str(t, "%begin ") {
        return Some((Keyword::Begin, s));
    }
    if let Some(s) = strip_str(t, "%end ") {
        return Some((Keyword::End, s));
    }
    if let Some(s) = strip_str(t, "%error ") {
        return Some((Keyword::Error, s));
    }
    if let Some(s) = strip_str(t, "%client-detached ") {
        return Some((Keyword::ClientDetached, s));
    }
    if let Some(s) = strip_str(t, "%client-session-changed ") {
        return Some((Keyword::ClientSessionChanged, s));
    }
    if let Some(s) = strip_str(t, "%config-error ") {
        return Some((Keyword::ConfigError, s));
    }
    if let Some(s) = strip_str(t, "%message ") {
        return Some((Keyword::Message, s));
    }
    if let Some(s) = strip_str(t, "%paste-buffer-changed ") {
        return Some((Keyword::PasteBufferChanged, s));
    }
    if let Some(s) = strip_str(t, "%paste-buffer-deleted ") {
        return Some((Keyword::PasteBufferDeleted, s));
    }
    if let Some(s) = strip_str(t, "%session-renamed ") {
        return Some((Keyword::SessionRenamed, s));
    }
    if let Some(s) = strip_str(t, "%continue ") {
        return Some((Keyword::Continue, s));
    }
    if let Some(s) = strip_str(t, "%pane-mode-changed ") {
        return Some((Keyword::PaneModeChanged, s));
    }
    if let Some(s) = strip_str(t, "%pause ") {
        return Some((Keyword::Pause, s));
    }
    if let Some(s) = strip_str(t, "%unlinked-window-add ") {
        return Some((Keyword::UnlinkedWindowAdd, s));
    }
    if let Some(s) = strip_str(t, "%unlinked-window-close ") {
        return Some((Keyword::UnlinkedWindowClose, s));
    }
    if let Some(s) = strip_str(t, "%unlinked-window-renamed ") {
        return Some((Keyword::UnlinkedWindowRenamed, s));
    }
    if let Some(s) = strip_str(t, "%window-add ") {
        return Some((Keyword::WindowAdd, s));
    }
    if let Some(s) = strip_str(t, "%window-close ") {
        return Some((Keyword::WindowClose, s));
    }
    if let Some(s) = strip_str(t, "%output ") {
        return Some((Keyword::Output, s));
    }
    if let Some(s) = strip_str(t, "%extended-output ") {
        return Some((Keyword::ExtendedOutput, s));
    }
    if let Some(s) = strip_str(t, "%exit") {
        return Some((Keyword::Exit, s));
    }
    if let Some(s) = strip_str(t, "%layout-change ") {
        return Some((Keyword::LayoutChange, s));
    }
    if let Some(s) = strip_str(t, "%session-changed ") {
        return Some((Keyword::SessionChanged, s));
    }
    if let Some(s) = strip_str(t, "%window-renamed ") {
        return Some((Keyword::WindowRenamed, s));
    }
    if let Some(s) = strip_str(t, "%session-window-changed ") {
        return Some((Keyword::SessionWindowChanged, s));
    }
    if let Some(s) = strip_str(t, "%window-pane-changed ") {
        return Some((Keyword::WindowPaneChanged, s));
    }
    if let Some(s) = strip_str(t, "%sessions-changed") {
        return Some((Keyword::SessionsChanged, s));
    }
    if let Some(s) = strip_str(t, "%subscription-changed ") {
        return Some((Keyword::SubscriptionChanged, s));
    }
    None
}

// ---------------------------------------------------------------------------
// Lines
// ---------------------------------------------------------------------------

/// The event that `keyword` and the fields `s` announce, and the error if they announce
/// none. `len` is the length of the line's text; pane output is taken from the bytes
/// `line` behind the pane's id, which the decoding leaves in place.
pub open spec fn keyword_event(
    keyword: Keyword,
    line: Seq<u8>,
    len: int,
    s: Seq<char>,
) -> Result<EventView, Error> {
    match keyword {
        Keyword::Begin => {
            match guard_fields(s) {
                Some((timestamp, number, flags)) => Ok(
                    EventView::Begin { timestamp, number, flags },
                ),
                None => Err(Error::UnrecognizedLine),
            }
        },
        Keyword::End => {
            match guard_fields(s) {
                Some((timestamp, number, flags)) => Ok(EventView::End { timestamp, number, flags }),
                None => Err(Error::UnrecognizedLine),
            }
        },
        Keyword::Error => {
            match guard_fields(s) {
                Some((timestamp, number, flags)) => Ok(
                    EventView::Error { timestamp, number, flags },
                ),
                None => Err(Error::UnrecognizedLine),
            }
        },
        Keyword::ClientDetached => {
            match only_client(s) {
                Some(client) => match unescaped_text(client) {
                    Ok(client_name) => Ok(EventView::ClientDetached { client_name }),
                    Err(e) => Err(e),
                },
                None => Err(Error::UnrecognizedLine),
            }
        },
        Keyword::ClientSessionChanged => {
            match client_session_fields(s) {
                Some((client, session, name)) => match unescaped_text(client) {
                    Ok(client_name) => match unescaped_text(name) {
                        Ok(session_name) => Ok(
                            EventView::ClientSessionChanged { client_name, session, session_name },
                        ),
                        Err(e) => Err(e),
                    },
                    Err(e) => Err(e),
                },
                None => Err(Error::UnrecognizedLine),
            }
        },
        Keyword::ConfigError => {
            match unescaped_text(s) {
                Ok(error) => Ok(EventView::ConfigError { error }),
                Err(e) => Err(e),
            }
        },
        Keyword::Message => {
            match unescaped_text(s) {
                Ok(message) => Ok(EventView::Message { message }),
                Err(e) => Err(e),
            }
        },
        Keyword::PasteBufferChanged => {
            match unescaped_text(s) {
                Ok(buffer) => Ok(EventView::PasteBufferChanged { buffer }),
                Err(e) => Err(e),
            }
        },
        Keyword::PasteBufferDeleted => {
            match unescaped_text(s) {
                Ok(buffer) => Ok(EventView::PasteBufferDeleted { buffer }),
                Err(e) => Err(e),
            }
        },
        Keyword::SessionRenamed => {
            match unescaped_text(s) {
                Ok(name) => Ok(EventView::SessionRenamed { name }),
                Err(e) => Err(e),
            }
        },
        Keyword::Continue => {
            match only_id(s, '%') {
                Some(pane) => Ok(EventView::Continue { pane }),
                None => Err(Error::UnrecognizedLine),
            }
        },
        Keyword::PaneModeChanged => {
            match only_id(s, '%') {
                Some(pane) => Ok(EventView::PaneModeChanged { pane }),
                None => Err(Error::UnrecognizedLine),
            }
        },
        Keyword::Pause => {
            match only_id(s, '%') {
                Some(pane) => Ok(EventView::Pause { pane }),
                None => Err(Error::UnrecognizedLine),
            }
        },
        Keyword::UnlinkedWindowAdd => {
            match only_id(s, '@') {
                Some(window) => Ok(EventView::UnlinkedWindowAdd { window }),
                None => Err(Error::UnrecognizedLine),
            }
        },
        Keyword::UnlinkedWindowClose => {
            match only_id(s, '@') {
                Some(window) => Ok(EventView::UnlinkedWindowClose { window }),
                None => Err(Error::UnrecognizedLine),
            }
        },
        Keyword::UnlinkedWindowRenamed => {
            match only_id(s, '@') {
                Some(window) => Ok(EventView::UnlinkedWindowRenamed { window }),
                None => Err(Error::UnrecognizedLine),
            }
        },
        Keyword::WindowAdd => {
            match only_id(s, '@') {
                Some(window) => Ok(EventView::WindowAdd { window }),
                None => Err(Error::UnrecognizedLine),
            }
        },
        Keyword::WindowClose => {
            match only_id(s, '@') {
                Some(window) => Ok(EventView::WindowClose { window }),
                None => Err(Error::UnrecognizedLine),
            }
        },
        Keyword::Output => {
            match id_and_text(s, '%') {
                Some((pane, rest)) => match unescaped(line.skip(len - rest.len())) {
                    Ok(text) => Ok(EventView::Output { pane, text }),
                    Err(e) => Err(e),
                },
                None => Err(Error::UnrecognizedLine),
            }
        },
        Keyword::ExtendedOutput => {
            match id_and_text(s, '%') {
                Some((pane, rest)) => match unescaped(line.skip(len - rest.len())) {
                    Ok(text) => Ok(EventView::ExtendedOutput { pane, text }),
                    Err(e) => Err(e),
                },
                None => Err(Error::UnrecognizedLine),
            }
        },
        Keyword::Exit => {
            if s.len() == 0 {
                Ok(EventView::Exit { reason: None })
            } else {
                match after_char(s, ' ') {
                    Some(reason) => Ok(EventView::Exit { reason: Some(reason) }),
                    None => Err(Error::UnrecognizedLine),
                }
            }
        },
        Keyword::LayoutChange => {
            match id_and_text(s, '@') {
                Some((window, s)) => match layout_fields(s) {
                    Some((layout, visible_layout, raw_flags)) => match unescaped_text(layout) {
                        Ok(layout) => Ok(
                            EventView::LayoutChange { window, layout, visible_layout, raw_flags },
                        ),
                        Err(e) => Err(e),
                    },
                    None => Err(Error::UnrecognizedLine),
                },
                None => Err(Error::UnrecognizedLine),
            }
        },
        Keyword::SessionChanged => {
            match id_and_text(s, '$') {
                Some((session, rest)) => match unescaped_text(rest) {
                    Ok(name) => Ok(EventView::SessionChanged { session, name }),
                    Err(e) => Err(e),
                },
                None => Err(Error::UnrecognizedLine),
            }
        },
        Keyword::WindowRenamed => {
            match id_and_text(s, '@') {
                Some((window, rest)) => match unescaped_text(rest) {
                    Ok(name) => Ok(EventView::WindowRenamed { window, name }),
                    Err(e) => Err(e),
                },
                None => Err(Error::UnrecognizedLine),
            }
        },
        Keyword::SessionWindowChanged => {
            match two_ids(s, '$', '@') {
                Some((session, window)) => Ok(EventView::SessionWindowChanged { session, window }),
                None => Err(Error::UnrecognizedLine),
            }
        },
        Keyword::WindowPaneChanged => {
            match two_ids(s, '@', '%') {
                Some((window, pane)) => Ok(EventView::WindowPaneChanged { window, pane }),
                None => Err(Error::UnrecognizedLine),
            }
        },
        Keyword::SessionsChanged => {
            if s.len() == 0 {
                Ok(EventView::SessionsChanged)
            } else {
                Err(Error::UnrecognizedLine)
            }
        },
        Keyword::SubscriptionChanged => {
            Ok(subscription_event(s))
        },
    }
}

/// The event that a line with the bytes `line` and the text `t` announces, and the
/// error if it announces none.
pub open spec fn event_of(line: Seq<u8>, t: Seq<char>) -> Result<EventView, Error> {
    match take_keyword(t) {
        Some((keyword, s)) => keyword_event(keyword, line, t.len() as int, s),
        None => Err(Error::UnrecognizedLine),
    }
}

/// Whether a result is the announced event or error.
pub open spec fn announces(r: Result<Event, Error>, announced: Result<EventView, Error>) -> bool {
    match r {
        Ok(event) => announced == Ok::<EventView, Error>(event@),
        Err(e) => announced == Err::<EventView, Error>(e),
    }
}

fn unvis_tail(line: &[u8], from: usize) -> (r: Result<Vec<u8>, Error>)
    requires
        from <= line@.len(),
    ensures
        match r {
            Ok(bytes) => unescaped(line@.skip(from as int)) == Ok::<Seq<u8>, Error>(bytes@),
            Err(e) => unescaped(line@.skip(from as int)) == Err::<Seq<u8>, Error>(e),
        },
{
    let tail = slice_subrange(line, from, line.len());
    assert(tail@ == line@.skip(from as int));
    unvis_bytes(tail)
}

impl TmuxParser {
    /// Reads the fields `s` that `keyword` calls for.
    fn line_fields(keyword: Keyword, line: &[u8], len: usize, s: &[char]) -> (r: Result<
        Event,
        Error,
    >)
        requires
            s@.len() <= len <= line@.len(),
        ensures
            announces(r, keyword_event(keyword, line@, len as int, s@)),
    {
        match keyword {
            Keyword::Begin => {
                match parse_guard(s) {
                    Some((timestamp, number, flags)) => Ok(
                        Event::Begin { timestamp, number, flags },
                    ),
                    None => Err(Error::UnrecognizedLine),
                }
            },
            Keyword::End => {
                match parse_guard(s) {
                    Some((timestamp, number, flags)) => Ok(Event::End { timestamp, number, flags }),
                    None => Err(Error::UnrecognizedLine),
                }
            },
            Keyword::Error => {
                match parse_guard(s) {
                    Some((timestamp, number, flags)) => Ok(
                        Event::Error { timestamp, number, flags },
                    ),
                    None => Err(Error::UnrecognizedLine),
                }
            },
            Keyword::ClientDetached => {
                match read_only_client(s) {
                    Some(client) => {
                        let client_name = unvis_chars(client)?;
                        Ok(Event::ClientDetached { client_name })
                    },
                    None => Err(Error::UnrecognizedLine),
                }
            },
            Keyword::ClientSessionChanged => {
                match read_client_session(s) {
                    Some((client, session, name)) => {
                        let client_name = unvis_chars(client)?;
                        let session_name = unvis_chars(name)?;
                        Ok(Event::ClientSessionChanged { client_name, session, session_name })
                    },
                    None => Err(Error::UnrecognizedLine),
                }
            },
            Keyword::ConfigError => {
                let error = unvis_chars(s)?;
                Ok(Event::ConfigError { error })
            },
            Keyword::Message => {
                let message = unvis_chars(s)?;
                Ok(Event::Message { message })
            },
            Keyword::PasteBufferChanged => {
                let buffer = unvis_chars(s)?;
                Ok(Event::PasteBufferChanged { buffer })
            },
            Keyword::PasteBufferDeleted => {
                let buffer = unvis_chars(s)?;
                Ok(Event::PasteBufferDeleted { buffer })
            },
            Keyword::SessionRenamed => {
                let name = unvis_chars(s)?;
                Ok(Event::SessionRenamed { name })
            },
            Keyword::Continue => {
                match read_only_id(s, '%') {
                    Some(pane) => Ok(Event::Continue { pane }),
                    None => Err(Error::UnrecognizedLine),
                }
            },
            Keyword::PaneModeChanged => {
                match read_only_id(s, '%') {
                    Some(pane) => Ok(Event::PaneModeChanged { pane }),
                    None => Err(Error::UnrecognizedLine),
                }
            },
            Keyword::Pause => {
                match read_only_id(s, '%') {
                    Some(pane) => Ok(Event::Pause { pane }),
                    None => Err(Error::UnrecognizedLine),
                }
            },
            Keyword::UnlinkedWindowAdd => {
                match read_only_id(s, '@') {
                    Some(window) => Ok(Event::UnlinkedWindowAdd { window }),
                    None => Err(Error::UnrecognizedLine),
                }
            },
            Keyword::UnlinkedWindowClose => {
                match read_only_id(s, '@') {
                    Some(window) => Ok(Event::UnlinkedWindowClose { window }),
                    None => Err(Error::UnrecognizedLine),
                }
            },
            Keyword::UnlinkedWindowRenamed => {
                match read_only_id(s, '@') {
                    Some(window) => Ok(Event::UnlinkedWindowRenamed { window }),
                    None => Err(Error::UnrecognizedLine),
                }
            },
            Keyword::WindowAdd => {
                match read_only_id(s, '@') {
                    Some(window) => Ok(Event::WindowAdd { window }),
                    None => Err(Error::UnrecognizedLine),
                }
            },
            Keyword::WindowClose => {
                match read_only_id(s, '@') {
                    Some(window) => Ok(Event::WindowClose { window }),
                    None => Err(Error::UnrecognizedLine),
                }
            },
            Keyword::Output => {
                match read_id_and_text(s, '%') {
                    Some((pane, rest)) => {
                        let text = unvis_tail(line, len - rest.len())?;
                        Ok(Event::Output { pane, text })
                    },
                    None => Err(Error::UnrecognizedLine),
                }
            },
            Keyword::ExtendedOutput => {
                match read_id_and_text(s, '%') {
                    Some((pane, rest)) => {
                        let text = unvis_tail(line, len - rest.len())?;
                        Ok(Event::ExtendedOutput { pane, text })
                    },
                    None => Err(Error::UnrecognizedLine),
                }
            },
            Keyword::Exit => {
                if s.len() == 0 {
                    return Ok(Event::Exit { reason: None });
                }
                match strip_char(s, ' ') {
                    Some(reason) => Ok(Event::Exit { reason: Some(string_of(reason)) }),
                    None => Err(Error::UnrecognizedLine),
                }
            },
            Keyword::LayoutChange => {
                let (window, s) = match read_id_and_text(s, '@') {
                    Some(r) => r,
                    None => {
                        return Err(Error::UnrecognizedLine);
                    },
                };
                match read_layouts(s) {
                    Some((layout, None)) => {
                        let layout = unvis_chars(layout)?;
                        Ok(
                            Event::LayoutChange {
                                window,
                                layout,
                                visible_layout: None,
                                raw_flags: None,
                            },
                        )
                    },
                    Some((layout, Some((visible, flags)))) => {
                        let layout = unvis_chars(layout)?;
                        let visible_layout = Some(string_of(visible));
                        let raw_flags = Some(string_of(flags));
                        Ok(Event::LayoutChange { window, layout, visible_layout, raw_flags })
                    },
                    None => Err(Error::UnrecognizedLine),
                }
            },
            Keyword::SessionChanged => {
                match read_id_and_text(s, '$') {
                    Some((session, rest)) => {
                        let name = unvis_chars(rest)?;
                        Ok(Event::SessionChanged { session, name })
                    },
                    None => Err(Error::UnrecognizedLine),
                }
            },
            Keyword::WindowRenamed => {
                match read_id_and_text(s, '@') {
                    Some((window, rest)) => {
                        let name = unvis_chars(rest)?;
                        Ok(Event::WindowRenamed { window, name })
                    },
                    None => Err(Error::UnrecognizedLine),
                }
            },
            Keyword::SessionWindowChanged => {
                match read_two_ids(s, '$', '@') {
                    Some((session, window)) => Ok(Event::SessionWindowChanged { session, window }),
                    None => Err(Error::UnrecognizedLine),
                }
            },
            Keyword::WindowPaneChanged => {
                match read_two_ids(s, '@', '%') {
                    Some((window, pane)) => Ok(Event::WindowPaneChanged { window, pane }),
                    None => Err(Error::UnrecognizedLine),
                }
            },
            Keyword::SessionsChanged => {
                if s.len() == 0 {
                    Ok(Event::SessionsChanged)
                } else {
                    Err(Error::UnrecognizedLine)
                }
            },
            Keyword::SubscriptionChanged => {
                Ok(parse_subscription_changed(s))
            },
        }
    }

    /// Reads a whole line, given its bytes and its text.
    pub fn line_entire(line: &[u8], text: &str) -> (r: Result<Event, Error>)
        requires
            text@.len() <= line@.len(),
        ensures
            announces(r, event_of(line@, text@)),
    {
        let t = chars_of(text);
        match split_keyword(t.as_slice()) {
            Some((keyword, s)) => TmuxParser::line_fields(keyword, line, t.len(), s),
            None => Err(Error::UnrecognizedLine),
        }
    }
}

/// Whether a text begins as pane output does, up to the space behind the pane's id.
pub open spec fn is_output(t: Seq<char>) -> bool {
    match take_keyword(t) {
        Some((keyword, s)) => (keyword == Keyword::Output || keyword == Keyword::ExtendedOutput)
            && id_and_text(s, '%') is Some,
        None => false,
    }
}

/// The event that the bytes of a line announce, and the error if they announce none. A line
/// is read by its text; pane output is read by the ASCII that it begins with, so that its
/// bytes need not be text.
#[verifier::opaque]
pub open spec fn announced(line: Seq<u8>) -> Result<EventView, Error> {
    if is_output(ascii_text(line)) {
        event_of(line, ascii_text(line))
    } else {
        event_of(line, decoded(line))
    }
}

/// What follows an id and a space has no part in them.
proof fn lemma_id_and_text_extends(s: Seq<char>, sigil: char, more: Seq<char>)
    ensures
        id_and_text(s, sigil) matches Some((id, text)) ==> id_and_text(s + more, sigil) == Some(
            (id, text + more),
        ),
{
    if id_and_text(s, sigil) is Some {
        let digits = s.skip(1);
        let long = (s + more).skip(1);
        let n = run_len(CharClass::Digit, digits);
        lemma_run_len(CharClass::Digit, digits);
        assert(long == digits + more);
        assert forall|i: int| 0 <= i < n implies in_class(CharClass::Digit, #[trigger] long[i]) by {
            assert(long[i] == digits[i]);
        }
        let rest = digits.skip(n as int);
        assert(rest[0] == digits[n as int]);
        assert(long[n as int] == digits[n as int]);
        lemma_run_len_is(CharClass::Digit, long, n as int);
        assert(long.take(n as int) == digits.take(n as int));
        assert(long.skip(n as int) == rest + more);
        assert((rest + more).skip(1) == rest.skip(1) + more);
    }
}

/// Pane output is read by what stands before its text, whatever the text is read as.
proof fn lemma_output_is_read_by_its_front(line: Seq<u8>, front: Seq<char>, t: Seq<char>)
    requires
        is_output(front),
        front.is_prefix_of(t),
    ensures
        event_of(line, t) == event_of(line, front),
{
    let (keyword, s) = take_keyword(front)->0;
    let k = keyword_text(keyword);
    let more = t.skip(front.len() as int);
    assert(k.is_prefix_of(front) && s == front.skip(k.len() as int));
    assert(k == front.subrange(0, k.len() as int));
    assert(front == k + s);
    assert(front == t.subrange(0, front.len() as int));
    assert(t == front + more);
    assert(t == k + (s + more));
    law_keyword_reads_back(keyword, s + more);
    lemma_id_and_text_extends(s, '%', more);
}

/// Reads a line of the control mode stream, without its line ending.
pub fn parse_line(line: &[u8]) -> (r: Result<Event, Error>)
    ensures
        announces(r, announced(line@)),
        valid_utf8(line@) ==> announces(r, event_of(line@, decode_utf8(line@))),
{
    let text = decode_lossy(line);
    proof {
        reveal(announced);
        if is_output(ascii_text(line@)) {
            lemma_output_is_read_by_its_front(line@, ascii_text(line@), text@);
        }
    }
    TmuxParser::line_entire(line, text.as_str())
}

// ---------------------------------------------------------------------------
// Laws
// ---------------------------------------------------------------------------

/// The characters of a text at the positions that tell the keywords apart.
spec fn mark(t: Seq<char>) -> (char, char, char, char, char) {
    (
        if 1 < t.len() { t[1] } else { '\0' },
        if 3 < t.len() { t[3] } else { '\0' },
        if 8 < t.len() { t[8] } else { '\0' },
        if 9 < t.len() { t[9] } else { '\0' },
        if 17 < t.len() { t[17] } else { '\0' },
    )
}

/// The mark of each keyword.
proof fn lemma_keyword_mark(keyword: Keyword)
    ensures
        mark(keyword_text(keyword)) == match keyword {
            Keyword::Begin => ('b', 'g', '\0', '\0', '\0'),
            Keyword::End => ('e', 'd', '\0', '\0', '\0'),
            Keyword::Error => ('e', 'r', '\0', '\0', '\0'),
            Keyword::ClientDetached => ('c', 'i', 'd', 'e', '\0'),
            Keyword::ClientSessionChanged => ('c', 'i', 's', 'e', 'h'),
            Keyword::ConfigError => ('c', 'n', 'e', 'r', '\0'),
            Keyword::Message => ('m', 's', ' ', '\0', '\0'),
            Keyword::PasteBufferChanged => ('p', 's', 'u', 'f', 'n'),
            Keyword::PasteBufferDeleted => ('p', 's', 'u', 'f', 'e'),
            Keyword::SessionRenamed => ('s', 's', '-', 'r', '\0'),
            Keyword::Continue => ('c', 'n', 'e', ' ', '\0'),
            Keyword::PaneModeChanged => ('p', 'n', 'd', 'e', 'd'),
            Keyword::Pause => ('p', 'u', '\0', '\0', '\0'),
            Keyword::UnlinkedWindowAdd => ('u', 'l', 'd', '-', 'a'),
            Keyword::UnlinkedWindowClose => ('u', 'l', 'd', '-', 'c'),
            Keyword::UnlinkedWindowRenamed => ('u', 'l', 'd', '-', 'r'),
            Keyword::WindowAdd => ('w', 'n', 'a', 'd', '\0'),
            Keyword::WindowClose => ('w', 'n', 'c', 'l', '\0'),
            Keyword::Output => ('o', 't', '\0', '\0', '\0'),
            Keyword::ExtendedOutput => ('e', 't', 'd', '-', '\0'),
            Keyword::Exit => ('e', 'i', '\0', '\0', '\0'),
            Keyword::LayoutChange => ('l', 'y', 'c', 'h', '\0'),
            Keyword::SessionChanged => ('s', 's', '-', 'c', '\0'),
            Keyword::WindowRenamed => ('w', 'n', 'r', 'e', '\0'),
            Keyword::SessionWindowChanged => ('s', 's', '-', 'w', 'h'),
            Keyword::WindowPaneChanged => ('w', 'n', 'p', 'a', 'g'),
            Keyword::SessionsChanged => ('s', 's', 's', '-', '\0'),
            Keyword::SubscriptionChanged => ('s', 'b', 'p', 't', 'n'),
        },
        keyword_text(keyword).len() > 0,
{
    match keyword {
        Keyword::Begin => {
            reveal_strlit("%begin ");
        },
        Keyword::End => {
            reveal_strlit("%end ");
        },
        Keyword::Error => {
            reveal_strlit("%error ");
        },
        Keyword::ClientDetached => {
            reveal_strlit("%client-detached ");
        },
        Keyword::ClientSessionChanged => {
            reveal_strlit("%client-session-changed ");
        },
        Keyword::ConfigError => {
            reveal_strlit("%config-error ");
        },
        Keyword::Message => {
            reveal_strlit("%message ");
        },
        Keyword::PasteBufferChanged => {
            reveal_strlit("%paste-buffer-changed ");
        },
        Keyword::PasteBufferDeleted => {
            reveal_strlit("%paste-buffer-deleted ");
        },
        Keyword::SessionRenamed => {
            reveal_strlit("%session-renamed ");
        },
        Keyword::Continue => {
            reveal_strlit("%continue ");
        },
        Keyword::PaneModeChanged => {
            reveal_strlit("%pane-mode-changed ");
        },
        Keyword::Pause => {
            reveal_strlit("%pause ");
        },
        Keyword::UnlinkedWindowAdd => {
            reveal_strlit("%unlinked-window-add ");
        },
        Keyword::UnlinkedWindowClose => {
            reveal_strlit("%unlinked-window-close ");
        },
        Keyword::UnlinkedWindowRenamed => {
            reveal_strlit("%unlinked-window-renamed ");
        },
        Keyword::WindowAdd => {
            reveal_strlit("%window-add ");
        },
        Keyword::WindowClose => {
            reveal_strlit("%window-close ");
        },
        Keyword::Output => {
            reveal_strlit("%output ");
        },
        Keyword::ExtendedOutput => {
            reveal_strlit("%extended-output ");
        },
        Keyword::Exit => {
            reveal_strlit("%exit");
        },
        Keyword::LayoutChange => {
            reveal_strlit("%layout-change ");
        },
        Keyword::SessionChanged => {
            reveal_strlit("%session-changed ");
        },
        Keyword::WindowRenamed => {
            reveal_strlit("%window-renamed ");
        },
        Keyword::SessionWindowChanged => {
            reveal_strlit("%session-window-changed ");
        },
        Keyword::WindowPaneChanged => {
            reveal_strlit("%window-pane-changed ");
        },
        Keyword::SessionsChanged => {
            reveal_strlit("%sessions-changed");
        },
        Keyword::SubscriptionChanged => {
            reveal_strlit("%subscription-changed ");
        },
    }
}

/// Two keywords differ at a position that both have.
proof fn lemma_keywords_differ(a: Keyword, b: Keyword)
    requires
        a != b,
    ensures
        exists|i: int|
            0 <= i < keyword_text(a).len() && i < keyword_text(b).len() && #[trigger] keyword_text(
                a,
            )[i] != keyword_text(b)[i],
{
    lemma_keyword_mark(a);
    lemma_keyword_mark(b);
    let s = keyword_text(a);
    let t = keyword_text(b);
    assert(mark(s) != mark(t));
    assert(s[1] != t[1] || s[3] != t[3] || mark(s).2 != mark(t).2 || mark(s).3 != mark(t).3
        || mark(s).4 != mark(t).4);
}

/// The keyword that a line was begun with is the keyword that is read: none is the
/// beginning of another.
pub proof fn law_keyword_reads_back(keyword: Keyword, s: Seq<char>)
    ensures
        take_keyword(keyword_text(keyword) + s) == Some((keyword, s)),
{
    let k = keyword_text(keyword);
    let t = k + s;
    assert(t.skip(k.len() as int) == s);
    assert(k == t.take(k.len() as int));
    assert forall|other: Keyword| other != keyword implies !(#[trigger] keyword_text(
        other,
    )).is_prefix_of(t) by {
        let o = keyword_text(other);
        lemma_keywords_differ(other, keyword);
        let i = choose|i: int| 0 <= i < o.len() && i < k.len() && #[trigger] o[i] != k[i];
        if o.is_prefix_of(t) {
            assert(o[i] == t.subrange(0, o.len() as int)[i]);
        }
    }
}

/// A line of text announces what its characters say.
pub proof fn law_text_is_read_by_its_characters(t: Seq<char>)
    ensures
        announced(encode_utf8(t)) == event_of(encode_utf8(t), t),
{
    let line = encode_utf8(t);
    reveal(announced);
    encode_utf8_valid_utf8(t);
    encode_utf8_decode_utf8(t);
    lemma_ascii_front_of_utf8(line);
    if is_output(ascii_text(line)) {
        lemma_output_is_read_by_its_front(line, ascii_text(line), t);
    }
}

/// Pane output that tmux has escaped comes out as the bytes that the pane wrote,
/// whatever the rest of the line decodes to.
pub proof fn law_output_reads_back(
    pane: u64,
    output: Seq<u8>,
    front: Seq<u8>,
    rest: Seq<char>,
)
    requires
        front.len() == ("%output "@ + seq!['%'] + decimal(pane as nat) + seq![' ']).len(),
    ensures
        event_of(
            front + escaped(output),
            "%output "@ + seq!['%'] + decimal(pane as nat) + seq![' '] + rest,
        ) == Ok::<EventView, Error>(EventView::Output { pane, text: output }),
{
    let s = seq!['%'] + decimal(pane as nat) + seq![' '] + rest;
    let t = "%output "@ + seq!['%'] + decimal(pane as nat) + seq![' '] + rest;
    assert(t == keyword_text(Keyword::Output) + s);
    law_keyword_reads_back(Keyword::Output, s);
    assert(s.skip(1) == decimal(pane as nat) + (seq![' '] + rest));
    lemma_take_decimal(pane, seq![' '] + rest);
    assert((seq![' '] + rest).skip(1) == rest);
    law_unvis_inverts_escaping(output);
    assert((front + escaped(output)).skip(front.len() as int) == escaped(output));
}

/// The line with which tmux announces the output of a pane.
pub open spec fn output_line(pane: u64, output: Seq<u8>) -> Seq<u8> {
    ascii_bytes("%output "@ + seq!['%'] + decimal(pane as nat) + seq![' ']) + escaped(output)
}

/// Pane output comes out of its line as the bytes that the pane wrote, whether they are text
/// or not.
pub proof fn law_output_line_reads_back(pane: u64, output: Seq<u8>)
    ensures
        announced(output_line(pane, output)) == Ok::<EventView, Error>(
            EventView::Output { pane, text: output },
        ),
{
    let line = output_line(pane, output);
    let d = decimal(pane as nat);
    let front = "%output "@ + seq!['%'] + d + seq![' '];
    let t = ascii_text(line);
    law_decimal_reads_back(pane as nat);
    assert forall|i: int| 0 <= i < front.len() implies (#[trigger] front[i] as int) < 0x80 by {
        reveal_strlit("%output ");
        if 9 <= i < 9 + d.len() {
            assert(front[i] == d[i - 9]);
            assert(is_digit(d[i - 9]));
        }
    }
    lemma_ascii_front_is_read(front, escaped(output));
    let rest = t.skip(front.len() as int);
    assert(front == t.subrange(0, front.len() as int));
    assert(t == front + rest);
    let s = seq!['%'] + d + seq![' '] + rest;
    assert(t == keyword_text(Keyword::Output) + s);
    law_keyword_reads_back(Keyword::Output, s);
    assert(s.skip(1) == d + (seq![' '] + rest));
    lemma_take_decimal(pane, seq![' '] + rest);
    law_output_reads_back(pane, output, ascii_bytes(front), rest);
    reveal(announced);
}

/// A guard line announces the numbers that tmux wrote into it.
pub proof fn law_guard_reads_back(line: Seq<u8>, timestamp: i64, number: u64, flags: i64)
    requires
        timestamp >= 0,
        flags >= 0,
    ensures
        ({
            let s = decimal(timestamp as nat) + seq![' '] + decimal(number as nat) + seq![' ']
                + decimal(flags as nat);
            &&& event_of(line, "%begin "@ + s) == Ok::<EventView, Error>(
                EventView::Begin { timestamp, number, flags },
            )
            &&& event_of(line, "%end "@ + s) == Ok::<EventView, Error>(
                EventView::End { timestamp, number, flags },
            )
            &&& event_of(line, "%error "@ + s) == Ok::<EventView, Error>(
                EventView::Error { timestamp, number, flags },
            )
        }),
{
    let last = decimal(flags as nat);
    let second = decimal(number as nat) + (seq![' '] + last);
    let s = decimal(timestamp as nat) + seq![' '] + decimal(number as nat) + seq![' '] + last;
    assert(s == decimal(timestamp as nat) + (seq![' '] + second));
    lemma_take_decimal(timestamp as u64, seq![' '] + second);
    assert((seq![' '] + second).skip(1) == second);
    lemma_take_decimal(number, seq![' '] + last);
    assert((seq![' '] + last).skip(1) == last);
    lemma_take_decimal(flags as u64, Seq::empty());
    assert(last + Seq::<char>::empty() == last);
    law_keyword_reads_back(Keyword::Begin, s);
    law_keyword_reads_back(Keyword::End, s);
    law_keyword_reads_back(Keyword::Error, s);
}

/// No body of a subscription notification, however malformed, fails the line.
pub proof fn law_subscription_is_never_refused(line: Seq<u8>, body: Seq<char>)
    ensures
        event_of(line, "%subscription-changed "@ + body) == Ok::<EventView, Error>(
            subscription_event(body),
        ),
{
    law_keyword_reads_back(Keyword::SubscriptionChanged, body);
}

pub proof fn lemma_only_id(id: u64, sigil: char)
    ensures
        only_id(seq![sigil] + decimal(id as nat), sigil) == Some(id),
{
    let d = decimal(id as nat);
    assert((seq![sigil] + d).skip(1) == d);
    assert(d + Seq::<char>::empty() == d);
    lemma_take_decimal(id, Seq::empty());
}

/// What a line that names nothing but a window or a pane announces: the sigil before the id,
/// and the event.
pub open spec fn id_event(keyword: Keyword, id: u64) -> Option<(char, EventView)> {
    match keyword {
        Keyword::WindowAdd => Some(('@', EventView::WindowAdd { window: id })),
        Keyword::WindowClose => Some(('@', EventView::WindowClose { window: id })),
        Keyword::UnlinkedWindowAdd => Some(('@', EventView::UnlinkedWindowAdd { window: id })),
        Keyword::UnlinkedWindowClose => Some(('@', EventView::UnlinkedWindowClose { window: id })),
        Keyword::UnlinkedWindowRenamed => Some(
            ('@', EventView::UnlinkedWindowRenamed { window: id }),
        ),
        Keyword::PaneModeChanged => Some(('%', EventView::PaneModeChanged { pane: id })),
        Keyword::Continue => Some(('%', EventView::Continue { pane: id })),
        Keyword::Pause => Some(('%', EventView::Pause { pane: id })),
        _ => None,
    }
}

/// A line that names a window or a pane announces what its keyword says of that id.
pub proof fn law_id_line_reads_back(keyword: Keyword, line: Seq<u8>, id: u64)
    ensures
        id_event(keyword, id) matches Some((sigil, event)) ==> event_of(
            line,
            keyword_text(keyword) + (seq![sigil] + decimal(id as nat)),
        ) == Ok::<EventView, Error>(event),
{
    if let Some((sigil, event)) = id_event(keyword, id) {
        let s = seq![sigil] + decimal(id as nat);
        lemma_only_id(id, sigil);
        law_keyword_reads_back(keyword, s);
    }
}

} // verus!
