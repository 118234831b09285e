//! The commands that are sent to tmux, and what tmux answers them with.

use vstd::prelude::*;
use vstd::slice::slice_subrange;

use crate::config::{target_token, TmuxFormatSubscription};
use crate::tab::SplitDirection;
use crate::text::{
    chars_of, contents, decimal, fields, is_digit, joined, law_decimal_reads_back,
    law_joined_fields_come_apart, parse_isize, parse_u64, parse_usize, push_decimal,
    signed_decimal, signed_in, split_fields, string_of, unsigned_in,
};
use crate::tmux_cc::event::Guarded;
use crate::tmux_cc::layout::{TmuxPaneId, TmuxSessionId, TmuxWindowId};
use crate::tmux_cc::line::{field_contents, get_field, nth, number_field, read_number_field};
use crate::tmux_cc::unvis::{unescaped_text, unvis, Error};

verus! {

/// Why something that tmux or the multiplexer said could not be acted on.
#[derive(Debug, Clone, Copy, PartialEq, Eq)]
pub enum TmuxError {
    /// tmux answered the command with an error.
    CommandFailed,
    /// A line of the answer does not have the form that was asked for.
    MalformedAnswer,
    /// The captured content of a pane is not escaped as it should be.
    MalformedContent(Error),
    /// The window's layout is no layout.
    InvalidLayout,
    /// The tmux window has no local tab.
    NoLocalTab(TmuxWindowId),
    /// The local tab no longer exists.
    LocalTabGone(usize),
    /// The local pane for a tmux pane could not be created.
    PaneCreationFailed(TmuxPaneId),
    /// The tmux pane has no local pane.
    PaneMissing(TmuxPaneId),
    /// The local pane no longer exists.
    LocalPaneMissing(usize),
    /// There is no window to show tmux tabs in.
    NoGuiWindow,
    /// The local tab of a tmux window could not be linked into the window that shows the tabs.
    TabNotLinked(TmuxWindowId),
    /// The local pane is not the peer of a tmux pane.
    NoTmuxPeer(usize),
}

// ---------------------------------------------------------------------------
// Command lines
// ---------------------------------------------------------------------------

/// list-panes for a single window, used purely to backfill cursor positions and
/// the active pane (which the layout string does not carry). Structure comes
/// from `%layout-change`.
#[derive(Debug, Clone, Copy, PartialEq, Eq)]
pub struct ListAllPanes {
    pub window_id: TmuxWindowId,
}

/// list-windows for a session; for a single window of it if `window_id` is given.
#[derive(Debug, Clone, Copy, PartialEq, Eq)]
pub struct ListAllWindows {
    pub session_id: TmuxSessionId,
    pub window_id: Option<TmuxWindowId>,
}

/// The size of a pseudo terminal, in cells.
#[derive(Debug, Clone, Copy, PartialEq, Eq)]
pub struct PtySize {
    pub rows: u16,
    pub cols: u16,
}

/// Resizes a pane, and the window with it.
#[derive(Debug, Clone, Copy, PartialEq, Eq)]
pub struct Resize {
    pub pane_id: TmuxPaneId,
    pub size: PtySize,
}

/// Captures the content of a pane, with as much of its history as is kept.
#[derive(Debug, Clone, Copy, PartialEq, Eq)]
pub struct CapturePane {
    pub pane_id: TmuxPaneId,
    pub history_limit: isize,
}

/// Sends bytes to a pane as keys.
#[derive(Debug, PartialEq, Eq)]
pub struct SendKeys {
    pub keys: Vec<u8>,
    pub pane: TmuxPaneId,
}

/// Creates a window.
#[derive(Debug, Clone, Copy, PartialEq, Eq)]
pub struct NewWindow;

/// Asks which commands tmux supports.
#[derive(Debug, Clone, Copy, PartialEq, Eq)]
pub struct ListCommands;

/// Registers tmux control-mode format subscriptions via `refresh-client -B`.
///
/// All subscriptions are registered in a single `refresh-client` invocation
/// (multiple `-B` flags) so this remains one command / one response in the
/// queue. Each `-B` argument is `name:what:format`; the format is single-quoted
/// so tmux's command parser passes it through literally (refresh-client expands
/// it itself, per subscription) rather than expanding `#{...}` at parse time.
#[derive(Debug, PartialEq, Eq)]
pub struct Subscribe {
    pub subs: Vec<TmuxFormatSubscription>,
}

/// Splits a pane.
#[derive(Debug, Clone, Copy, PartialEq, Eq)]
pub struct SplitPane {
    pub pane_id: TmuxPaneId,
    pub direction: SplitDirection,
}

/// Makes a window the active one.
#[derive(Debug, Clone, Copy, PartialEq, Eq)]
pub struct SelectWindow {
    pub window_id: TmuxWindowId,
}

/// Makes a pane the active one.
#[derive(Debug, Clone, Copy, PartialEq, Eq)]
pub struct SelectPane {
    pub pane_id: TmuxPaneId,
}

/// Injects an arbitrary tmux command line into the control stream, so that tmux key
/// bindings (which are otherwise bypassed in control mode) can be triggered via e.g.
/// `send-keys -K <chord>`. Fire-and-forget: errors are never bubbled up.
#[derive(Debug, PartialEq, Eq)]
pub struct RawCommand {
    pub command: String,
}

/// A dummy command which indicates that the attaching is done; it prevents the tmux output of
/// unexpected and unnecessary content when syncing with the back end in the attaching stage.
#[derive(Debug, Clone, Copy, PartialEq, Eq)]
pub struct AttachDone;

/// A command that is or will be sent to tmux.
#[derive(Debug, PartialEq, Eq)]
pub enum TmuxCommand {
    ListAllPanes(ListAllPanes),
    ListAllWindows(ListAllWindows),
    Resize(Resize),
    CapturePane(CapturePane),
    SendKeys(SendKeys),
    NewWindow(NewWindow),
    ListCommands(ListCommands),
    Subscribe(Subscribe),
    SplitPane(SplitPane),
    SelectWindow(SelectWindow),
    SelectPane(SelectPane),
    RawCommand(RawCommand),
    AttachDone(AttachDone),
}

/// The command line of [`ListAllPanes`].
pub open spec fn list_panes_line(window_id: TmuxWindowId) -> Seq<char> {
    "list-panes -F '#{session_id} #{window_id} #{pane_id} #{pane_index} #{cursor_x} #{cursor_y} #{pane_width} #{pane_height} #{pane_left} #{pane_top} #{pane_active}' -t @"@
        + decimal(window_id as nat) + "\n"@
}

impl ListAllPanes {
    pub fn get_command(&self) -> (line: String)
        ensures
            line@ == list_panes_line(self.window_id),
    {
        let mut line =
            "list-panes -F '#{session_id} #{window_id} #{pane_id} #{pane_index} #{cursor_x} #{cursor_y} #{pane_width} #{pane_height} #{pane_left} #{pane_top} #{pane_active}' -t @".to_owned();
        push_decimal(&mut line, self.window_id);
        line.append("\n");
        line
    }
}

/// The command line of [`ListAllWindows`].
pub open spec fn list_windows_line(session_id: TmuxSessionId) -> Seq<char> {
    "list-windows -F '#{session_id} #{window_id} #{window_width} #{window_height} #{window_active} #{window_name} #{window_layout} #{window_visible_layout} #{window_raw_flags} #{history_limit}' -t $"@
        + decimal(session_id as nat) + "\n"@
}

impl ListAllWindows {
    pub fn get_command(&self) -> (line: String)
        ensures
            line@ == list_windows_line(self.session_id),
    {
        let mut line =
            "list-windows -F '#{session_id} #{window_id} #{window_width} #{window_height} #{window_active} #{window_name} #{window_layout} #{window_visible_layout} #{window_raw_flags} #{history_limit}' -t $".to_owned();
        push_decimal(&mut line, self.session_id);
        line.append("\n");
        line
    }
}

/// ` -x {cols} -y {rows} -t {sigil}{id}` and a line feed.
pub open spec fn size_options(cols: nat, rows: nat, target: Seq<char>, id: nat) -> Seq<char> {
    " -x "@ + decimal(cols) + " -y "@ + decimal(rows) + " -t "@ + target + decimal(id) + "\n"@
}

/// The part of a resize that resizes the pane itself.
pub open spec fn resize_pane_line(r: Resize) -> Seq<char> {
    "resize-pane"@ + size_options(
        r.size.cols as nat,
        r.size.rows as nat,
        "%"@,
        r.pane_id as nat,
    )
}

/// Resizes the window by name, then the pane.
pub open spec fn resize_window_lines(
    r: Resize,
    cols: usize,
    rows: usize,
    window_id: TmuxWindowId,
) -> Seq<char> {
    "resize-window"@ + size_options(cols as nat, rows as nat, "@"@, window_id as nat)
        + resize_pane_line(r)
}

/// Resizes the window through the client's size, then the pane.
pub open spec fn refresh_client_lines(
    r: Resize,
    cols: usize,
    rows: usize,
    separator: Seq<char>,
) -> Seq<char> {
    "refresh-client -C "@ + decimal(cols as nat) + separator + decimal(rows as nat) + "\n"@
        + resize_pane_line(r)
}

fn push_size_options(line: &mut String, cols: u64, rows: u64, target: &str, id: u64)
    ensures
        final(line)@ == old(line)@ + size_options(cols as nat, rows as nat, target@, id as nat),
{
    line.append(" -x ");
    push_decimal(line, cols);
    line.append(" -y ");
    push_decimal(line, rows);
    line.append(" -t ");
    line.append(target);
    push_decimal(line, id);
    line.append("\n");
    assert(line@ == old(line)@ + size_options(cols as nat, rows as nat, target@, id as nat));
}

impl Resize {
    fn push_resize_pane(&self, line: &mut String)
        ensures
            final(line)@ == old(line)@ + resize_pane_line(*self),
    {
        line.append("resize-pane");
        push_size_options(
            line,
            self.size.cols as u64,
            self.size.rows as u64,
            "%",
            self.pane_id,
        );
        assert(line@ == old(line)@ + resize_pane_line(*self));
    }

    /// Resizes the window by name, then the pane.
    pub fn resize_window(&self, cols: usize, rows: usize, window_id: TmuxWindowId) -> (line: String)
        ensures
            line@ == resize_window_lines(*self, cols, rows, window_id),
    {
        let mut line = "resize-window".to_owned();
        push_size_options(&mut line, cols as u64, rows as u64, "@", window_id);
        self.push_resize_pane(&mut line);
        line
    }

    /// Resizes the window through the client's size, then the pane.
    pub fn refresh_client(&self, cols: usize, rows: usize, separator: &str) -> (line: String)
        ensures
            line@ == refresh_client_lines(*self, cols, rows, separator@),
    {
        let mut line = "refresh-client -C ".to_owned();
        push_decimal(&mut line, cols as u64);
        line.append(separator);
        push_decimal(&mut line, rows as u64);
        line.append("\n");
        self.push_resize_pane(&mut line);
        line
    }
}

/// The command line of [`CapturePane`].
pub open spec fn capture_pane_line(c: CapturePane) -> Seq<char> {
    "capture-pane -p -t %"@ + decimal(c.pane_id as nat) + " -e -C -S "@ + signed_decimal(
        -c.history_limit,
    ) + "\n"@
}

impl CapturePane {
    pub fn get_command(&self) -> (line: String)
        ensures
            line@ == capture_pane_line(*self),
    {
        let mut line = "capture-pane -p -t %".to_owned();
        push_decimal(&mut line, self.pane_id);
        line.append(" -e -C -S ");
        // the history lies above line 0
        if self.history_limit > 0 {
            line.append("-");
            push_decimal(&mut line, self.history_limit as u64);
            proof {
                reveal_strlit("-");
                assert("-"@ == seq!['-']);
            }
        } else if self.history_limit == isize::MIN {
            push_decimal(&mut line, isize::MAX as u64 + 1);
        } else {
            push_decimal(&mut line, (-self.history_limit) as u64);
        }
        line.append("\n");
        assert(line@ == capture_pane_line(*self));
        line
    }
}

/// The upper case hexadecimal digit with value `n`.
pub open spec fn upper_hex_char(n: int) -> char {
    if n < 10 {
        ('0' as int + n) as char
    } else {
        ('A' as int + (n - 10)) as char
    }
}

/// A byte in hexadecimal, without a leading zero.
pub open spec fn upper_hex(b: u8) -> Seq<char> {
    if b < 16 {
        seq![upper_hex_char(b as int)]
    } else {
        seq![upper_hex_char((b / 16) as int), upper_hex_char((b % 16) as int)]
    }
}

/// Each byte as `0x` and its hexadecimal digits, with a space behind it.
pub open spec fn keys_text(keys: Seq<u8>) -> Seq<char>
    decreases keys.len(),
{
    if keys.len() == 0 {
        Seq::empty()
    } else {
        keys_text(keys.drop_last()) + "0x"@ + upper_hex(keys.last()) + " "@
    }
}

/// The command line of [`SendKeys`].
pub open spec fn send_keys_line(pane: TmuxPaneId, keys: Seq<u8>) -> Seq<char> {
    "send-keys -H -t %"@ + decimal(pane as nat) + " "@ + keys_text(keys) + "\r"@
}

fn upper_hex_digit(n: u8) -> (c: char)
    requires
        n < 16,
    ensures
        c == upper_hex_char(n as int),
{
    if n < 10 {
        ('0' as u8 + n) as char
    } else {
        ('A' as u8 + (n - 10)) as char
    }
}

fn push_upper_hex(s: &mut String, b: u8)
    ensures
        final(s)@ == old(s)@ + upper_hex(b),
{
    if b >= 16 {
        s.push(upper_hex_digit(b / 16));
    }
    s.push(upper_hex_digit(b % 16));
    assert(s@ == old(s)@ + upper_hex(b));
}

impl SendKeys {
    pub fn get_command(&self) -> (line: String)
        ensures
            line@ == send_keys_line(self.pane, self.keys@),
    {
        let mut line = "send-keys -H -t %".to_owned();
        push_decimal(&mut line, self.pane);
        line.append(" ");
        let ghost front = line@;
        let mut i: usize = 0;
        assert(line@ == front + keys_text(self.keys@.take(0)));
        while i < self.keys.len()
            invariant
                i <= self.keys@.len(),
                line@ == front + keys_text(self.keys@.take(i as int)),
            decreases self.keys@.len() - i,
        {
            line.append("0x");
            push_upper_hex(&mut line, self.keys[i]);
            line.append(" ");
            proof {
                let next = self.keys@.take(i + 1);
                assert(next.drop_last() == self.keys@.take(i as int));
                assert(line@ == front + keys_text(next));
            }
            i += 1;
        }
        assert(self.keys@.take(self.keys@.len() as int) == self.keys@);
        line.append("\r");
        line
    }
}

impl NewWindow {
    pub fn get_command(&self) -> (line: String)
        ensures
            line@ == "new-window\n"@,
    {
        "new-window\n".to_owned()
    }
}

impl ListCommands {
    pub fn get_command(&self) -> (line: String)
        ensures
            line@ == "list-commands\n"@,
    {
        "list-commands\n".to_owned()
    }
}

impl AttachDone {
    pub fn get_command(&self) -> (line: String)
        ensures
            line@ == "list-session\n"@,
    {
        // The command doesn't matter, just give a legal simple command to get an answer.
        "list-session\n".to_owned()
    }
}

/// The command line of [`SplitPane`].
pub open spec fn split_pane_line(s: SplitPane) -> Seq<char> {
    (if s.direction == SplitDirection::Horizontal {
        "split-window -h -t %"@
    } else {
        "split-window -v -t %"@
    }) + decimal(s.pane_id as nat) + "\n"@
}

impl SplitPane {
    pub fn get_command(&self) -> (line: String)
        ensures
            line@ == split_pane_line(*self),
    {
        let mut line = if self.direction == SplitDirection::Horizontal {
            "split-window -h -t %".to_owned()
        } else {
            "split-window -v -t %".to_owned()
        };
        push_decimal(&mut line, self.pane_id);
        line.append("\n");
        line
    }
}

/// The command line of [`SelectWindow`].
pub open spec fn select_window_line(window_id: TmuxWindowId) -> Seq<char> {
    "select-window -t @"@ + decimal(window_id as nat) + "\n"@
}

impl SelectWindow {
    pub fn get_command(&self) -> (line: String)
        ensures
            line@ == select_window_line(self.window_id),
    {
        let mut line = "select-window -t @".to_owned();
        push_decimal(&mut line, self.window_id);
        line.append("\n");
        line
    }
}

/// The command line of [`SelectPane`].
pub open spec fn select_pane_line(pane_id: TmuxPaneId) -> Seq<char> {
    "select-pane -t %"@ + decimal(pane_id as nat) + "\n"@
}

impl SelectPane {
    pub fn get_command(&self) -> (line: String)
        ensures
            line@ == select_pane_line(self.pane_id),
    {
        let mut line = "select-pane -t %".to_owned();
        push_decimal(&mut line, self.pane_id);
        line.append("\n");
        line
    }
}

/// A raw command, ended by a line feed if it is not already.
pub open spec fn raw_line(command: Seq<char>) -> Seq<char> {
    if command.len() > 0 && command.last() == '\n' {
        command
    } else {
        command.push('\n')
    }
}

impl RawCommand {
    pub fn get_command(&self) -> (line: String)
        ensures
            line@ == raw_line(self.command@),
    {
        let chars = chars_of(self.command.as_str());
        let mut line = self.command.clone();
        if chars.len() == 0 || chars[chars.len() - 1] != '\n' {
            line.push('\n');
        }
        line
    }
}

/// `s` with every single quote written as quote, backslash, quote, quote.
pub open spec fn quoted(s: Seq<char>) -> Seq<char>
    decreases s.len(),
{
    if s.len() == 0 {
        Seq::empty()
    } else if s.last() == '\'' {
        quoted(s.drop_last()) + seq!['\'', '\\', '\'', '\'']
    } else {
        quoted(s.drop_last()).push(s.last())
    }
}

/// The argument `name:what:format` of a subscription.
pub open spec fn subscription_argument(sub: TmuxFormatSubscription) -> Seq<char> {
    sub.name@ + ":"@ + target_token(sub.target) + ":"@ + sub.format@
}

/// The `-B` flags of subscriptions.
pub open spec fn subscription_flags(subs: Seq<TmuxFormatSubscription>) -> Seq<char>
    decreases subs.len(),
{
    if subs.len() == 0 {
        Seq::empty()
    } else {
        subscription_flags(subs.drop_last()) + " -B '"@ + quoted(
            subscription_argument(subs.last()),
        ) + "'"@
    }
}

/// The command line of [`Subscribe`].
pub open spec fn subscribe_line(subs: Seq<TmuxFormatSubscription>) -> Seq<char> {
    "refresh-client"@ + subscription_flags(subs) + "\n"@
}

fn push_quoted(line: &mut String, text: &str)
    ensures
        final(line)@ == old(line)@ + quoted(text@),
{
    let chars = chars_of(text);
    let mut i: usize = 0;
    assert(line@ == old(line)@ + quoted(text@.take(0)));
    while i < chars.len()
        invariant
            chars@ == text@,
            i <= chars@.len(),
            line@ == old(line)@ + quoted(text@.take(i as int)),
        decreases chars@.len() - i,
    {
        proof {
            assert(text@.take(i + 1).drop_last() == text@.take(i as int));
            reveal_strlit("'\\''");
        }
        if chars[i] == '\'' {
            line.append("'\\''");
            assert("'\\''"@ == seq!['\'', '\\', '\'', '\'']);
        } else {
            line.push(chars[i]);
        }
        assert(line@ == old(line)@ + quoted(text@.take(i + 1)));
        i += 1;
    }
    assert(text@.take(text@.len() as int) == text@);
}

impl Subscribe {
    pub fn get_command(&self) -> (line: String)
        ensures
            line@ == subscribe_line(self.subs@),
    {
        let mut line = "refresh-client".to_owned();
        let mut i: usize = 0;
        assert(line@ == "refresh-client"@ + subscription_flags(self.subs@.take(0)));
        while i < self.subs.len()
            invariant
                i <= self.subs@.len(),
                line@ == "refresh-client"@ + subscription_flags(self.subs@.take(i as int)),
            decreases self.subs@.len() - i,
        {
            let sub = &self.subs[i];
            let mut argument = sub.name.clone();
            argument.append(":");
            argument.append(sub.target.tmux_type());
            argument.append(":");
            argument.append(sub.format.as_str());
            line.append(" -B '");
            // tmux treats everything inside single quotes literally; represent
            // an embedded single quote with the close/escape/reopen idiom.
            push_quoted(&mut line, argument.as_str());
            line.append("'");
            proof {
                let next = self.subs@.take(i + 1);
                assert(next.drop_last() == self.subs@.take(i as int));
                assert(line@ == "refresh-client"@ + subscription_flags(next));
            }
            i += 1;
        }
        assert(self.subs@.take(self.subs@.len() as int) == self.subs@);
        line.append("\n");
        line
    }
}

/// How tmux reads a word of a command line: text between single quotes stands for itself,
/// and outside quotes a backslash takes away the meaning of the character behind it. Gives
/// what is read, or nothing if a quote is left open or the backslash is last.
pub open spec fn read_word(s: Seq<char>, inside: bool) -> Option<Seq<char>>
    decreases s.len(),
{
    if s.len() == 0 {
        if inside {
            None
        } else {
            Some(Seq::empty())
        }
    } else if s[0] == '\'' {
        read_word(s.skip(1), !inside)
    } else if !inside && s[0] == '\\' {
        if s.len() == 1 {
            None
        } else {
            match read_word(s.skip(2), false) {
                Some(rest) => Some(seq![s[1]] + rest),
                None => None,
            }
        }
    } else {
        match read_word(s.skip(1), inside) {
            Some(rest) => Some(seq![s[0]] + rest),
            None => None,
        }
    }
}

proof fn lemma_quoted_reads_back(s: Seq<char>, rest: Seq<char>)
    ensures
        read_word(quoted(s) + rest, true) == match read_word(rest, true) {
            Some(tail) => Some(s + tail),
            None => None,
        },
    decreases s.len(),
{
    if s.len() == 0 {
        assert(quoted(s) + rest == rest);
        if let Some(tail) = read_word(rest, true) {
            assert(s + tail == tail);
        }
    } else {
        let front = s.drop_last();
        let c = s.last();
        let piece = if c == '\'' {
            seq!['\'', '\\', '\'', '\'']
        } else {
            seq![c]
        };
        assert(quoted(s) + rest == quoted(front) + (piece + rest));
        lemma_quoted_reads_back(front, piece + rest);
        let t = piece + rest;
        if c == '\'' {
            assert(t.skip(1).skip(2) == seq!['\''] + rest);
            assert((seq!['\''] + rest).skip(1) == rest);
            reveal_with_fuel(read_word, 4);
        } else {
            assert(t.skip(1) == rest);
        }
        if let Some(tail) = read_word(rest, true) {
            assert(front + (seq![c] + tail) == s + tail);
        }
    }
}

/// tmux reads a quoted argument as the text that was quoted, whatever characters are in it.
pub proof fn law_quoted_argument_is_read_literally(s: Seq<char>)
    ensures
        read_word(seq!['\''] + quoted(s) + seq!['\''], false) == Some(s),
{
    let t = seq!['\''] + quoted(s) + seq!['\''];
    let end = seq!['\''];
    assert(t.skip(1) == quoted(s) + end);
    lemma_quoted_reads_back(s, end);
    assert(end.skip(1) == Seq::<char>::empty());
    reveal_with_fuel(read_word, 3);
    assert(s + Seq::<char>::empty() == s);
}

// ---------------------------------------------------------------------------
// Answers
// ---------------------------------------------------------------------------

/// What list-panes says about a pane.
#[derive(Debug, Clone, Copy, PartialEq, Eq)]
pub struct PaneItem {
    pub session_id: TmuxSessionId,
    pub window_id: TmuxWindowId,
    pub pane_id: TmuxPaneId,
    pub pane_index: u64,
    pub cursor_x: u64,
    pub cursor_y: u64,
    pub pane_width: u64,
    pub pane_height: u64,
    pub pane_left: u64,
    pub pane_top: u64,
    pub pane_active: bool,
}

/// What list-windows says about a window.
#[derive(Debug, PartialEq, Eq)]
pub struct WindowItem {
    pub session_id: TmuxSessionId,
    pub window_id: TmuxWindowId,
    pub window_width: u64,
    pub window_height: u64,
    pub window_active: bool,
    pub window_name: String,
    /// Raw tmux layout string (including the leading checksum).
    pub window_layout: String,
    /// Raw `#{window_visible_layout}` (single pane when zoomed).
    pub window_visible_layout: String,
    /// Raw `#{window_raw_flags}` (contains `Z` when the window is zoomed).
    pub window_raw_flags: String,
    pub history_limit: isize,
}

/// A [`WindowItem`] as a mathematical value.
pub struct WindowView {
    pub session_id: TmuxSessionId,
    pub window_id: TmuxWindowId,
    pub window_width: u64,
    pub window_height: u64,
    pub window_active: bool,
    pub window_name: Seq<char>,
    pub window_layout: Seq<char>,
    pub window_visible_layout: Seq<char>,
    pub window_raw_flags: Seq<char>,
    pub history_limit: isize,
}

impl View for WindowItem {
    type V = WindowView;

    open spec fn view(&self) -> WindowView {
        WindowView {
            session_id: self.session_id,
            window_id: self.window_id,
            window_width: self.window_width,
            window_height: self.window_height,
            window_active: self.window_active,
            window_name: self.window_name@,
            window_layout: self.window_layout@,
            window_visible_layout: self.window_visible_layout@,
            window_raw_flags: self.window_raw_flags@,
            history_limit: self.history_limit,
        }
    }
}

/// A row of windows as mathematical values.
pub open spec fn window_views(items: Seq<WindowItem>) -> Seq<WindowView> {
    Seq::new(items.len(), |i: int| items[i]@)
}

/// The number behind a sigil such as `$`, `%` or `@`, which can be any ASCII character.
pub open spec fn sigil_number(f: Option<Seq<char>>) -> Option<u64> {
    match f {
        Some(s) => if s.len() > 0 && (s[0] as u32) < 128 {
            number_field(Some(s.skip(1)))
        } else {
            None
        },
        None => None,
    }
}

/// Whether a flag is set: any number is a flag, and 1 is set.
pub open spec fn flag_field(f: Option<Seq<char>>) -> Option<bool> {
    match f {
        Some(s) => match unsigned_in(s, usize::MAX as int) {
            Some(v) => Some(v == 1),
            None => None,
        },
        None => None,
    }
}

/// A signed number, if the field holds one.
pub open spec fn signed_field(f: Option<Seq<char>>) -> Option<isize> {
    match f {
        Some(s) => match signed_in(s, isize::MIN as int, isize::MAX as int) {
            Some(v) => Some(v as isize),
            None => None,
        },
        None => None,
    }
}

/// The pane that a line of list-panes tells about.
pub open spec fn pane_of(line: Seq<char>) -> Option<PaneItem> {
    let f = fields(line, ' ');
    if sigil_number(nth(f, 0)) is Some && sigil_number(nth(f, 1)) is Some && sigil_number(nth(f, 2))
        is Some && number_field(nth(f, 3)) is Some && number_field(nth(f, 4)) is Some
        && number_field(nth(f, 5)) is Some && number_field(nth(f, 6)) is Some && number_field(
        nth(f, 7),
    ) is Some && number_field(nth(f, 8)) is Some && number_field(nth(f, 9)) is Some && flag_field(
        nth(f, 10),
    ) is Some {
        Some(
            PaneItem {
                session_id: sigil_number(nth(f, 0))->0,
                window_id: sigil_number(nth(f, 1))->0,
                pane_id: sigil_number(nth(f, 2))->0,
                pane_index: number_field(nth(f, 3))->0,
                cursor_x: number_field(nth(f, 4))->0,
                cursor_y: number_field(nth(f, 5))->0,
                pane_width: number_field(nth(f, 6))->0,
                pane_height: number_field(nth(f, 7))->0,
                pane_left: number_field(nth(f, 8))->0,
                pane_top: number_field(nth(f, 9))->0,
                pane_active: flag_field(nth(f, 10))->0,
            },
        )
    } else {
        None
    }
}

/// The window that a line of list-windows tells about.
pub open spec fn window_of(line: Seq<char>) -> Option<WindowView> {
    let f = fields(line, ' ');
    if sigil_number(nth(f, 0)) is Some && sigil_number(nth(f, 1)) is Some && number_field(nth(f, 2))
        is Some && number_field(nth(f, 3)) is Some && flag_field(nth(f, 4)) is Some && f.len() > 8
        && signed_field(nth(f, 9)) is Some {
        Some(
            WindowView {
                session_id: sigil_number(nth(f, 0))->0,
                window_id: sigil_number(nth(f, 1))->0,
                window_width: number_field(nth(f, 2))->0,
                window_height: number_field(nth(f, 3))->0,
                window_active: flag_field(nth(f, 4))->0,
                window_name: f[5],
                window_layout: f[6],
                window_visible_layout: f[7],
                window_raw_flags: f[8],
                history_limit: signed_field(nth(f, 9))->0,
            },
        )
    } else {
        None
    }
}

/// The panes that lines of list-panes tell about, in order. Empty lines are skipped; a line
/// of another form spoils the whole answer.
pub open spec fn panes_in(lines: Seq<Seq<char>>) -> Option<Seq<PaneItem>>
    decreases lines.len(),
{
    if lines.len() == 0 {
        Some(Seq::empty())
    } else {
        match panes_in(lines.drop_last()) {
            Some(before) => if lines.last().len() == 0 {
                Some(before)
            } else {
                match pane_of(lines.last()) {
                    Some(pane) => Some(before.push(pane)),
                    None => None,
                }
            },
            None => None,
        }
    }
}

/// The windows that lines of list-windows tell about, in order; only the one that is asked
/// for, if one is. Empty lines are skipped; a line of another form spoils the whole answer.
pub open spec fn windows_in(
    lines: Seq<Seq<char>>,
    wanted: Option<TmuxWindowId>,
) -> Option<Seq<WindowView>>
    decreases lines.len(),
{
    if lines.len() == 0 {
        Some(Seq::empty())
    } else {
        match windows_in(lines.drop_last(), wanted) {
            Some(before) => if lines.last().len() == 0 {
                Some(before)
            } else {
                match window_of(lines.last()) {
                    Some(window) => if wanted is Some && wanted != Some(window.window_id) {
                        Some(before)
                    } else {
                        Some(before.push(window))
                    },
                    None => None,
                }
            },
            None => None,
        }
    }
}

/// The panes that the answer to list-panes tells about.
pub open spec fn listed_panes(error: bool, output: Seq<char>) -> Result<Seq<PaneItem>, TmuxError> {
    if error {
        Err(TmuxError::CommandFailed)
    } else {
        match panes_in(fields(output, '\n')) {
            Some(panes) => Ok(panes),
            None => Err(TmuxError::MalformedAnswer),
        }
    }
}

/// The windows that the answer to list-windows tells about.
pub open spec fn listed_windows(
    error: bool,
    output: Seq<char>,
    wanted: Option<TmuxWindowId>,
) -> Result<Seq<WindowView>, TmuxError> {
    if error {
        Err(TmuxError::CommandFailed)
    } else {
        match windows_in(fields(output, '\n'), wanted) {
            Some(windows) => Ok(windows),
            None => Err(TmuxError::MalformedAnswer),
        }
    }
}

fn parse_sigil_number(f: Option<&[char]>) -> (r: Option<u64>)
    ensures
        r == sigil_number(field_contents(f)),
{
    match f {
        Some(s) => if s.len() > 0 && (s[0] as u32) < 128 {
            let digits = slice_subrange(s, 1, s.len());
            assert(digits@ == s@.skip(1));
            parse_u64(digits)
        } else {
            None
        },
        None => None,
    }
}

fn parse_flag(f: Option<&[char]>) -> (r: Option<bool>)
    ensures
        r == flag_field(field_contents(f)),
{
    match f {
        Some(s) => match parse_usize(s) {
            Some(v) => Some(v == 1),
            None => None,
        },
        None => None,
    }
}

fn parse_signed(f: Option<&[char]>) -> (r: Option<isize>)
    ensures
        r == signed_field(field_contents(f)),
{
    match f {
        Some(s) => parse_isize(s),
        None => None,
    }
}

/// Reads a line of list-panes.
fn parse_pane(line: &[char]) -> (r: Option<PaneItem>)
    ensures
        r == pane_of(line@),
{
    let f = split_fields(line, ' ');
    // These ids all have various sigils such as `$`, `%`, `@`,
    // so skip those prior to parsing them
    let session_id = parse_sigil_number(get_field(&f, 0))?;
    let window_id = parse_sigil_number(get_field(&f, 1))?;
    let pane_id = parse_sigil_number(get_field(&f, 2))?;
    let pane_index = read_number_field(get_field(&f, 3))?;
    let cursor_x = read_number_field(get_field(&f, 4))?;
    let cursor_y = read_number_field(get_field(&f, 5))?;
    let pane_width = read_number_field(get_field(&f, 6))?;
    let pane_height = read_number_field(get_field(&f, 7))?;
    let pane_left = read_number_field(get_field(&f, 8))?;
    let pane_top = read_number_field(get_field(&f, 9))?;
    let pane_active = parse_flag(get_field(&f, 10))?;
    Some(
        PaneItem {
            session_id,
            window_id,
            pane_id,
            pane_index,
            cursor_x,
            cursor_y,
            pane_width,
            pane_height,
            pane_left,
            pane_top,
            pane_active,
        },
    )
}

/// Reads a line of list-windows.
fn parse_window(line: &[char]) -> (r: Option<WindowItem>)
    ensures
        match r {
            Some(window) => window_of(line@) == Some(window@),
            None => window_of(line@) is None,
        },
{
    let f = split_fields(line, ' ');
    let session_id = parse_sigil_number(get_field(&f, 0))?;
    let window_id = parse_sigil_number(get_field(&f, 1))?;
    let window_width = read_number_field(get_field(&f, 2))?;
    let window_height = read_number_field(get_field(&f, 3))?;
    let window_active = parse_flag(get_field(&f, 4))?;
    // window_raw_flags may legitimately be empty (no flags); there
    // still is an empty field between the surrounding spaces.
    let window_name = get_field(&f, 5)?;
    let window_layout = get_field(&f, 6)?;
    let window_visible_layout = get_field(&f, 7)?;
    let window_raw_flags = get_field(&f, 8)?;
    let history_limit = parse_signed(get_field(&f, 9))?;
    Some(
        WindowItem {
            session_id,
            window_id,
            window_width,
            window_height,
            window_active,
            window_name: string_of(window_name),
            window_layout: string_of(window_layout),
            window_visible_layout: string_of(window_visible_layout),
            window_raw_flags: string_of(window_raw_flags),
            history_limit,
        },
    )
}

impl ListAllPanes {
    /// Reads the answer to list-panes.
    pub fn parse_result(&self, result: &Guarded) -> (r: Result<Vec<PaneItem>, TmuxError>)
        ensures
            match r {
                Ok(panes) => listed_panes(result.error, result.output@) == Ok::<
                    Seq<PaneItem>,
                    TmuxError,
                >(panes@),
                Err(e) => listed_panes(result.error, result.output@) == Err::<
                    Seq<PaneItem>,
                    TmuxError,
                >(e),
            },
    {
        if result.error {
            return Err(TmuxError::CommandFailed);
        }
        let output = chars_of(result.output.as_str());
        let lines = split_fields(output.as_slice(), '\n');
        let ghost all = contents(lines@);
        let mut items: Vec<PaneItem> = Vec::new();
        let mut i: usize = 0;
        assert(all.take(0) == Seq::<Seq<char>>::empty());
        while i < lines.len()
            invariant
                i <= lines@.len(),
                all == contents(lines@),
                all == fields(result.output@, '\n'),
                !result.error,
                panes_in(all.take(i as int)) == Some(items@),
            decreases lines@.len() - i,
        {
            proof {
                assert(all.take(i + 1).drop_last() == all.take(i as int));
                assert(all.take(i + 1).last() == lines@[i as int]@);
            }
            if lines[i].len() > 0 {
                match parse_pane(lines[i]) {
                    Some(item) => {
                        items.push(item);
                    },
                    None => {
                        proof {
                            lemma_spoilt_panes(all, i + 1);
                        }
                        return Err(TmuxError::MalformedAnswer);
                    },
                }
            }
            i += 1;
        }
        assert(all.take(all.len() as int) == all);
        Ok(items)
    }
}

proof fn lemma_spoilt_panes(lines: Seq<Seq<char>>, n: int)
    requires
        0 <= n <= lines.len(),
        panes_in(lines.take(n)) is None,
    ensures
        panes_in(lines) is None,
    decreases lines.len() - n,
{
    if n == lines.len() {
        assert(lines.take(n) == lines);
    } else {
        assert(lines.take(n + 1).drop_last() == lines.take(n));
        lemma_spoilt_panes(lines, n + 1);
    }
}

proof fn lemma_spoilt_windows(lines: Seq<Seq<char>>, wanted: Option<TmuxWindowId>, n: int)
    requires
        0 <= n <= lines.len(),
        windows_in(lines.take(n), wanted) is None,
    ensures
        windows_in(lines, wanted) is None,
    decreases lines.len() - n,
{
    if n == lines.len() {
        assert(lines.take(n) == lines);
    } else {
        assert(lines.take(n + 1).drop_last() == lines.take(n));
        lemma_spoilt_windows(lines, wanted, n + 1);
    }
}

impl ListAllWindows {
    /// Reads the answer to list-windows.
    pub fn parse_result(&self, result: &Guarded) -> (r: Result<Vec<WindowItem>, TmuxError>)
        ensures
            match r {
                Ok(windows) => listed_windows(result.error, result.output@, self.window_id) == Ok::<
                    Seq<WindowView>,
                    TmuxError,
                >(window_views(windows@)),
                Err(e) => listed_windows(result.error, result.output@, self.window_id) == Err::<
                    Seq<WindowView>,
                    TmuxError,
                >(e),
            },
    {
        if result.error {
            return Err(TmuxError::CommandFailed);
        }
        let output = chars_of(result.output.as_str());
        let lines = split_fields(output.as_slice(), '\n');
        let ghost all = contents(lines@);
        let mut items: Vec<WindowItem> = Vec::new();
        let mut i: usize = 0;
        assert(all.take(0) == Seq::<Seq<char>>::empty());
        assert(window_views(items@) == Seq::<WindowView>::empty());
        while i < lines.len()
            invariant
                i <= lines@.len(),
                all == contents(lines@),
                all == fields(result.output@, '\n'),
                !result.error,
                windows_in(all.take(i as int), self.window_id) == Some(window_views(items@)),
            decreases lines@.len() - i,
        {
            proof {
                assert(all.take(i + 1).drop_last() == all.take(i as int));
                assert(all.take(i + 1).last() == lines@[i as int]@);
            }
            if lines[i].len() > 0 {
                match parse_window(lines[i]) {
                    Some(item) => {
                        let wanted = match self.window_id {
                            Some(id) => id == item.window_id,
                            None => true,
                        };
                        if wanted {
                            let ghost before = items@;
                            items.push(item);
                            assert(window_views(items@) == window_views(before).push(item@));
                        }
                    },
                    None => {
                        proof {
                            lemma_spoilt_windows(all, self.window_id, i + 1);
                        }
                        return Err(TmuxError::MalformedAnswer);
                    },
                }
            }
            i += 1;
        }
        assert(all.take(all.len() as int) == all);
        Ok(items)
    }
}

/// `s` with a carriage return before every line feed.
pub open spec fn with_crlf(s: Seq<char>) -> Seq<char>
    decreases s.len(),
{
    if s.len() == 0 {
        Seq::empty()
    } else if s.last() == '\n' {
        with_crlf(s.drop_last()) + seq!['\r', '\n']
    } else {
        with_crlf(s.drop_last()).push(s.last())
    }
}

/// The content of a pane that the answer to capture-pane holds: unescaped, without the line
/// feed that ends every answer, and with line endings for a terminal.
pub open spec fn captured(error: bool, output: Seq<char>) -> Result<Seq<char>, TmuxError> {
    if error {
        Err(TmuxError::CommandFailed)
    } else {
        match unescaped_text(output) {
            Ok(text) => Ok(
                with_crlf(
                    if text.len() > 0 {
                        text.drop_last()
                    } else {
                        text
                    },
                ),
            ),
            Err(e) => Err(TmuxError::MalformedContent(e)),
        }
    }
}

impl CapturePane {
    /// Reads the answer to capture-pane.
    pub fn parse_result(&self, result: &Guarded) -> (r: Result<String, TmuxError>)
        ensures
            match r {
                Ok(text) => captured(result.error, result.output@) == Ok::<Seq<char>, TmuxError>(
                    text@,
                ),
                Err(e) => captured(result.error, result.output@) == Err::<Seq<char>, TmuxError>(e),
            },
    {
        if result.error {
            return Err(TmuxError::CommandFailed);
        }
        let unescaped = match unvis(result.output.as_str()) {
            Ok(text) => text,
            Err(e) => {
                return Err(TmuxError::MalformedContent(e));
            },
        };
        let chars = chars_of(unescaped.as_str());
        // contents returned from guarded lines always contain a trailing '\n'
        let n: usize = if chars.len() > 0 {
            chars.len() - 1
        } else {
            0
        };
        let ghost kept = chars@.take(n as int);
        let mut text = String::new();
        let mut i: usize = 0;
        assert(kept.take(0) == Seq::<char>::empty());
        while i < n
            invariant
                i <= n <= chars@.len(),
                kept == chars@.take(n as int),
                text@ == with_crlf(kept.take(i as int)),
            decreases n - i,
        {
            assert(kept.take(i + 1).drop_last() == kept.take(i as int));
            if chars[i] == '\n' {
                text.push('\r');
            }
            text.push(chars[i]);
            assert(text@ == with_crlf(kept.take(i + 1)));
            i += 1;
        }
        assert(kept.take(n as int) == kept);
        proof {
            if chars@.len() > 0 {
                assert(kept == chars@.drop_last());
            } else {
                assert(kept == chars@);
            }
        }
        Ok(text)
    }
}

/// Checks an answer that holds nothing but whether the command succeeded.
pub fn check_result(result: &Guarded) -> (r: Result<(), TmuxError>)
    ensures
        r == (if result.error {
            Err::<(), TmuxError>(TmuxError::CommandFailed)
        } else {
            Ok::<(), TmuxError>(())
        }),
{
    if result.error {
        Err(TmuxError::CommandFailed)
    } else {
        Ok(())
    }
}

// ---------------------------------------------------------------------------
// Laws
// ---------------------------------------------------------------------------

/// An id as tmux writes it.
pub open spec fn id_text(sigil: char, id: u64) -> Seq<char> {
    seq![sigil] + decimal(id as nat)
}

/// A flag as tmux writes it.
pub open spec fn flag_text(flag: bool) -> Seq<char> {
    decimal(
        if flag {
            1
        } else {
            0
        },
    )
}

/// The fields of the line that tmux writes for a pane in the form that [`ListAllPanes`] asks
/// for.
pub open spec fn pane_fields(item: PaneItem) -> Seq<Seq<char>> {
    seq![
        id_text('$', item.session_id),
        id_text('@', item.window_id),
        id_text('%', item.pane_id),
        decimal(item.pane_index as nat),
        decimal(item.cursor_x as nat),
        decimal(item.cursor_y as nat),
        decimal(item.pane_width as nat),
        decimal(item.pane_height as nat),
        decimal(item.pane_left as nat),
        decimal(item.pane_top as nat),
        flag_text(item.pane_active),
    ]
}

/// The fields of the line that tmux writes for a window in the form that [`ListAllWindows`]
/// asks for.
pub open spec fn window_fields(window: WindowView) -> Seq<Seq<char>> {
    seq![
        id_text('$', window.session_id),
        id_text('@', window.window_id),
        decimal(window.window_width as nat),
        decimal(window.window_height as nat),
        flag_text(window.window_active),
        window.window_name,
        window.window_layout,
        window.window_visible_layout,
        window.window_raw_flags,
        decimal(window.history_limit as nat),
    ]
}

proof fn lemma_number_text(n: u64)
    ensures
        number_field(Some(decimal(n as nat))) == Some(n),
        !decimal(n as nat).contains(' '),
{
    let d = decimal(n as nat);
    law_decimal_reads_back(n as nat);
    if d.contains(' ') {
        let i = choose|i: int| 0 <= i < d.len() && d[i] == ' ';
        assert(is_digit(d[i]));
    }
}

proof fn lemma_id_text(sigil: char, id: u64)
    requires
        (sigil as u32) < 128,
        sigil != ' ',
    ensures
        sigil_number(Some(id_text(sigil, id))) == Some(id),
        !id_text(sigil, id).contains(' '),
{
    let t = id_text(sigil, id);
    lemma_number_text(id);
    assert(t.skip(1) == decimal(id as nat));
    if t.contains(' ') {
        let i = choose|i: int| 0 <= i < t.len() && t[i] == ' ';
        assert(decimal(id as nat)[i - 1] == ' ');
    }
}

proof fn lemma_flag_text(flag: bool)
    ensures
        flag_field(Some(flag_text(flag))) == Some(flag),
        !flag_text(flag).contains(' '),
{
    let n: u64 = if flag {
        1
    } else {
        0
    };
    lemma_number_text(n);
    law_decimal_reads_back(n as nat);
}

/// The line that tmux writes for a pane tells of that pane.
pub proof fn law_pane_line_reads_back(item: PaneItem)
    ensures
        pane_of(joined(pane_fields(item), ' ')) == Some(item),
{
    let parts = pane_fields(item);
    lemma_id_text('$', item.session_id);
    lemma_id_text('@', item.window_id);
    lemma_id_text('%', item.pane_id);
    lemma_number_text(item.pane_index);
    lemma_number_text(item.cursor_x);
    lemma_number_text(item.cursor_y);
    lemma_number_text(item.pane_width);
    lemma_number_text(item.pane_height);
    lemma_number_text(item.pane_left);
    lemma_number_text(item.pane_top);
    lemma_flag_text(item.pane_active);
    law_joined_fields_come_apart(parts, ' ');
}

/// The line that tmux writes for a window tells of that window, unless there is a space in
/// its name.
pub proof fn law_window_line_reads_back(window: WindowView)
    requires
        !window.window_name.contains(' '),
        !window.window_layout.contains(' '),
        !window.window_visible_layout.contains(' '),
        !window.window_raw_flags.contains(' '),
        window.history_limit >= 0,
    ensures
        window_of(joined(window_fields(window), ' ')) == Some(window),
{
    let parts = window_fields(window);
    lemma_id_text('$', window.session_id);
    lemma_id_text('@', window.window_id);
    lemma_number_text(window.window_width);
    lemma_number_text(window.window_height);
    lemma_flag_text(window.window_active);
    lemma_number_text(window.history_limit as u64);
    law_decimal_reads_back(window.history_limit as nat);
    assert(is_digit(decimal(window.history_limit as nat)[0]));
    law_joined_fields_come_apart(parts, ' ');
}

} // verus!
