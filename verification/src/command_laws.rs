//! What tmux reads in the command lines, and what is read in its answers.

use vstd::prelude::*;

use crate::config::{target_token, TmuxFormatSubscription, TmuxSubscriptionTarget};
use crate::tab::SplitDirection;
use crate::text::{
    decimal, fields, is_digit, joined, law_decimal_reads_back, law_joined_fields_come_apart,
    signed_decimal, signed_in,
};
use crate::text_laws::{law_signed_number_reads_back, lemma_joined_cons, lemma_joined_push};
use crate::tmux_cc::line_laws::{backslashes_doubled, law_doubled_backslashes_are_read_once};
use crate::tmux_cc::{TmuxPaneId, TmuxWindowId};
use crate::tmux_commands::{
    capture_pane_line, captured, flag_field, id_text, keys_text, law_pane_line_reads_back,
    law_quoted_argument_is_read_literally, law_window_line_reads_back, listed_panes, listed_windows,
    pane_fields, pane_of, panes_in, quoted, raw_line, read_word, refresh_client_lines,
    resize_pane_line, resize_window_lines, select_pane_line, select_window_line, send_keys_line,
    size_options, split_pane_line, subscribe_line, subscription_argument, subscription_flags,
    upper_hex, upper_hex_char, window_fields, window_of, windows_in, with_crlf, CapturePane,
    PaneItem, Resize, SplitPane, TmuxError, WindowView,
};

verus! {

// ---------------------------------------------------------------------------
// Keys
// ---------------------------------------------------------------------------

/// The value of a hexadecimal digit.
pub open spec fn hex_digit_value(c: char) -> Option<int> {
    if '0' <= c <= '9' {
        Some(c as int - '0' as int)
    } else if 'a' <= c <= 'f' {
        Some(c as int - 'a' as int + 10)
    } else if 'A' <= c <= 'F' {
        Some(c as int - 'A' as int + 10)
    } else {
        None
    }
}

/// The number that hexadecimal digits write.
pub open spec fn hex_number(s: Seq<char>) -> Option<int>
    decreases s.len(),
{
    if s.len() == 0 {
        None
    } else if s.len() == 1 {
        hex_digit_value(s[0])
    } else {
        match (hex_number(s.drop_last()), hex_digit_value(s.last())) {
            (Some(high), Some(low)) => Some(16 * high + low),
            _ => None,
        }
    }
}

/// Whether hexadecimal digits are written in upper case and without a zero in front.
pub open spec fn is_short_upper(s: Seq<char>) -> bool {
    &&& s.len() > 1 ==> s[0] != '0'
    &&& forall|i: int| 0 <= i < s.len() ==> !('a' <= #[trigger] s[i] <= 'f')
}

spec fn key_words(keys: Seq<u8>) -> Seq<Seq<char>> {
    Seq::new(keys.len(), |i: int| "0x"@ + upper_hex(keys[i]))
}

proof fn lemma_keys_are_joined(keys: Seq<u8>, tail: Seq<char>)
    ensures
        keys_text(keys) + tail == joined(key_words(keys).push(tail), ' '),
    decreases keys.len(),
{
    if keys.len() == 0 {
        assert(key_words(keys).push(tail) == seq![tail]);
    } else {
        let front = keys.drop_last();
        let word = "0x"@ + upper_hex(keys.last());
        reveal_strlit(" ");
        assert(" "@ == seq![' ']);
        lemma_keys_are_joined(front, word + seq![' '] + tail);
        lemma_joined_push(key_words(front), word, tail, ' ');
        assert(key_words(front).push(word) == key_words(keys));
        assert(keys_text(keys) + tail == keys_text(front) + (word + seq![' '] + tail));
    }
}

proof fn lemma_key_word(b: u8)
    ensures
        ({
            let word = "0x"@ + upper_hex(b);
            &&& word.len() > 2
            &&& word.take(2) == "0x"@
            &&& hex_number(word.skip(2)) == Some(b as int)
            &&& is_short_upper(word.skip(2))
            &&& !word.contains(' ')
        }),
{
    let word = "0x"@ + upper_hex(b);
    reveal_strlit("0x");
    assert(word.take(2) == "0x"@);
    assert(word.skip(2) == upper_hex(b));
    if b >= 16 {
        let digits = upper_hex(b);
        assert(digits.drop_last() == seq![upper_hex_char((b / 16) as int)]);
        assert(hex_number(digits.drop_last()) == Some((b / 16) as int));
        assert(hex_digit_value(digits.last()) == Some((b % 16) as int));
    }
    assert forall|i: int| 0 <= i < word.len() implies word[i] != ' ' by {
        if i >= 2 {
            assert(word[i] == upper_hex(b)[i - 2]);
        }
    }
}

proof fn lemma_numbered_word(sigil: char, n: nat)
    requires
        sigil != ' ',
    ensures
        !(seq![sigil] + decimal(n)).contains(' '),
{
    let s = seq![sigil] + decimal(n);
    law_decimal_reads_back(n);
    assert forall|i: int| 0 <= i < s.len() implies s[i] != ' ' by {
        if i > 0 {
            assert(s[i] == decimal(n)[i - 1]);
            assert(is_digit(decimal(n)[i - 1]));
        }
    }
}

/// A line that sends keys, taken apart at its spaces, is the command, its options, the pane,
/// one hexadecimal number for each key in their order, and the carriage return.
pub proof fn law_keys_read_back(pane: TmuxPaneId, keys: Seq<u8>)
    ensures
        ({
            let f = fields(send_keys_line(pane, keys), ' ');
            &&& f.len() == 4 + keys.len() + 1
            &&& f[0] == "send-keys"@
            &&& f[1] == "-H"@
            &&& f[2] == "-t"@
            &&& f[3] == seq!['%'] + decimal(pane as nat)
            &&& forall|i: int|
                0 <= i < keys.len() ==> {
                    let word = #[trigger] f[4 + i];
                    &&& word.len() > 2
                    &&& word.take(2) == "0x"@
                    &&& hex_number(word.skip(2)) == Some(keys[i] as int)
                    &&& is_short_upper(word.skip(2))
                }
            &&& f.last() == seq!['\r']
        }),
{
    let line = send_keys_line(pane, keys);
    let target = seq!['%'] + decimal(pane as nat);
    let tail = key_words(keys).push(seq!['\r']);
    reveal_strlit("send-keys -H -t %");
    reveal_strlit("send-keys");
    reveal_strlit("-H");
    reveal_strlit("-t");
    reveal_strlit(" ");
    reveal_strlit("\r");
    assert("\r"@ == seq!['\r']);
    lemma_keys_are_joined(keys, seq!['\r']);
    let p3 = seq![target] + tail;
    let p2 = seq!["-t"@] + p3;
    let p1 = seq!["-H"@] + p2;
    let parts = seq!["send-keys"@] + p1;
    lemma_joined_cons(target, tail, ' ');
    lemma_joined_cons("-t"@, p3, ' ');
    lemma_joined_cons("-H"@, p2, ' ');
    lemma_joined_cons("send-keys"@, p1, ' ');
    assert("send-keys -H -t %"@ == "send-keys"@ + seq![' '] + ("-H"@ + seq![' '] + ("-t"@ + seq![
        ' ',
    ] + seq!['%'])));
    assert(line == joined(parts, ' '));
    assert forall|i: int| 0 <= i < parts.len() implies !(#[trigger] parts[i]).contains(' ') by {
        lemma_numbered_word('%', pane as nat);
        if 4 <= i < 4 + keys.len() {
            assert(parts[i] == key_words(keys)[i - 4]);
            lemma_key_word(keys[i - 4]);
        } else if i == 4 + keys.len() {
            assert(parts[i] == seq!['\r']);
        }
    }
    law_joined_fields_come_apart(parts, ' ');
    assert forall|i: int| 0 <= i < keys.len() implies ({
        let word = #[trigger] parts[4 + i];
        &&& word.len() > 2
        &&& word.take(2) == "0x"@
        &&& hex_number(word.skip(2)) == Some(keys[i] as int)
        &&& is_short_upper(word.skip(2))
    }) by {
        assert(parts[4 + i] == key_words(keys)[i]);
        lemma_key_word(keys[i]);
    }
    assert(parts[4 + keys.len() as int] == seq!['\r']);
}

// ---------------------------------------------------------------------------
// Other command lines
// ---------------------------------------------------------------------------

/// Whether the line, up to its newline, is made of these words with a space between them.
pub open spec fn is_line_of(line: Seq<char>, parts: Seq<Seq<char>>) -> bool {
    &&& line.len() > 0
    &&& line.last() == '\n'
    &&& fields(line.drop_last(), ' ') == parts
}

proof fn lemma_is_line_of(line: Seq<char>, parts: Seq<Seq<char>>)
    requires
        parts.len() > 0,
        forall|i: int| 0 <= i < parts.len() ==> !(#[trigger] parts[i]).contains(' '),
        line == joined(parts, ' ') + seq!['\n'],
    ensures
        is_line_of(line, parts),
{
    law_joined_fields_come_apart(parts, ' ');
    assert(line.drop_last() == joined(parts, ' '));
}

proof fn lemma_three_joined(a: Seq<char>, b: Seq<char>, c: Seq<char>)
    ensures
        joined(seq![a, b, c], ' ') == a + seq![' '] + b + seq![' '] + c,
{
    assert(seq![a, b, c].skip(1) == seq![b, c]);
    assert(seq![b, c].skip(1) == seq![c]);
    assert(joined(seq![c], ' ') == c);
    assert(joined(seq![b, c], ' ') == b + seq![' '] + c);
}

proof fn lemma_four_joined(a: Seq<char>, b: Seq<char>, c: Seq<char>, d: Seq<char>)
    ensures
        joined(seq![a, b, c, d], ' ') == a + seq![' '] + b + seq![' '] + c + seq![' '] + d,
{
    assert(seq![a, b, c, d].skip(1) == seq![b, c, d]);
    lemma_three_joined(b, c, d);
}

/// A window or a pane is selected by its id.
pub proof fn law_select_lines_read_back(id: u64)
    ensures
        is_line_of(
            select_window_line(id),
            seq!["select-window"@, "-t"@, seq!['@'] + decimal(id as nat)],
        ),
        is_line_of(
            select_pane_line(id),
            seq!["select-pane"@, "-t"@, seq!['%'] + decimal(id as nat)],
        ),
{
    reveal_strlit("select-window -t @");
    reveal_strlit("select-pane -t %");
    reveal_strlit("select-window");
    reveal_strlit("select-pane");
    reveal_strlit("-t");
    reveal_strlit("\n");
    let window = seq!['@'] + decimal(id as nat);
    let pane = seq!['%'] + decimal(id as nat);
    lemma_numbered_word('@', id as nat);
    lemma_numbered_word('%', id as nat);
    lemma_three_joined("select-window"@, "-t"@, window);
    lemma_three_joined("select-pane"@, "-t"@, pane);
    assert("select-window -t @"@ == "select-window"@ + seq![' '] + "-t"@ + seq![' '] + seq!['@']);
    assert("select-pane -t %"@ == "select-pane"@ + seq![' '] + "-t"@ + seq![' '] + seq!['%']);
    assert("\n"@ == seq!['\n']);
    assert(select_window_line(id) == joined(seq!["select-window"@, "-t"@, window], ' ') + seq![
        '\n',
    ]);
    assert(select_pane_line(id) == joined(seq!["select-pane"@, "-t"@, pane], ' ') + seq!['\n']);
    lemma_is_line_of(select_window_line(id), seq!["select-window"@, "-t"@, window]);
    lemma_is_line_of(select_pane_line(id), seq!["select-pane"@, "-t"@, pane]);
}

/// A pane is split side by side or one above the other, as the direction says.
pub proof fn law_split_line_reads_back(pane_id: TmuxPaneId)
    ensures
        is_line_of(
            split_pane_line(SplitPane { pane_id, direction: SplitDirection::Horizontal }),
            seq!["split-window"@, "-h"@, "-t"@, seq!['%'] + decimal(pane_id as nat)],
        ),
        is_line_of(
            split_pane_line(SplitPane { pane_id, direction: SplitDirection::Vertical }),
            seq!["split-window"@, "-v"@, "-t"@, seq!['%'] + decimal(pane_id as nat)],
        ),
{
    reveal_strlit("split-window -h -t %");
    reveal_strlit("split-window -v -t %");
    reveal_strlit("split-window");
    reveal_strlit("-h");
    reveal_strlit("-v");
    reveal_strlit("-t");
    reveal_strlit("\n");
    let pane = seq!['%'] + decimal(pane_id as nat);
    lemma_numbered_word('%', pane_id as nat);
    lemma_four_joined("split-window"@, "-h"@, "-t"@, pane);
    lemma_four_joined("split-window"@, "-v"@, "-t"@, pane);
    assert("split-window -h -t %"@ == "split-window"@ + seq![' '] + "-h"@ + seq![' '] + "-t"@
        + seq![' '] + seq!['%']);
    assert("split-window -v -t %"@ == "split-window"@ + seq![' '] + "-v"@ + seq![' '] + "-t"@
        + seq![' '] + seq!['%']);
    assert("\n"@ == seq!['\n']);
    assert(split_pane_line(SplitPane { pane_id, direction: SplitDirection::Horizontal }) == joined(
        seq!["split-window"@, "-h"@, "-t"@, pane],
        ' ',
    ) + seq!['\n']);
    assert(split_pane_line(SplitPane { pane_id, direction: SplitDirection::Vertical }) == joined(
        seq!["split-window"@, "-v"@, "-t"@, pane],
        ' ',
    ) + seq!['\n']);
    lemma_is_line_of(
        split_pane_line(SplitPane { pane_id, direction: SplitDirection::Horizontal }),
        seq!["split-window"@, "-h"@, "-t"@, pane],
    );
    lemma_is_line_of(
        split_pane_line(SplitPane { pane_id, direction: SplitDirection::Vertical }),
        seq!["split-window"@, "-v"@, "-t"@, pane],
    );
}

/// A pane is captured by its id, with escapes, from as many lines above the screen as the limit
/// says: the line begins as far above as the limit is large.
pub proof fn law_capture_line_reads_back(c: CapturePane)
    ensures
        ({
            let line = capture_pane_line(c);
            let f = fields(line.drop_last(), ' ');
            &&& line.last() == '\n'
            &&& f.len() == 8
            &&& f[0] == "capture-pane"@
            &&& f[1] == "-p"@
            &&& f[2] == "-t"@
            &&& f[3] == seq!['%'] + decimal(c.pane_id as nat)
            &&& f[4] == "-e"@
            &&& f[5] == "-C"@
            &&& f[6] == "-S"@
            &&& signed_in(f[7], -(isize::MAX as int), -(isize::MIN as int)) == Some(
                -c.history_limit as int,
            )
        }),
{
    let start = signed_decimal(-c.history_limit);
    law_signed_number_reads_back(
        -c.history_limit as int,
        -(isize::MAX as int),
        -(isize::MIN as int),
    );
    let pane = seq!['%'] + decimal(c.pane_id as nat);
    lemma_numbered_word('%', c.pane_id as nat);
    assert(!start.contains(' ')) by {
        let n = if -c.history_limit < 0 {
            c.history_limit as nat
        } else {
            (-c.history_limit) as nat
        };
        law_decimal_reads_back(n);
        assert forall|i: int| 0 <= i < decimal(n).len() implies decimal(n)[i] != ' ' by {
            assert(is_digit(decimal(n)[i]));
        }
        lemma_numbered_word('-', n);
    }
    reveal_strlit("capture-pane -p -t %");
    reveal_strlit(" -e -C -S ");
    reveal_strlit("capture-pane");
    reveal_strlit("-p");
    reveal_strlit("-t");
    reveal_strlit("-e");
    reveal_strlit("-C");
    reveal_strlit("-S");
    reveal_strlit("\n");
    let parts = seq!["capture-pane"@, "-p"@, "-t"@, pane, "-e"@, "-C"@, "-S"@, start];
    let back = seq!["-e"@, "-C"@, "-S"@, start];
    lemma_four_joined("-e"@, "-C"@, "-S"@, start);
    lemma_joined_cons(pane, back, ' ');
    lemma_joined_cons("-t"@, seq![pane] + back, ' ');
    lemma_joined_cons("-p"@, seq!["-t"@] + (seq![pane] + back), ' ');
    lemma_joined_cons("capture-pane"@, seq!["-p"@] + (seq!["-t"@] + (seq![pane] + back)), ' ');
    assert(parts == seq!["capture-pane"@] + (seq!["-p"@] + (seq!["-t"@] + (seq![pane] + back))));
    assert("capture-pane -p -t %"@ == "capture-pane"@ + seq![' '] + "-p"@ + seq![' '] + "-t"@
        + seq![' '] + seq!['%']);
    assert(" -e -C -S "@ == seq![' '] + "-e"@ + seq![' '] + "-C"@ + seq![' '] + "-S"@ + seq![' ']);
    assert("\n"@ == seq!['\n']);
    assert(capture_pane_line(c) == joined(parts, ' ') + seq!['\n']);
    lemma_is_line_of(capture_pane_line(c), parts);
}

proof fn lemma_size_text(cols: nat, rows: nat, sigil: char, id: nat, command: Seq<char>)
    ensures
        command + size_options(cols, rows, seq![sigil], id) == command + seq![' '] + ("-x"@ + seq![
            ' ',
        ] + (decimal(cols) + seq![' '] + ("-y"@ + seq![' '] + decimal(rows) + seq![' '] + "-t"@
            + seq![' '] + (seq![sigil] + decimal(id))))) + seq!['\n'],
{
    reveal_strlit(" -x ");
    reveal_strlit(" -y ");
    reveal_strlit(" -t ");
    reveal_strlit("-x");
    reveal_strlit("-y");
    reveal_strlit("-t");
    reveal_strlit("\n");
    assert(" -x "@ == seq![' '] + "-x"@ + seq![' ']);
    assert(" -y "@ == seq![' '] + "-y"@ + seq![' ']);
    assert(" -t "@ == seq![' '] + "-t"@ + seq![' ']);
    assert("\n"@ == seq!['\n']);
}

proof fn lemma_size_parts(cols: nat, rows: nat, sigil: char, id: nat, command: Seq<char>)
    requires
        sigil != ' ',
        !command.contains(' '),
    ensures
        is_line_of(
            command + size_options(cols, rows, seq![sigil], id),
            seq![
                command,
                "-x"@,
                decimal(cols),
                "-y"@,
                decimal(rows),
                "-t"@,
                seq![sigil] + decimal(id),
            ],
        ),
{
    let target = seq![sigil] + decimal(id);
    let parts = seq![command, "-x"@, decimal(cols), "-y"@, decimal(rows), "-t"@, target];
    let back = seq!["-y"@, decimal(rows), "-t"@, target];
    lemma_four_joined("-y"@, decimal(rows), "-t"@, target);
    lemma_joined_cons(decimal(cols), back, ' ');
    lemma_joined_cons("-x"@, seq![decimal(cols)] + back, ' ');
    lemma_joined_cons(command, seq!["-x"@] + (seq![decimal(cols)] + back), ' ');
    assert(parts == seq![command] + (seq!["-x"@] + (seq![decimal(cols)] + back)));
    lemma_size_text(cols, rows, sigil, id, command);
    lemma_numbered_word(sigil, id);
    lemma_decimal_has_no_space(cols);
    lemma_decimal_has_no_space(rows);
    assert forall|i: int| 0 <= i < parts.len() implies !(#[trigger] parts[i]).contains(' ') by {
        reveal_strlit("-x");
        reveal_strlit("-y");
        reveal_strlit("-t");
    }
    lemma_is_line_of(command + size_options(cols, rows, seq![sigil], id), parts);
}

proof fn lemma_decimal_has_no_space(n: nat)
    ensures
        !decimal(n).contains(' '),
        !decimal(n).contains('\n'),
{
    law_decimal_reads_back(n);
    assert forall|i: int| 0 <= i < decimal(n).len() implies decimal(n)[i] != ' ' && decimal(n)[i]
        != '\n' by {
        assert(is_digit(decimal(n)[i]));
    }
}

/// A pane is resized to its columns and rows, in that order; where its window has to grow first,
/// a line before that one resizes the window to the columns and rows of the tab.
pub proof fn law_resize_lines_read_back(
    r: Resize,
    cols: usize,
    rows: usize,
    window_id: TmuxWindowId,
)
    ensures
        is_line_of(
            resize_pane_line(r),
            seq![
                "resize-pane"@,
                "-x"@,
                decimal(r.size.cols as nat),
                "-y"@,
                decimal(r.size.rows as nat),
                "-t"@,
                seq!['%'] + decimal(r.pane_id as nat),
            ],
        ),
        ({
            let lines = resize_window_lines(r, cols, rows, window_id);
            let n = lines.len() - resize_pane_line(r).len();
            &&& n > 0
            &&& lines.skip(n) == resize_pane_line(r)
            &&& is_line_of(
                lines.take(n),
                seq![
                    "resize-window"@,
                    "-x"@,
                    decimal(cols as nat),
                    "-y"@,
                    decimal(rows as nat),
                    "-t"@,
                    seq!['@'] + decimal(window_id as nat),
                ],
            )
        }),
{
    reveal_strlit("%");
    reveal_strlit("@");
    assert("%"@ == seq!['%']);
    assert("@"@ == seq!['@']);
    reveal_strlit("resize-pane");
    reveal_strlit("resize-window");
    lemma_size_parts(
        r.size.cols as nat,
        r.size.rows as nat,
        '%',
        r.pane_id as nat,
        "resize-pane"@,
    );
    lemma_size_parts(cols as nat, rows as nat, '@', window_id as nat, "resize-window"@);
    let first = "resize-window"@ + size_options(cols as nat, rows as nat, "@"@, window_id as nat);
    let lines = resize_window_lines(r, cols, rows, window_id);
    assert(lines == first + resize_pane_line(r));
    assert(lines.take(first.len() as int) == first);
    assert(lines.skip(first.len() as int) == resize_pane_line(r));
}

/// Where windows cannot be resized, the client is, to the columns and rows of the tab with the
/// separator that tmux knows between them; the pane's own line follows.
pub proof fn law_refresh_lines_read_back(r: Resize, cols: usize, rows: usize, sep: char)
    requires
        sep == 'x' || sep == ',',
    ensures
        ({
            let lines = refresh_client_lines(r, cols, rows, seq![sep]);
            let n = lines.len() - resize_pane_line(r).len();
            &&& n > 0
            &&& lines.skip(n) == resize_pane_line(r)
            &&& is_line_of(
                lines.take(n),
                seq![
                    "refresh-client"@,
                    "-C"@,
                    decimal(cols as nat) + seq![sep] + decimal(rows as nat),
                ],
            )
        }),
{
    reveal_strlit("refresh-client -C ");
    reveal_strlit("refresh-client");
    reveal_strlit("-C");
    reveal_strlit("\n");
    let size = decimal(cols as nat) + seq![sep] + decimal(rows as nat);
    let parts = seq!["refresh-client"@, "-C"@, size];
    let first = "refresh-client -C "@ + decimal(cols as nat) + seq![sep] + decimal(rows as nat)
        + "\n"@;
    lemma_three_joined("refresh-client"@, "-C"@, size);
    assert("refresh-client -C "@ == "refresh-client"@ + seq![' '] + "-C"@ + seq![' ']);
    assert("\n"@ == seq!['\n']);
    lemma_decimal_has_no_space(cols as nat);
    lemma_decimal_has_no_space(rows as nat);
    assert(!size.contains(' ')) by {
        if size.contains(' ') {
            let i = choose|i: int| 0 <= i < size.len() && size[i] == ' ';
            let n = decimal(cols as nat).len() as int;
            if i < n {
                assert(decimal(cols as nat)[i] == ' ');
            } else if i > n {
                assert(decimal(rows as nat)[i - n - 1] == ' ');
            }
        }
    }
    assert(first == joined(parts, ' ') + seq!['\n']);
    lemma_is_line_of(first, parts);
    let lines = refresh_client_lines(r, cols, rows, seq![sep]);
    assert(lines == first + resize_pane_line(r));
    assert(lines.take(first.len() as int) == first);
    assert(lines.skip(first.len() as int) == resize_pane_line(r));
}

/// A raw command is sent as it is, on a line of its own.
pub proof fn law_raw_command_is_one_line(command: Seq<char>)
    ensures
        raw_line(command).len() > 0,
        raw_line(command).last() == '\n',
        raw_line(command) == command || raw_line(command).drop_last() == command,
        raw_line(command) == command <==> command.len() > 0 && command.last() == '\n',
        raw_line(raw_line(command)) == raw_line(command),
{
    if !(command.len() > 0 && command.last() == '\n') {
        assert(command.push('\n').drop_last() == command);
    }
}

// ---------------------------------------------------------------------------
// Subscriptions
// ---------------------------------------------------------------------------

/// The line that asks for these arguments, each a word of the shell.
pub open spec fn subscribing(arguments: Seq<Seq<char>>) -> Seq<char>
    decreases arguments.len(),
{
    if arguments.len() == 0 {
        "refresh-client"@
    } else {
        subscribing(arguments.drop_last()) + " -B "@ + arguments.last()
    }
}

/// What tmux reads as the argument of a subscription: its name, what it is computed against and
/// its format, with colons between them.
pub open spec fn argument_parts(sub: TmuxFormatSubscription) -> Seq<Seq<char>> {
    seq![
        sub.name@,
        match sub.target {
            TmuxSubscriptionTarget::Session => Seq::empty(),
            TmuxSubscriptionTarget::Pane => seq!['%', '*'],
            TmuxSubscriptionTarget::Window => seq!['@', '*'],
        },
        sub.format@,
    ]
}

/// The words of the shell that stand for the arguments of the subscriptions.
pub open spec fn argument_words(subs: Seq<TmuxFormatSubscription>) -> Seq<Seq<char>> {
    Seq::new(
        subs.len(),
        |i: int| seq!['\''] + quoted(subscription_argument(subs[i])) + seq!['\''],
    )
}

proof fn lemma_subscribing(subs: Seq<TmuxFormatSubscription>)
    ensures
        "refresh-client"@ + subscription_flags(subs) == subscribing(argument_words(subs)),
    decreases subs.len(),
{
    reveal_strlit(" -B '");
    reveal_strlit(" -B ");
    reveal_strlit("'");
    if subs.len() == 0 {
        assert("refresh-client"@ + subscription_flags(subs) == "refresh-client"@);
    } else {
        let front = subs.drop_last();
        lemma_subscribing(front);
        assert(argument_words(subs).drop_last() == argument_words(front));
        assert(" -B '"@ == " -B "@ + seq!['\'']);
        assert("'"@ == seq!['\'']);
        assert("refresh-client"@ + subscription_flags(subs) == "refresh-client"@
            + subscription_flags(front) + " -B "@ + argument_words(subs).last());
    }
}

/// One line subscribes to all formats, in their order, and the shell reads each argument as the
/// name, the target and the format of the subscription, whatever they hold.
pub proof fn law_subscriptions_are_read_literally(subs: Seq<TmuxFormatSubscription>)
    ensures
        subscribe_line(subs) == subscribing(argument_words(subs)) + seq!['\n'],
        forall|i: int|
            0 <= i < subs.len() ==> read_word(#[trigger] argument_words(subs)[i], false) == Some(
                joined(argument_parts(subs[i]), ':'),
            ),
{
    lemma_subscribing(subs);
    reveal_strlit("\n");
    assert("\n"@ == seq!['\n']);
    assert forall|i: int| 0 <= i < subs.len() implies read_word(
        #[trigger] argument_words(subs)[i],
        false,
    ) == Some(joined(argument_parts(subs[i]), ':')) by {
        let sub = subs[i];
        law_quoted_argument_is_read_literally(subscription_argument(sub));
        reveal_strlit(":");
        reveal_strlit("");
        reveal_strlit("%*");
        reveal_strlit("@*");
        let parts = argument_parts(sub);
        assert(""@ == Seq::<char>::empty());
        assert("%*"@ == seq!['%', '*']);
        assert("@*"@ == seq!['@', '*']);
        assert(target_token(sub.target) == parts[1]);
        assert(":"@ == seq![':']);
        assert(parts.skip(1).skip(1) == seq![parts[2]]);
        assert(joined(seq![parts[2]], ':') == parts[2]);
        assert(joined(parts.skip(1), ':') == parts[1] + seq![':'] + parts[2]);
        assert(joined(parts, ':') == subscription_argument(sub));
    }
}

// ---------------------------------------------------------------------------
// Answers
// ---------------------------------------------------------------------------

/// An answer that is an error is taken for one, whatever else it says.
pub proof fn law_failed_commands_are_errors(output: Seq<char>, wanted: Option<TmuxWindowId>)
    ensures
        listed_panes(true, output) == Err::<Seq<PaneItem>, TmuxError>(TmuxError::CommandFailed),
        listed_windows(true, output, wanted) == Err::<Seq<WindowView>, TmuxError>(
            TmuxError::CommandFailed,
        ),
        captured(true, output) == Err::<Seq<char>, TmuxError>(TmuxError::CommandFailed),
{
}

/// The lines in which tmux lists panes.
pub open spec fn pane_lines(items: Seq<PaneItem>) -> Seq<Seq<char>> {
    Seq::new(items.len(), |i: int| joined(pane_fields(items[i]), ' '))
}

/// The lines in which tmux lists windows.
pub open spec fn window_lines(windows: Seq<WindowView>) -> Seq<Seq<char>> {
    Seq::new(windows.len(), |i: int| joined(window_fields(windows[i]), ' '))
}

proof fn lemma_joined_contains_no(parts: Seq<Seq<char>>, sep: char, c: char)
    requires
        sep != c,
        forall|i: int| 0 <= i < parts.len() ==> !(#[trigger] parts[i]).contains(c),
    ensures
        !joined(parts, sep).contains(c),
    decreases parts.len(),
{
    let s = joined(parts, sep);
    if parts.len() > 0 {
        let rest = parts.skip(1);
        assert forall|i: int| 0 <= i < rest.len() implies !(#[trigger] rest[i]).contains(c) by {
            assert(rest[i] == parts[i + 1]);
        }
        lemma_joined_contains_no(rest, sep, c);
        assert(!parts[0].contains(c));
        if s.contains(c) {
            let i = choose|i: int| 0 <= i < s.len() && s[i] == c;
            let n = parts[0].len() as int;
            if i < n {
                assert(parts[0][i] == c);
            } else if i > n {
                assert(joined(rest, sep)[i - n - 1] == c);
            }
        }
    }
}

proof fn lemma_id_has_no_newline(sigil: char, id: u64)
    requires
        sigil != '\n',
    ensures
        !id_text(sigil, id).contains('\n'),
{
    lemma_decimal_has_no_space(id as nat);
    let s = id_text(sigil, id);
    if s.contains('\n') {
        let i = choose|i: int| 0 <= i < s.len() && s[i] == '\n';
        assert(decimal(id as nat)[i - 1] == '\n');
    }
}

proof fn lemma_pane_line(item: PaneItem)
    ensures
        !joined(pane_fields(item), ' ').contains('\n'),
        joined(pane_fields(item), ' ').len() > 0,
{
    let f = pane_fields(item);
    lemma_id_has_no_newline('$', item.session_id);
    lemma_id_has_no_newline('@', item.window_id);
    lemma_id_has_no_newline('%', item.pane_id);
    lemma_decimal_has_no_space(item.pane_index as nat);
    lemma_decimal_has_no_space(item.cursor_x as nat);
    lemma_decimal_has_no_space(item.cursor_y as nat);
    lemma_decimal_has_no_space(item.pane_width as nat);
    lemma_decimal_has_no_space(item.pane_height as nat);
    lemma_decimal_has_no_space(item.pane_left as nat);
    lemma_decimal_has_no_space(item.pane_top as nat);
    lemma_decimal_has_no_space(0);
    lemma_decimal_has_no_space(1);
    lemma_joined_contains_no(f, ' ', '\n');
}

proof fn lemma_panes_are_listed(items: Seq<PaneItem>)
    ensures
        panes_in(pane_lines(items)) == Some(items),
    decreases items.len(),
{
    let lines = pane_lines(items);
    if items.len() > 0 {
        let front = items.drop_last();
        lemma_panes_are_listed(front);
        assert(lines.drop_last() == pane_lines(front));
        law_pane_line_reads_back(items.last());
        lemma_pane_line(items.last());
        assert(front.push(items.last()) == items);
    }
}

/// The panes that tmux lists are read back, all of them and in their order; an empty line, as
/// behind the last newline, is no pane.
pub proof fn law_listed_panes_read_back(items: Seq<PaneItem>)
    requires
        items.len() > 0,
    ensures
        listed_panes(false, joined(pane_lines(items), '\n')) == Ok::<Seq<PaneItem>, TmuxError>(
            items,
        ),
        listed_panes(false, joined(pane_lines(items).push(Seq::empty()), '\n')) == Ok::<
            Seq<PaneItem>,
            TmuxError,
        >(items),
        listed_panes(false, Seq::empty()) == Ok::<Seq<PaneItem>, TmuxError>(Seq::empty()),
{
    let lines = pane_lines(items);
    let more = lines.push(Seq::empty());
    lemma_panes_are_listed(items);
    assert forall|i: int| 0 <= i < more.len() implies !(#[trigger] more[i]).contains('\n') by {
        if i < lines.len() {
            assert(more[i] == joined(pane_fields(items[i]), ' '));
            lemma_pane_line(items[i]);
        }
    }
    assert forall|i: int| 0 <= i < lines.len() implies !(#[trigger] lines[i]).contains('\n') by {
        assert(more[i] == lines[i]);
    }
    law_joined_fields_come_apart(lines, '\n');
    law_joined_fields_come_apart(more, '\n');
    assert(more.drop_last() == lines);
    assert(panes_in(more) == Some(items));
    let none = Seq::<char>::empty();
    assert(fields(none, '\n') == seq![none]);
    assert(seq![none].drop_last() == Seq::<Seq<char>>::empty());
    assert(panes_in(Seq::<Seq<char>>::empty()) == Some(Seq::<PaneItem>::empty()));
    assert(panes_in(seq![none]) == Some(Seq::<PaneItem>::empty()));
}

/// Whether the names and layouts of the window can be told apart in a list.
pub open spec fn is_listable(window: WindowView) -> bool {
    &&& !window.window_name.contains(' ') && !window.window_name.contains('\n')
    &&& !window.window_layout.contains(' ') && !window.window_layout.contains('\n')
    &&& !window.window_visible_layout.contains(' ') && !window.window_visible_layout.contains('\n')
    &&& !window.window_raw_flags.contains(' ') && !window.window_raw_flags.contains('\n')
    &&& window.history_limit >= 0
}

proof fn lemma_window_line(window: WindowView)
    requires
        is_listable(window),
    ensures
        !joined(window_fields(window), ' ').contains('\n'),
        joined(window_fields(window), ' ').len() > 0,
{
    let f = window_fields(window);
    lemma_id_has_no_newline('$', window.session_id);
    lemma_id_has_no_newline('@', window.window_id);
    lemma_decimal_has_no_space(window.window_width as nat);
    lemma_decimal_has_no_space(window.window_height as nat);
    lemma_decimal_has_no_space(0);
    lemma_decimal_has_no_space(1);
    lemma_decimal_has_no_space(window.history_limit as nat);
    lemma_joined_contains_no(f, ' ', '\n');
}

proof fn lemma_windows_are_listed(windows: Seq<WindowView>, id: TmuxWindowId)
    requires
        forall|i: int| 0 <= i < windows.len() ==> is_listable(#[trigger] windows[i]),
    ensures
        windows_in(window_lines(windows), None) == Some(windows),
        windows_in(window_lines(windows), Some(id)) == Some(
            windows.filter(|w: WindowView| w.window_id == id),
        ),
    decreases windows.len(),
{
    let lines = window_lines(windows);
    let is_it = |w: WindowView| w.window_id == id;
    reveal(Seq::filter);
    if windows.len() > 0 {
        let front = windows.drop_last();
        assert forall|i: int| 0 <= i < front.len() implies is_listable(#[trigger] front[i]) by {
            assert(front[i] == windows[i]);
        }
        lemma_windows_are_listed(front, id);
        assert(lines.drop_last() == window_lines(front));
        assert(is_listable(windows[windows.len() - 1]));
        law_window_line_reads_back(windows.last());
        lemma_window_line(windows.last());
        assert(front.push(windows.last()) == windows);
        assert(windows.filter(is_it) == if is_it(windows.last()) {
            front.filter(is_it).push(windows.last())
        } else {
            front.filter(is_it)
        });
    }
}

/// The windows that tmux lists are read back in their order: all of them, or those with the id
/// that is wanted and no others.
pub proof fn law_listed_windows_read_back(windows: Seq<WindowView>, id: TmuxWindowId)
    requires
        windows.len() > 0,
        forall|i: int| 0 <= i < windows.len() ==> is_listable(#[trigger] windows[i]),
    ensures
        listed_windows(false, joined(window_lines(windows), '\n'), None) == Ok::<
            Seq<WindowView>,
            TmuxError,
        >(windows),
        listed_windows(false, joined(window_lines(windows), '\n'), Some(id)) == Ok::<
            Seq<WindowView>,
            TmuxError,
        >(windows.filter(|w: WindowView| w.window_id == id)),
        listed_windows(false, joined(window_lines(windows).push(Seq::empty()), '\n'), None) == Ok::<
            Seq<WindowView>,
            TmuxError,
        >(windows),
{
    let lines = window_lines(windows);
    let more = lines.push(Seq::empty());
    assert forall|i: int| 0 <= i < more.len() implies !(#[trigger] more[i]).contains('\n') by {
        if i < lines.len() {
            assert(is_listable(windows[i]));
            assert(more[i] == joined(window_fields(windows[i]), ' '));
            lemma_window_line(windows[i]);
        }
    }
    law_joined_fields_come_apart(more, '\n');
    assert(more.drop_last() == lines);
    lemma_windows_are_listed(windows, id);
    assert forall|i: int| 0 <= i < lines.len() implies !(#[trigger] lines[i]).contains('\n') by {
        assert(is_listable(windows[i]));
        lemma_window_line(windows[i]);
    }
    law_joined_fields_come_apart(lines, '\n');
}

/// A flag is set by a one, and by no other number.
pub proof fn law_flag_is_set_by_one(n: u32)
    ensures
        flag_field(Some(decimal(n as nat))) == Some(n == 1),
{
    law_decimal_reads_back(n as nat);
}

/// A listing with a line that is no pane is malformed as a whole, and so is one with a line that
/// is no window.
pub proof fn law_malformed_line_spoils_the_list(
    lines: Seq<Seq<char>>,
    i: int,
    wanted: Option<TmuxWindowId>,
)
    requires
        0 <= i < lines.len(),
        lines[i].len() > 0,
        forall|k: int| 0 <= k < lines.len() ==> !(#[trigger] lines[k]).contains('\n'),
    ensures
        pane_of(lines[i]) is None ==> listed_panes(false, joined(lines, '\n')) == Err::<
            Seq<PaneItem>,
            TmuxError,
        >(TmuxError::MalformedAnswer),
        window_of(lines[i]) is None ==> listed_windows(false, joined(lines, '\n'), wanted) == Err::<
            Seq<WindowView>,
            TmuxError,
        >(TmuxError::MalformedAnswer),
{
    law_joined_fields_come_apart(lines, '\n');
    lemma_spoilt(lines, i, wanted);
}

proof fn lemma_spoilt(lines: Seq<Seq<char>>, i: int, wanted: Option<TmuxWindowId>)
    requires
        0 <= i < lines.len(),
        lines[i].len() > 0,
    ensures
        pane_of(lines[i]) is None ==> panes_in(lines) is None,
        window_of(lines[i]) is None ==> windows_in(lines, wanted) is None,
    decreases lines.len(),
{
    if i < lines.len() - 1 {
        assert(lines.drop_last()[i] == lines[i]);
        lemma_spoilt(lines.drop_last(), i, wanted);
    }
}

/// Newlines become carriage return and newline one by one, and nothing else changes.
pub proof fn law_newlines_become_crlf(a: Seq<char>, b: Seq<char>)
    ensures
        with_crlf(a + seq!['\n'] + b) == with_crlf(a) + seq!['\r', '\n'] + with_crlf(b),
        !a.contains('\n') ==> with_crlf(a) == a,
{
    lemma_crlf_joined(a, seq!['\n'] + b);
    lemma_crlf_joined(seq!['\n'], b);
    assert(a + seq!['\n'] + b == a + (seq!['\n'] + b));
    assert(seq!['\n'].drop_last() == Seq::<char>::empty());
    assert(with_crlf(Seq::<char>::empty()) == Seq::<char>::empty());
    assert(with_crlf(seq!['\n']) == seq!['\r', '\n']);
    assert(with_crlf(a) + (seq!['\r', '\n'] + with_crlf(b)) == with_crlf(a) + seq!['\r', '\n']
        + with_crlf(b));
    if !a.contains('\n') {
        lemma_no_crlf(a);
    }
}

proof fn lemma_no_crlf(a: Seq<char>)
    requires
        !a.contains('\n'),
    ensures
        with_crlf(a) == a,
    decreases a.len(),
{
    if a.len() > 0 {
        assert(a.contains(a.last()));
        assert forall|i: int| 0 <= i < a.len() - 1 implies a.drop_last()[i] != '\n' by {
            assert(a.contains(a[i]));
        }
        lemma_no_crlf(a.drop_last());
        assert(a.drop_last().push(a.last()) == a);
    }
}

proof fn lemma_crlf_joined(a: Seq<char>, b: Seq<char>)
    ensures
        with_crlf(a + b) == with_crlf(a) + with_crlf(b),
    decreases b.len(),
{
    if b.len() == 0 {
        assert(a + b == a);
        assert(with_crlf(a) + with_crlf(b) == with_crlf(a));
    } else {
        lemma_crlf_joined(a, b.drop_last());
        assert((a + b).drop_last() == a + b.drop_last());
        assert((a + b).last() == b.last());
        if b.last() == '\n' {
            assert(with_crlf(a) + with_crlf(b.drop_last()) + seq!['\r', '\n'] == with_crlf(a) + (
            with_crlf(b.drop_last()) + seq!['\r', '\n']));
        } else {
            assert((with_crlf(a) + with_crlf(b.drop_last())).push(b.last()) == with_crlf(a)
                + with_crlf(b.drop_last()).push(b.last()));
        }
    }
}

/// What was captured of a pane is its text, out of its escapes and without the newline, or
/// whatever it is, that ends it, with carriage returns added.
pub proof fn law_captured_text_reads_back(text: Seq<char>, end: char)
    ensures
        captured(false, backslashes_doubled(text.push(end))) == Ok::<Seq<char>, TmuxError>(
            with_crlf(text),
        ),
        captured(false, Seq::empty()) == Ok::<Seq<char>, TmuxError>(Seq::empty()),
{
    law_doubled_backslashes_are_read_once(text.push(end));
    assert(text.push(end).drop_last() == text);
    law_doubled_backslashes_are_read_once(Seq::empty());
    assert(backslashes_doubled(Seq::empty()) == Seq::<char>::empty());
    assert(with_crlf(Seq::empty()) == Seq::<char>::empty());
}

} // verus!
