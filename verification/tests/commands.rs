use tmux_control::config::{TmuxFormatSubscription, TmuxSubscriptionTarget};
use tmux_control::tab::SplitDirection;
use tmux_control::tmux_cc::{Error, Guarded};
use tmux_control::tmux_commands::{
    check_result, AttachDone, CapturePane, ListAllPanes, ListAllWindows, ListCommands, NewWindow,
    PaneItem, PtySize, RawCommand, Resize, SelectPane, SelectWindow, SendKeys, SplitPane,
    Subscribe, TmuxError,
};

fn answer(output: &str) -> Guarded {
    Guarded {
        error: false,
        timestamp: 1,
        number: 2,
        flags: 0,
        output: output.to_string(),
    }
}

fn refusal() -> Guarded {
    Guarded {
        error: true,
        ..answer("no such thing\n")
    }
}

#[test]
fn listing_lines() {
    assert_eq!(
        ListAllPanes { window_id: 3 }.get_command(),
        "list-panes -F '#{session_id} #{window_id} #{pane_id} \
            #{pane_index} #{cursor_x} #{cursor_y} #{pane_width} #{pane_height} \
            #{pane_left} #{pane_top} #{pane_active}' -t @3\n"
    );
    assert_eq!(
        ListAllWindows { session_id: 4, window_id: Some(9) }.get_command(),
        "list-windows -F \
                '#{session_id} #{window_id} \
                #{window_width} #{window_height} \
                #{window_active} \
                #{window_name} \
                #{window_layout} \
                #{window_visible_layout} \
                #{window_raw_flags} \
                #{history_limit}' -t $4\n"
    );
    assert_eq!(ListCommands.get_command(), "list-commands\n");
    assert_eq!(AttachDone.get_command(), "list-session\n");
    assert_eq!(NewWindow.get_command(), "new-window\n");
}

#[test]
fn selecting_and_splitting_lines() {
    assert_eq!(SelectWindow { window_id: 5 }.get_command(), "select-window -t @5\n");
    assert_eq!(SelectPane { pane_id: 6 }.get_command(), "select-pane -t %6\n");
    assert_eq!(
        SplitPane { pane_id: 7, direction: SplitDirection::Horizontal }.get_command(),
        "split-window -h -t %7\n"
    );
    assert_eq!(
        SplitPane { pane_id: 7, direction: SplitDirection::Vertical }.get_command(),
        "split-window -v -t %7\n"
    );
}

#[test]
fn resizing_lines() {
    let r = Resize { pane_id: 8, size: PtySize { rows: 24, cols: 80 } };
    assert_eq!(
        r.resize_window(100, 50, 2),
        "resize-window -x 100 -y 50 -t @2\nresize-pane -x 80 -y 24 -t %8\n"
    );
    assert_eq!(
        r.refresh_client(100, 50, "x"),
        "refresh-client -C 100x50\nresize-pane -x 80 -y 24 -t %8\n"
    );
    assert_eq!(
        r.refresh_client(100, 50, ","),
        "refresh-client -C 100,50\nresize-pane -x 80 -y 24 -t %8\n"
    );
}

#[test]
fn capture_lines_begin_above_the_first_line() {
    let line = |history_limit| CapturePane { pane_id: 1, history_limit }.get_command();
    assert_eq!(line(2000), "capture-pane -p -t %1 -e -C -S -2000\n");
    assert_eq!(line(0), "capture-pane -p -t %1 -e -C -S 0\n");
    assert_eq!(line(-5), "capture-pane -p -t %1 -e -C -S 5\n");
}

#[test]
fn keys_are_sent_in_hexadecimal() {
    assert_eq!(
        SendKeys { keys: b"a\n\x0f\x10\xff".to_vec(), pane: 2 }.get_command(),
        "send-keys -H -t %2 0x61 0xA 0xF 0x10 0xFF \r"
    );
    assert_eq!(SendKeys { keys: vec![], pane: 2 }.get_command(), "send-keys -H -t %2 \r");
}

#[test]
fn raw_commands_are_ended() {
    let line = |command: &str| RawCommand { command: command.to_string() }.get_command();
    assert_eq!(line("send-keys -K C-b"), "send-keys -K C-b\n");
    assert_eq!(line("kill-pane\n"), "kill-pane\n");
    assert_eq!(line(""), "\n");
}

#[test]
fn subscription_targets() {
    assert_eq!(TmuxSubscriptionTarget::default(), TmuxSubscriptionTarget::Session);
    assert_eq!(TmuxSubscriptionTarget::Session.tmux_type(), "");
    assert_eq!(TmuxSubscriptionTarget::Pane.tmux_type(), "%*");
    assert_eq!(TmuxSubscriptionTarget::Window.tmux_type(), "@*");
}

#[test]
fn subscriptions_are_quoted() {
    let sub = |name: &str, target, format: &str| TmuxFormatSubscription {
        name: name.to_string(),
        target,
        format: format.to_string(),
    };
    assert_eq!(Subscribe { subs: vec![] }.get_command(), "refresh-client\n");
    assert_eq!(
        Subscribe {
            subs: vec![
                sub("left", TmuxSubscriptionTarget::Session, "#{T:status-left}"),
                sub("it's", TmuxSubscriptionTarget::Pane, "'#{pane_title}'"),
            ]
        }
        .get_command(),
        "refresh-client -B 'left::#{T:status-left}' -B 'it'\\''s:%*:'\\''#{pane_title}'\\'''\n"
    );
    let original = sub("n", TmuxSubscriptionTarget::Window, "f");
    assert_eq!(original.clone(), original);
}

#[test]
fn listed_panes_are_read() {
    let cmd = ListAllPanes { window_id: 1 };
    let item = PaneItem {
        session_id: 1,
        window_id: 2,
        pane_id: 3,
        pane_index: 0,
        cursor_x: 4,
        cursor_y: 5,
        pane_width: 80,
        pane_height: 24,
        pane_left: 0,
        pane_top: 1,
        pane_active: true,
    };
    assert_eq!(
        cmd.parse_result(&answer("$1 @2 %3 0 4 5 80 24 0 1 1\n\n$1 @2 %4 0 4 5 80 24 0 1 0 more\n")),
        Ok(vec![item, PaneItem { pane_id: 4, pane_active: false, ..item }])
    );
    assert_eq!(cmd.parse_result(&answer("")), Ok(vec![]));
    assert_eq!(cmd.parse_result(&refusal()), Err(TmuxError::CommandFailed));
    for bad in [
        "$1 @2 %3 0 4 5 80 24 0 1\n",
        "$1 @2 %3 0 4 5 80 24 0 1 x\n",
        "$1 @2 % 0 4 5 80 24 0 1 1\n",
        "\u{e9}1 @2 %3 0 4 5 80 24 0 1 1\n",
        "$1 @2 %3 0 4 5 80 24 0 1 1\n \n",
    ] {
        assert_eq!(cmd.parse_result(&answer(bad)), Err(TmuxError::MalformedAnswer), "{bad:?}");
    }
}

#[test]
fn listed_windows_are_read() {
    let lines = "$1 @2 80 24 1 bash b25d,80x24,0,0,0 b25d,80x24,0,0,0 * 2000\n\
                 $1 @3 80 24 0 vim cafd,80x24,0,0,1 cafd,80x24,0,0,1  -1\n";
    let all = ListAllWindows { session_id: 1, window_id: None }
        .parse_result(&answer(lines))
        .unwrap();
    assert_eq!(all.len(), 2);
    assert_eq!(all[0].window_name, "bash");
    assert_eq!(all[0].window_layout, "b25d,80x24,0,0,0");
    assert_eq!(all[0].window_raw_flags, "*");
    assert_eq!(all[0].history_limit, 2000);
    assert!(all[0].window_active);
    assert_eq!(all[1].window_raw_flags, "");
    assert_eq!(all[1].history_limit, -1);
    assert!(!all[1].window_active);

    let one = ListAllWindows { session_id: 1, window_id: Some(3) };
    let windows = one.parse_result(&answer(lines)).unwrap();
    assert_eq!(windows.len(), 1);
    assert_eq!(windows[0].window_id, 3);
    // a line of another form spoils the answer, even if it is not asked for
    assert_eq!(
        one.parse_result(&answer(&format!("{lines}$1 @4 80\n"))),
        Err(TmuxError::MalformedAnswer)
    );
    assert_eq!(one.parse_result(&refusal()), Err(TmuxError::CommandFailed));
}

#[test]
fn captured_content_is_made_ready_for_a_terminal() {
    let cmd = CapturePane { pane_id: 1, history_limit: 10 };
    assert_eq!(
        cmd.parse_result(&answer("a\\033[1mb\nc\\\\d\n")),
        Ok("a\x1b[1mb\r\nc\\d".to_string())
    );
    assert_eq!(cmd.parse_result(&answer("")), Ok(String::new()));
    assert_eq!(cmd.parse_result(&refusal()), Err(TmuxError::CommandFailed));
    assert_eq!(
        cmd.parse_result(&answer("\\q\n")),
        Err(TmuxError::MalformedContent(Error::InvalidEscape(b'q')))
    );
}

#[test]
fn plain_answers_are_checked() {
    assert_eq!(check_result(&answer("")), Ok(()));
    assert_eq!(check_result(&refusal()), Err(TmuxError::CommandFailed));
}
