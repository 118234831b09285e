use tmux_control::text::{char_is_space, chars_of, split_fields};
use tmux_control::tmux_cc::line::parse_subscription_changed;
use tmux_control::tmux_cc::{
    parse_layout_tree, parse_line, unvis, unvis_bytes, Error, Event, Guarded, Parser,
    TmuxLayoutNode, TmuxParser,
};

#[test]
fn whitespace_is_what_unicode_says() {
    for c in '\0'..=char::MAX {
        assert_eq!(char_is_space(c), c.is_whitespace(), "{:?}", c);
    }
}

#[test]
fn fields_keep_empty_ones() {
    let line = chars_of("a  b ");
    let fields: Vec<String> = split_fields(&line, ' ')
        .into_iter()
        .map(|f| f.iter().collect())
        .collect();
    assert_eq!(fields, vec!["a", "", "b", ""]);
}

#[test]
fn escapes_are_decoded() {
    assert_eq!(unvis("plain text").unwrap(), "plain text");
    assert_eq!(unvis("a\\\\b").unwrap(), "a\\b");
    assert_eq!(unvis("\\n\\r\\b\\a\\v\\t\\f\\s\\E").unwrap(), "\n\r\x08\x07\x0b\t\x0c \x1b");
    assert_eq!(unvis("a\\$b\\\nc").unwrap(), "abc");
    assert_eq!(unvis_bytes(b"\\M-a\\M^A\\^A\\^?\\M^?").unwrap(), [0xe1, 0x81, 0x01, 0x7f, 0xff]);
}

#[test]
fn octal_escapes_take_up_to_three_digits() {
    assert_eq!(unvis_bytes(b"\\0339").unwrap(), b"\x1b9");
    assert_eq!(unvis_bytes(b"\\33x").unwrap(), b"\x1bx");
    assert_eq!(unvis_bytes(b"\\7x").unwrap(), b"\x07x");
    assert_eq!(unvis_bytes(b"\\7\\n").unwrap(), b"\x07\n");
    assert_eq!(unvis_bytes(b"\\777").unwrap(), [0xff]);
    assert_eq!(unvis_bytes(b"\\400").unwrap(), [0x00]);
}

#[test]
fn an_escape_that_is_cut_short_stands_for_nothing() {
    for cut in ["x\\", "x\\0", "x\\03", "x\\M", "x\\M-", "x\\M^", "x\\^"] {
        assert_eq!(unvis(cut).unwrap(), "x");
    }
}

#[test]
fn bad_escapes_are_refused() {
    assert_eq!(unvis("\\q"), Err(Error::InvalidEscape(b'q')));
    assert_eq!(unvis("\\Mx"), Err(Error::InvalidMetaEscape(b'x')));
    assert_eq!(unvis("\\377"), Err(Error::NotUtf8));
    assert_eq!(unvis("\\303\\251").unwrap(), "\u{e9}");
}

#[test]
fn escaping_is_undone() {
    let all: Vec<u8> = (0..=255).collect();
    let mut escaped = vec![];
    for &b in &all {
        if b < 0x20 || b == b'\\' {
            escaped.extend(format!("\\{:03o}", b).into_bytes());
        } else {
            escaped.push(b);
        }
    }
    assert_eq!(unvis_bytes(&escaped).unwrap(), all);
    let mut line = b"%output %12 ".to_vec();
    line.extend(&escaped);
    assert_eq!(parse_line(&line).unwrap(), Event::Output { pane: 12, text: all });
}

#[test]
fn output_is_taken_from_the_bytes() {
    assert_eq!(
        parse_line(b"%output %1 \xff\\012\xc3\xa9").unwrap(),
        Event::Output { pane: 1, text: b"\xff\n\xc3\xa9".to_vec() }
    );
    assert_eq!(
        parse_line(b"%extended-output %1 ").unwrap(),
        Event::ExtendedOutput { pane: 1, text: vec![] }
    );
    assert_eq!(parse_line(b"%output %1 \\q"), Err(Error::InvalidEscape(b'q')));
}

#[test]
fn other_text_is_decoded_with_replacement() {
    assert_eq!(
        parse_line(b"%message caf\xc3\xa9 \xff!").unwrap(),
        Event::Message { message: "caf\u{e9} \u{fffd}!".to_string() }
    );
}

#[test]
fn a_line_is_read_by_its_text_and_its_bytes() {
    assert_eq!(
        TmuxParser::line_entire(b"%output %3 raw", "%output %3 xyz").unwrap(),
        Event::Output { pane: 3, text: b"raw".to_vec() }
    );
}

#[test]
fn lines_must_have_their_form() {
    for bad in [
        "",
        "hello",
        "%begin 1 2",
        "%begin 1 2 3 4",
        "%begin 1 2 x",
        "%begin 9223372036854775808 2 0",
        "%end 1 18446744073709551616 0",
        "%window-add 1",
        "%window-add @",
        "%window-add @1 ",
        "%window-add @18446744073709551616",
        "%window-pane-changed @1",
        "%window-pane-changed @1 @2",
        "%sessions-changed now",
        "%exitnow",
        "%client-detached a b",
        "%layout-change @1 80x24,0,0,0 80x24,0,0,0",
        "%layout-change @1 name",
        "%output 1 x",
        "%output %1",
        "%session-changed $1",
        " %exit",
    ] {
        assert_eq!(parse_line(bad.as_bytes()), Err(Error::UnrecognizedLine), "{bad:?}");
    }
}

#[test]
fn lines_with_two_ids() {
    assert_eq!(
        parse_line(b"%window-pane-changed @1 %2").unwrap(),
        Event::WindowPaneChanged { window: 1, pane: 2 }
    );
    assert_eq!(
        parse_line(b"%session-window-changed $3 @4").unwrap(),
        Event::SessionWindowChanged { session: 3, window: 4 }
    );
    assert_eq!(
        parse_line(b"%window-renamed @5 some\\040name").unwrap(),
        Event::WindowRenamed { window: 5, name: "some name".to_string() }
    );
    assert_eq!(
        parse_line(b"%session-renamed work").unwrap(),
        Event::SessionRenamed { name: "work".to_string() }
    );
}

#[test]
fn an_exit_may_have_an_empty_reason() {
    assert_eq!(parse_line(b"%exit").unwrap(), Event::Exit { reason: None });
    assert_eq!(
        parse_line(b"%exit ").unwrap(),
        Event::Exit { reason: Some(String::new()) }
    );
}

#[test]
fn malformed_subscriptions_are_not_refused() {
    let event = |body: &str| parse_subscription_changed(&chars_of(body));
    assert_eq!(
        event("name"),
        Event::SubscriptionChanged {
            name: "name".to_string(),
            session: None,
            window: None,
            window_index: None,
            pane: None,
            value: String::new(),
        }
    );
    assert_eq!(
        event("name 1 @x +3 %4 extra : a : b"),
        Event::SubscriptionChanged {
            name: "name".to_string(),
            session: None,
            window: None,
            window_index: Some(3),
            pane: Some(4),
            value: "a : b".to_string(),
        }
    );
    assert!(parse_line(b"%subscription-changed ").is_ok());
    // any whitespace stands between the fields
    assert_eq!(
        event(" name  $1\t@2 - %4 : v"),
        Event::SubscriptionChanged {
            name: "name".to_string(),
            session: Some(1),
            window: Some(2),
            window_index: None,
            pane: Some(4),
            value: "v".to_string(),
        }
    );
}

#[test]
fn output_need_not_be_text() {
    let mut input = b"%output %12 \xff\xfe\xc3(".to_vec();
    assert_eq!(
        parse_line(&input).unwrap(),
        Event::Output { pane: 12, text: b"\xff\xfe\xc3(".to_vec() }
    );
    input.push(b'\n');
    assert_eq!(
        Parser::new().advance_bytes(&input).unwrap(),
        vec![Event::Output { pane: 12, text: b"\xff\xfe\xc3(".to_vec() }]
    );
    assert_eq!(
        parse_line(b"%extended-output %1 \x80\\033").unwrap(),
        Event::ExtendedOutput { pane: 1, text: b"\x80\x1b".to_vec() }
    );
}

#[test]
fn the_stream_may_be_cut_anywhere() {
    let input = b"%begin 1 2 0\r\nhello\n%end 1 2 0\n%window-add @1\n%output %1 a\\012\n%exit\n";
    let whole = Parser::new().advance_bytes(input).unwrap();
    assert_eq!(whole.len(), 4);
    for cut in 0..=input.len() {
        let mut p = Parser::new();
        let mut events = p.advance_bytes(&input[..cut]).unwrap();
        events.extend(p.advance_bytes(&input[cut..]).unwrap());
        assert_eq!(events, whole, "cut at {cut}");
    }
    let mut p = Parser::new();
    let mut events = vec![];
    for &b in input {
        events.extend(p.advance_byte(b).unwrap());
    }
    assert_eq!(events, whole);
}

#[test]
fn strings_are_bytes() {
    let mut p = Parser::new();
    assert_eq!(
        p.advance_string("%message caf\u{e9}\n").unwrap(),
        vec![Event::Message { message: "caf\u{e9}".to_string() }]
    );
}

#[test]
fn command_output_comes_out_whole() {
    let mut p = Parser::new();
    let events = p
        .advance_bytes(b"%begin 5 6 1\n%window-add @1\n\nlast\n%error 5 6 1\n")
        .unwrap();
    assert_eq!(
        events,
        vec![Event::Guarded(Guarded {
            error: true,
            timestamp: 5,
            number: 6,
            flags: 1,
            output: "%window-add @1\n\nlast\n".to_string(),
        })]
    );
}

#[test]
fn a_guard_that_does_not_match_drops_the_output() {
    let mut p = Parser::new();
    let events = p
        .advance_bytes(b"%begin 5 6 1\nlost\n%end 5 7 1\n%window-add @1\n")
        .unwrap();
    assert_eq!(events, vec![Event::WindowAdd { window: 1 }]);
    let events = p
        .advance_bytes(b"%begin 5 6 1\nlost\n%error 4 6 1\n%window-add @2\n")
        .unwrap();
    assert_eq!(events, vec![Event::WindowAdd { window: 2 }]);
}

#[test]
fn a_closing_guard_alone_is_an_event() {
    let mut p = Parser::new();
    assert_eq!(
        p.advance_bytes(b"%end 1 2 3\n").unwrap(),
        vec![Event::End { timestamp: 1, number: 2, flags: 3 }]
    );
}

#[test]
fn refused_text_is_handed_back() {
    let mut p = Parser::new();
    let err = p.advance_bytes(b"%window-add @1\nbash\xff$ \r\nrest\n").unwrap_err();
    assert_eq!(err.text, "bash\u{fffd}$ \nrest\n");
    // the refused line is still there
    let err = p.advance_bytes(b"more\n").unwrap_err();
    assert_eq!(err.text, "bash\u{fffd}$ more\n");
}

#[test]
fn command_output_must_be_text() {
    let mut p = Parser::new();
    let err = p.advance_bytes(b"%begin 1 2 0\n\xff\nx").unwrap_err();
    assert_eq!(
        err.text,
        format!("{}\nx", std::str::from_utf8(b"\xff").unwrap_err())
    );
}

#[test]
fn layouts_must_have_their_form() {
    for bad in [
        "",
        "80x24,0,0",
        "80x24,0,0{}",
        "80x24,0,0{40x24,0,0,0",
        "80x24,0,0{40x24,0,0,0]",
        "80x24,0,0,18446744073709551616",
        "b25d",
        "b25d,",
        "b25,80x24,0,0,0",
        "80x24,0,0{40x24,0,0{20x24,0,0,1,19x24,21,0,2},39x24,41,0,3}",
    ] {
        assert_eq!(parse_layout_tree(bad), Err(Error::InvalidLayout), "{bad:?}");
    }
}

fn written(node: &TmuxLayoutNode) -> String {
    let c = node.cell();
    let cell = format!("{}x{},{},{}", c.width, c.height, c.left, c.top);
    match node {
        TmuxLayoutNode::Leaf { pane_id, .. } => format!("{cell},{pane_id}"),
        TmuxLayoutNode::Split { children, .. } => {
            let inner: Vec<String> = children.iter().map(written).collect();
            format!("{cell}{}", inner.join(","))
        }
    }
}

#[test]
fn layouts_read_back() {
    let text = "80x24,0,0{40x24,0,0,0,39x24,41,0[39x12,41,0,1,39x11,41,13{19x11,41,13,2,19x11,61,13,3}]}";
    let node = parse_layout_tree(text).unwrap();
    assert_eq!(written(&node), text.replace(['{', '}', '[', ']'], ""));
    let leaves = node.leaves();
    assert_eq!(leaves.len(), 4);
    assert_eq!(leaves[2].0, 2);
    assert_eq!((leaves[2].1.width, leaves[2].1.left), (19, 41));
    assert_eq!(node.clone(), node);
}
