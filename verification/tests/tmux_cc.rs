use tmux_control::tmux_cc::{
    parse_layout_tree, parse_line, Event, Guarded, Parser, TmuxLayoutCell, TmuxLayoutNode,
    TmuxPaneId, TmuxSplitDirection,
};

#[test]
fn test_parse_line() {
    assert_eq!(
        Event::Begin {
            timestamp: 12345,
            number: 321,
            flags: 0,
        },
        parse_line(b"%begin 12345 321 0").unwrap()
    );

    assert_eq!(
        Event::End {
            timestamp: 12345,
            number: 321,
            flags: 0,
        },
        parse_line(b"%end 12345 321 0").unwrap()
    );
}

#[test]
fn test_parse_sequence() {
    let input = b"%sessions-changed
%pane-mode-changed %0
%begin 1604279270 310 0
stuff
in
here
%end 1604279270 310 0
%window-add @1
%window-close @38
%unlinked-window-close @39
%sessions-changed
%session-changed $1 1
%client-session-changed /dev/pts/5 $1 home
%client-detached /dev/pts/10
%layout-change @1 b25d,80x24,0,0,0
%layout-change @1 cafd,120x29,0,0,0 cafd,120x29,0,0,0 *
%output %1 \\033[1m\\033[7m%\\033[27m\\033[1m\\033[0m    \\015 \\015
%output %1 \\033kwez@cube-localdomain:~\\033\\134\\033]2;wez@cube-localdomain:~\\033\\134
%output %1 \\033]7;file://cube-localdomain/home/wez\\033\\134
%output %1 \\033[K\\033[?2004h
%exit
%exit I said so
%config-error /home/joe/.tmux.conf:1: unknown command: dadsafafasdf
%continue %2
%extended-output %1 \\033[1m\\033[7m%\\033[27m\\033[1m\\033[0m    \\015 \\015
%message message text
%unlinked-window-add @40
%unlinked-window-renamed @41
%paste-buffer-changed just something
%paste-buffer-deleted just something else
%pause %3
%subscription-changed tmux_pane_title $1 @2 3 %4 : vim ~/src
";

    let mut p = Parser::new();
    let events = p.advance_bytes(input).unwrap();
    assert_eq!(
        vec![
            Event::SessionsChanged,
            Event::PaneModeChanged { pane: 0 },
            Event::Guarded(Guarded {
                timestamp: 1604279270,
                number: 310,
                flags: 0,
                error: false,
                output: "stuff\nin\nhere\n".to_owned()
            }),
            Event::WindowAdd { window: 1 },
            Event::WindowClose { window: 38 },
            Event::UnlinkedWindowClose { window: 39 },
            Event::SessionsChanged,
            Event::SessionChanged {
                session: 1,
                name: "1".to_owned(),
            },
            Event::ClientSessionChanged {
                client_name: "/dev/pts/5".to_owned(),
                session: 1,
                session_name: "home".to_owned()
            },
            Event::ClientDetached {
                client_name: "/dev/pts/10".to_owned()
            },
            Event::LayoutChange {
                window: 1,
                layout: "b25d,80x24,0,0,0".to_owned(),
                visible_layout: None,
                raw_flags: None
            },
            Event::LayoutChange {
                window: 1,
                layout: "cafd,120x29,0,0,0".to_owned(),
                visible_layout: Some("cafd,120x29,0,0,0".to_owned()),
                raw_flags: Some("*".to_owned())
            },
            Event::Output {
                pane: 1,
                text: "\x1b[1m\x1b[7m%\x1b[27m\x1b[1m\x1b[0m    \r \r"
                    .to_owned()
                    .as_bytes()
                    .to_vec()
            },
            Event::Output {
                pane: 1,
                text: "\x1bkwez@cube-localdomain:~\x1b\\\x1b]2;wez@cube-localdomain:~\x1b\\"
                    .to_owned()
                    .as_bytes()
                    .to_vec()
            },
            Event::Output {
                pane: 1,
                text: "\x1b]7;file://cube-localdomain/home/wez\x1b\\"
                    .to_owned()
                    .as_bytes()
                    .to_vec(),
            },
            Event::Output {
                pane: 1,
                text: "\x1b[K\x1b[?2004h".to_owned().as_bytes().to_vec(),
            },
            Event::Exit { reason: None },
            Event::Exit {
                reason: Some("I said so".to_owned())
            },
            Event::ConfigError {
                error: "/home/joe/.tmux.conf:1: unknown command: dadsafafasdf".to_owned()
            },
            Event::Continue { pane: 2 },
            Event::ExtendedOutput {
                pane: 1,
                text: "\x1b[1m\x1b[7m%\x1b[27m\x1b[1m\x1b[0m    \r \r"
                    .to_owned()
                    .as_bytes()
                    .to_vec()
            },
            Event::Message {
                message: "message text".to_owned()
            },
            Event::UnlinkedWindowAdd { window: 40 },
            Event::UnlinkedWindowRenamed { window: 41 },
            Event::PasteBufferChanged {
                buffer: "just something".to_owned()
            },
            Event::PasteBufferDeleted {
                buffer: "just something else".to_owned()
            },
            Event::Pause { pane: 3 },
            Event::SubscriptionChanged {
                name: "tmux_pane_title".to_owned(),
                session: Some(1),
                window: Some(2),
                window_index: Some(3),
                pane: Some(4),
                value: "vim ~/src".to_owned(),
            },
        ],
        events
    );
}

fn leaf(node: &TmuxLayoutNode) -> (TmuxPaneId, TmuxLayoutCell) {
    match node {
        TmuxLayoutNode::Leaf { pane_id, cell } => (*pane_id, *cell),
        other => panic!("expected leaf, got {:?}", other),
    }
}

fn split(node: &TmuxLayoutNode) -> (TmuxSplitDirection, &[TmuxLayoutNode], TmuxLayoutCell) {
    match node {
        TmuxLayoutNode::Split {
            direction,
            children,
            cell,
        } => (*direction, children.as_slice(), *cell),
        other => panic!("expected split, got {:?}", other),
    }
}

#[test]
fn test_parse_layout_tree_single() {
    // A single pane (real capture: `b25d,80x24,0,0,0`).
    let node = parse_layout_tree("80x24,0,0,0").unwrap();
    assert_eq!(
        node,
        TmuxLayoutNode::Leaf {
            cell: TmuxLayoutCell {
                width: 80,
                height: 24,
                left: 0,
                top: 0
            },
            pane_id: 0,
        }
    );
    assert_eq!(node.pane_ids(), vec![0]);
}

#[test]
fn test_parse_subscription_changed() {
    // pane-scoped: all fields populated
    assert_eq!(
        Event::SubscriptionChanged {
            name: "tmux_pane_current_path".to_owned(),
            session: Some(1),
            window: Some(2),
            window_index: Some(3),
            pane: Some(4),
            value: "/home/wez/src".to_owned(),
        },
        parse_line(b"%subscription-changed tmux_pane_current_path $1 @2 3 %4 : /home/wez/src")
            .unwrap()
    );

    // session-scoped: window/index/pane are `-`
    assert_eq!(
        Event::SubscriptionChanged {
            name: "tmux_status_left".to_owned(),
            session: Some(1),
            window: None,
            window_index: None,
            pane: None,
            value: "[main] 12:00".to_owned(),
        },
        parse_line(b"%subscription-changed tmux_status_left $1 - - - : [main] 12:00").unwrap()
    );

    // empty value (note the trailing space before the empty value)
    assert_eq!(
        Event::SubscriptionChanged {
            name: "tmux_status_right".to_owned(),
            session: Some(1),
            window: None,
            window_index: None,
            pane: None,
            value: "".to_owned(),
        },
        parse_line(b"%subscription-changed tmux_status_right $1 - - - : ").unwrap()
    );

    // value containing a colon must be preserved intact
    assert_eq!(
        Event::SubscriptionChanged {
            name: "tmux_status_left".to_owned(),
            session: Some(1),
            window: None,
            window_index: None,
            pane: None,
            value: "12:34:56".to_owned(),
        },
        parse_line(b"%subscription-changed tmux_status_left $1 - - - : 12:34:56").unwrap()
    );
}

#[test]
fn test_parse_layout_tree_checksum_optional() {
    // Parsing with and without the leading checksum yields the same tree.
    let with = parse_layout_tree("b25d,80x24,0,0,0").unwrap();
    let without = parse_layout_tree("80x24,0,0,0").unwrap();
    assert_eq!(with, without);
}

#[test]
fn test_parse_layout_tree_horizontal() {
    // Real capture of `split-window -h`.
    let node = parse_layout_tree("80x24,0,0{40x24,0,0,0,39x24,41,0,1}").unwrap();
    let (dir, children, cell) = split(&node);
    assert_eq!(dir, TmuxSplitDirection::Horizontal);
    assert_eq!(cell.width, 80);
    assert_eq!(children.len(), 2);
    assert_eq!(leaf(&children[0]).0, 0);
    assert_eq!(leaf(&children[1]).0, 1);
    assert_eq!(node.pane_ids(), vec![0, 1]);
}

#[test]
fn test_parse_layout_tree_deeply_nested() {
    // Real capture: H{ pane0, V[ pane1, H{ pane2, pane3 } ] }.
    let node = parse_layout_tree(
        "1558,80x24,0,0{40x24,0,0,0,39x24,41,0[39x12,41,0,1,39x11,41,13{19x11,41,13,2,19x11,61,13,3}]}",
    )
    .unwrap();
    let (dir, children, _) = split(&node);
    assert_eq!(dir, TmuxSplitDirection::Horizontal);
    assert_eq!(children.len(), 2);
    assert_eq!(leaf(&children[0]), (
        0,
        TmuxLayoutCell { width: 40, height: 24, left: 0, top: 0 }
    ));

    let (dir1, children1, cell1) = split(&children[1]);
    assert_eq!(dir1, TmuxSplitDirection::Vertical);
    assert_eq!(cell1, TmuxLayoutCell { width: 39, height: 24, left: 41, top: 0 });
    assert_eq!(children1.len(), 2);
    assert_eq!(leaf(&children1[0]).0, 1);

    let (dir2, children2, _) = split(&children1[1]);
    assert_eq!(dir2, TmuxSplitDirection::Horizontal);
    assert_eq!(children2.len(), 2);
    assert_eq!(leaf(&children2[0]).0, 2);
    assert_eq!(leaf(&children2[1]).0, 3);

    // Faithful in-order pane enumeration.
    assert_eq!(node.pane_ids(), vec![0, 1, 2, 3]);
}

#[test]
fn test_parse_layout_tree_many_children() {
    // Real capture of `select-layout even-horizontal`: ONE split, FOUR children.
    let node =
        parse_layout_tree("764c,80x24,0,0{19x24,0,0,0,19x24,20,0,1,19x24,40,0,2,20x24,60,0,3}")
            .unwrap();
    let (dir, children, cell) = split(&node);
    assert_eq!(dir, TmuxSplitDirection::Horizontal);
    assert_eq!(children.len(), 4);
    assert_eq!(node.pane_ids(), vec![0, 1, 2, 3]);

    // Divider arithmetic invariant: sum of child widths + (n-1) dividers
    // equals the container width.
    let total: u64 = children.iter().map(|c| c.cell().width).sum();
    assert_eq!(total + (children.len() as u64 - 1), cell.width);
    // And the lefts step over each child plus a 1-cell divider.
    let mut x = cell.left;
    for c in children {
        assert_eq!(c.cell().left, x);
        x += c.cell().width + 1;
    }
}

#[test]
fn test_parse_layout_tree_rejects_trailing_garbage() {
    assert!(parse_layout_tree("80x24,0,0,0,garbage").is_err());
}
