use std::collections::HashMap;

use tmux_control::tab::{PaneEntry, PaneId, PaneNode, SplitDirection};
use tmux_control::tmux_cc::{parse_layout_tree, TmuxLayoutNode, TmuxPaneId};
use tmux_control::tmux_layout::{build_pane_node, layout_fits, CellPixels, LayoutContext};

fn ctx(map: &HashMap<TmuxPaneId, PaneId>) -> LayoutContext<'_> {
    LayoutContext {
        window_id: 0,
        tab_id: 0,
        workspace: "default".to_string(),
        dpi: 96,
        cell_pixel_width: 1,
        cell_pixel_height: 1,
        active_pane: None,
        zoomed_pane: None,
        local_pane_ids: map,
    }
}

type Rects = HashMap<PaneId, (usize, usize, usize, usize)>;

fn walk_node(node: &PaneNode, left: usize, top: usize, out: &mut Rects) {
    match node {
        PaneNode::Empty => {}
        PaneNode::Leaf(entry) => {
            out.insert(entry.pane_id, (left, top, entry.size.cols, entry.size.rows));
        }
        PaneNode::Split { left: l, right: r, node } => {
            walk_node(l, left, top, out);
            let (rl, rt) = match node.direction {
                SplitDirection::Horizontal => (left + node.first.cols + 1, top),
                SplitDirection::Vertical => (left, top + node.first.rows + 1),
            };
            walk_node(r, rl, rt, out);
        }
    }
}

/// Walk the produced `PaneNode` using the exact positioning math that
/// a tab uses (divider = 1 cell) and return every leaf's rectangle.
fn rendered_rects(node: &PaneNode) -> Rects {
    let mut out = HashMap::new();
    walk_node(node, 0, 0, &mut out);
    out
}

fn walk_layout(node: &TmuxLayoutNode, out: &mut Rects) {
    match node {
        TmuxLayoutNode::Leaf { cell, pane_id } => {
            out.insert(
                *pane_id as PaneId,
                (
                    cell.left as usize,
                    cell.top as usize,
                    cell.width as usize,
                    cell.height as usize,
                ),
            );
        }
        TmuxLayoutNode::Split { children, .. } => {
            for c in children {
                walk_layout(c, out);
            }
        }
    }
}

/// The rectangles tmux itself describes for each pane.
fn tmux_rects(node: &TmuxLayoutNode) -> Rects {
    let mut out = HashMap::new();
    walk_layout(node, &mut out);
    out
}

/// Identity tmux-id -> local-id mapping for the pane ids in `layout`.
fn identity_map(layout: &TmuxLayoutNode) -> HashMap<TmuxPaneId, PaneId> {
    layout
        .pane_ids()
        .into_iter()
        .map(|id| (id, id as PaneId))
        .collect()
}

fn assert_faithful(layout_str: &str) {
    let layout = parse_layout_tree(layout_str).unwrap();
    let map = identity_map(&layout);
    assert!(layout_fits(&layout, CellPixels { width: 1, height: 1 }));
    let node = build_pane_node(&layout, &ctx(&map));
    assert_eq!(
        rendered_rects(&node),
        tmux_rects(&layout),
        "rendered rectangles must match tmux for {layout_str}"
    );
}

#[test]
fn faithful_single() {
    assert_faithful("80x24,0,0,0");
}

#[test]
fn faithful_horizontal() {
    assert_faithful("80x24,0,0{40x24,0,0,0,39x24,41,0,1}");
}

#[test]
fn faithful_vertical() {
    assert_faithful("80x24,0,0[80x12,0,0,1,80x11,0,13,2]");
}

#[test]
fn faithful_deeply_nested() {
    assert_faithful(
        "1558,80x24,0,0{40x24,0,0,0,39x24,41,0[39x12,41,0,1,39x11,41,13{19x11,41,13,2,19x11,61,13,3}]}",
    );
}

#[test]
fn faithful_four_children() {
    // even-horizontal: one split, four children -> right-leaning chain.
    assert_faithful("764c,80x24,0,0{19x24,0,0,0,19x24,20,0,1,19x24,40,0,2,20x24,60,0,3}");
}

#[test]
fn faithful_tiled() {
    assert_faithful(
        "30d6,80x24,0,0[80x11,0,0{39x11,0,0,0,40x11,40,0,1},80x12,0,12{39x12,0,12,2,40x12,40,12,3}]",
    );
}

#[test]
fn structure_is_right_leaning_binary_chain() {
    // Four children must become three nested binary splits, not a flat node.
    let layout =
        parse_layout_tree("80x24,0,0{19x24,0,0,0,19x24,20,0,1,19x24,40,0,2,20x24,60,0,3}")
            .unwrap();
    let map = identity_map(&layout);
    let node = build_pane_node(&layout, &ctx(&map));
    // depth of right spine == number of children - 1
    let mut depth = 0;
    let mut cur = &node;
    while let PaneNode::Split { right, .. } = cur {
        depth += 1;
        cur = right;
    }
    assert_eq!(depth, 3);
    assert!(matches!(cur, PaneNode::Leaf(_)));
}

fn find(node: &PaneNode, pane_id: PaneId) -> Option<&PaneEntry> {
    match node {
        PaneNode::Leaf(e) if e.pane_id == pane_id => Some(e),
        PaneNode::Split { left, right, .. } => {
            find(left, pane_id).or_else(|| find(right, pane_id))
        }
        _ => None,
    }
}

#[test]
fn active_and_zoom_flags_propagate() {
    let layout = parse_layout_tree("80x24,0,0{40x24,0,0,0,39x24,41,0,1}").unwrap();
    let map = identity_map(&layout);
    let mut c = ctx(&map);
    c.active_pane = Some(1);
    c.zoomed_pane = Some(1);
    let node = build_pane_node(&layout, &c);

    assert!(find(&node, 0).unwrap().is_active_pane == false);
    assert!(find(&node, 1).unwrap().is_active_pane);
    assert!(find(&node, 1).unwrap().is_zoomed_pane);
}

#[test]
fn sizes_are_given_in_pixels_too() {
    let layout = parse_layout_tree("80x24,0,0{40x24,0,0,7,39x24,41,0,9}").unwrap();
    let map: HashMap<TmuxPaneId, PaneId> = [(7, 70), (9, 90)].into_iter().collect();
    let mut c = ctx(&map);
    c.cell_pixel_width = 8;
    c.cell_pixel_height = 16;
    let node = build_pane_node(&layout, &c);
    let first = find(&node, 70).unwrap();
    assert_eq!((first.size.cols, first.size.rows), (40, 24));
    assert_eq!((first.size.pixel_width, first.size.pixel_height), (320, 384));
    assert_eq!(first.size.dpi, 96);
    assert_eq!(first.workspace, "default");
    match &node {
        PaneNode::Split { node, .. } => {
            assert_eq!((node.first.cols, node.second.cols), (40, 39));
            assert_eq!((node.first.rows, node.second.rows), (24, 24));
        }
        other => panic!("expected split, got {:?}", other),
    }
}

#[test]
fn an_unmapped_pane_keeps_its_tmux_id() {
    let layout = parse_layout_tree("80x24,0,0,5").unwrap();
    let map = HashMap::new();
    let node = build_pane_node(&layout, &ctx(&map));
    assert!(find(&node, 5).is_some());
}

#[test]
fn second_halves_add_up() {
    // the tail of {19,19,19,20} is 60, then 40, then 20 cells wide
    let layout =
        parse_layout_tree("80x24,0,0{19x24,0,0,0,19x24,20,0,1,19x24,40,0,2,20x24,60,0,3}")
            .unwrap();
    let map = identity_map(&layout);
    let node = build_pane_node(&layout, &ctx(&map));
    let mut widths = vec![];
    let mut cur = &node;
    while let PaneNode::Split { right, node, .. } = cur {
        widths.push(node.second.cols);
        cur = right;
    }
    assert_eq!(widths, vec![60, 40, 20]);
}

#[test]
fn sizes_that_cannot_be_held_are_noticed() {
    let pixels = CellPixels { width: 2, height: 2 };
    let wide = parse_layout_tree(&format!("{}x1,0,0,0", u64::MAX)).unwrap();
    assert!(!layout_fits(&wide, pixels));
    assert!(layout_fits(&wide, CellPixels { width: 1, height: 1 }));
    let far = parse_layout_tree(&format!("1x1,0,0{{1x1,{},0,0,1x1,0,0,1}}", u64::MAX)).unwrap();
    assert!(!layout_fits(&far, pixels));
}
