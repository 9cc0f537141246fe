use termilyon::tree::{Orientation, PaneTree, Side};

fn leaf(pane: u64) -> PaneTree {
    PaneTree::Leaf { pane }
}

fn hsplit(start: PaneTree, end: PaneTree) -> PaneTree {
    PaneTree::Split {
        orientation: Orientation::Horizontal,
        ratio_percent: 50,
        start: Box::new(start),
        end: Box::new(end),
    }
}

fn vsplit(start: PaneTree, end: PaneTree) -> PaneTree {
    PaneTree::Split {
        orientation: Orientation::Vertical,
        ratio_percent: 50,
        start: Box::new(start),
        end: Box::new(end),
    }
}

#[test]
fn split_root_leaf() {
    let t = leaf(0).split(&vec![], Orientation::Horizontal, 1);
    assert_eq!(t, hsplit(leaf(0), leaf(1)));
}

#[test]
fn split_nested_leaf() {
    let t = hsplit(leaf(0), leaf(1));
    let t = t.split(&vec![Side::End], Orientation::Vertical, 2);
    assert_eq!(t, hsplit(leaf(0), vsplit(leaf(1), leaf(2))));
}

#[test]
fn close_root_leaf_is_tab_teardown() {
    let t = leaf(7);
    assert_eq!(t.close(&vec![]), None);
}

#[test]
fn close_promotes_sibling_one_level() {
    // Closing leaf 1 promotes the whole sibling subtree, keeping its
    // internal structure, with exactly one collapse level.
    let t = hsplit(vsplit(leaf(0), leaf(2)), leaf(1));
    let t = t.close(&vec![Side::End]).unwrap();
    assert_eq!(t, vsplit(leaf(0), leaf(2)));
}

#[test]
fn close_undoes_split() {
    // The split/close inverse on a concrete tree: closing the leaf a
    // split created restores the original tree exactly.
    let t = hsplit(leaf(0), vsplit(leaf(1), leaf(2)));
    let path = vec![Side::End, Side::Start];
    let split = t.split(&path, Orientation::Vertical, 9);
    let mut new_leaf = path.clone();
    new_leaf.push(Side::End);
    assert_eq!(split.close(&new_leaf), Some(hsplit(leaf(0), vsplit(leaf(1), leaf(2)))));
}

#[test]
fn split_close_sequence_keeps_a_leaf() {
    // A sequence of splits and closes from a single leaf: the tree keeps
    // at least one pane throughout (and a split, by construction, always
    // has exactly two children).
    let t = leaf(0);
    assert_eq!(t.leaves(), vec![0]);
    let t = t.split(&vec![], Orientation::Horizontal, 1);
    assert_eq!(t.leaves(), vec![0, 1]);
    let t = t.split(&vec![Side::Start], Orientation::Vertical, 2);
    assert_eq!(t.leaves(), vec![0, 2, 1]);
    let t = t.close(&vec![Side::Start, Side::Start]).unwrap();
    assert_eq!(t.leaves(), vec![2, 1]);
    let t = t.close(&vec![Side::Start]).unwrap();
    assert_eq!(t.leaves(), vec![1]);
    assert_eq!(t.close(&vec![]), None);
}

#[test]
fn first_leaf_prefers_start() {
    let t = hsplit(vsplit(leaf(3), leaf(4)), leaf(5));
    assert_eq!(t.first_leaf(), vec![Side::Start, Side::Start]);
    assert_eq!(t.leaf_pane(&t.first_leaf()), 3);
}

#[test]
fn navigate_chain_of_three() {
    // Two horizontal splits yielding [A | B | C]: moving right from B
    // reaches C, moving left from C reaches B, moving left from A finds
    // nothing.
    let t = hsplit(leaf(0), hsplit(leaf(1), leaf(2)));
    let a = vec![Side::Start];
    let b = vec![Side::End, Side::Start];
    let c = vec![Side::End, Side::End];
    assert_eq!(t.navigate(&a, termilyon::tree::Direction::Right), Some(b.clone()));
    assert_eq!(t.navigate(&b, termilyon::tree::Direction::Right), Some(c.clone()));
    assert_eq!(t.navigate(&c, termilyon::tree::Direction::Left), Some(b.clone()));
    assert_eq!(t.navigate(&b, termilyon::tree::Direction::Left), Some(a.clone()));
    assert_eq!(t.navigate(&a, termilyon::tree::Direction::Left), None);
    assert_eq!(t.navigate(&a, termilyon::tree::Direction::Up), None);
    assert_eq!(t.navigate(&a, termilyon::tree::Direction::Down), None);
}

#[test]
fn navigate_needs_matching_axis() {
    // Left/right need a horizontal ancestor: in a vertical split they
    // find nothing, up/down do.
    let t = vsplit(leaf(0), leaf(1));
    let top = vec![Side::Start];
    let bottom = vec![Side::End];
    assert_eq!(t.navigate(&top, termilyon::tree::Direction::Right), None);
    assert_eq!(t.navigate(&top, termilyon::tree::Direction::Down), Some(bottom.clone()));
    assert_eq!(t.navigate(&bottom, termilyon::tree::Direction::Up), Some(top.clone()));
}

#[test]
fn navigate_lands_on_first_leaf_of_opposite_side() {
    // Moving right enters the opposite subtree at its first leaf.
    let t = hsplit(leaf(0), vsplit(leaf(1), leaf(2)));
    let got = t.navigate(&vec![Side::Start], termilyon::tree::Direction::Right);
    assert_eq!(got, Some(vec![Side::End, Side::Start]));
}

#[test]
fn navigate_uses_nearest_matching_ancestor() {
    // From the middle leaf, the nearest horizontal ancestor wins, not
    // the root.
    let t = hsplit(hsplit(leaf(0), leaf(1)), leaf(2));
    let middle = vec![Side::Start, Side::End];
    assert_eq!(t.navigate(&middle, termilyon::tree::Direction::Right), Some(vec![Side::End]));
    assert_eq!(
        t.navigate(&middle, termilyon::tree::Direction::Left),
        Some(vec![Side::Start, Side::Start])
    );
}

#[test]
fn find_pane_path_finds_leaves() {
    let t = hsplit(vsplit(leaf(3), leaf(4)), leaf(5));
    assert_eq!(t.find_pane_path(3), Some(vec![Side::Start, Side::Start]));
    assert_eq!(t.find_pane_path(4), Some(vec![Side::Start, Side::End]));
    assert_eq!(t.find_pane_path(5), Some(vec![Side::End]));
    assert_eq!(t.find_pane_path(6), None);
}
