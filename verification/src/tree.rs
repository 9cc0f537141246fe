//! The pane tree: a binary tree of terminal panes inside one tab.
//!
//! A tree is either a single `Leaf` owning one terminal session (named by
//! an opaque pane id), or a `Split` dividing its space between exactly two
//! children along an orientation.  A leaf is addressed by its path from
//! the root, the sequence of sides taken at each split.  The tree owns the
//! split, close (one-level collapse) and directional-navigation
//! algorithms; the hosting shell mirrors the resulting shape in widgets.

use vstd::prelude::*;

use crate::text::lemma_skip_one;

verus! {

/// The axis along which a split divides its space.
#[derive(Clone, Copy, Debug, PartialEq, Eq, Structural)]
pub enum Orientation {
    Horizontal,
    Vertical,
}

/// One step of a path: which child of a split to descend into.
/// `Start` is the left/top side, `End` the right/bottom side.
#[derive(Clone, Copy, Debug, PartialEq, Eq, Structural)]
pub enum Side {
    Start,
    End,
}

/// A direction of focus movement.
#[derive(Clone, Copy, Debug, PartialEq, Eq, Structural)]
pub enum Direction {
    Left,
    Right,
    Up,
    Down,
}

/// The layout of one tab: a leaf pane, or a split with two children.
/// `ratio_percent` is the share of space given to the `start` child.
#[derive(Debug, PartialEq, Eq)]
pub enum PaneTree {
    Leaf { pane: u64 },
    Split {
        orientation: Orientation,
        ratio_percent: u8,
        start: Box<PaneTree>,
        end: Box<PaneTree>,
    },
}

/// The default split ratio: space divided evenly.
pub const EVEN_RATIO: u8 = 50;

/// The axis a direction moves along: left/right need a horizontal split,
/// up/down a vertical one.
pub open spec fn axis_of(dir: Direction) -> Orientation {
    match dir {
        Direction::Left | Direction::Right => Orientation::Horizontal,
        Direction::Up | Direction::Down => Orientation::Vertical,
    }
}

/// The side a direction departs from: moving right or down leaves the
/// `start` child, moving left or up leaves the `end` child.
pub open spec fn departure_side(dir: Direction) -> Side {
    match dir {
        Direction::Right | Direction::Down => Side::Start,
        Direction::Left | Direction::Up => Side::End,
    }
}

/// The other side of a split.
pub open spec fn opposite(side: Side) -> Side {
    match side {
        Side::Start => Side::End,
        Side::End => Side::Start,
    }
}

impl PaneTree {
    /// The number of leaves (live panes) in the tree.
    pub open spec fn leaf_count(self) -> nat
        decreases self,
    {
        match self {
            PaneTree::Leaf { .. } => 1,
            PaneTree::Split { start, end, .. } => start.leaf_count() + end.leaf_count(),
        }
    }

    /// The pane ids of all leaves, in pre-order (`start` side first).
    pub open spec fn leaf_panes(self) -> Seq<u64>
        decreases self,
    {
        match self {
            PaneTree::Leaf { pane } => seq![pane],
            PaneTree::Split { start, end, .. } => start.leaf_panes() + end.leaf_panes(),
        }
    }

    /// Does `path` address a leaf of this tree?
    pub open spec fn is_leaf_at(self, path: Seq<Side>) -> bool
        decreases self,
    {
        match self {
            PaneTree::Leaf { .. } => path.len() == 0,
            PaneTree::Split { start, end, .. } => path.len() > 0 && (if path[0] == Side::Start {
                start.is_leaf_at(path.drop_first())
            } else {
                end.is_leaf_at(path.drop_first())
            }),
        }
    }

    /// Does `path` address a node (leaf or split) of this tree?
    pub open spec fn is_node_at(self, path: Seq<Side>) -> bool
        decreases self,
    {
        path.len() == 0 || (match self {
            PaneTree::Leaf { .. } => false,
            PaneTree::Split { start, end, .. } => if path[0] == Side::Start {
                start.is_node_at(path.drop_first())
            } else {
                end.is_node_at(path.drop_first())
            },
        })
    }

    /// The subtree rooted at `path` (meaningful when `is_node_at(path)`).
    pub open spec fn subtree_at(self, path: Seq<Side>) -> PaneTree
        decreases self,
    {
        if path.len() == 0 {
            self
        } else {
            match self {
                PaneTree::Leaf { .. } => self,
                PaneTree::Split { start, end, .. } => if path[0] == Side::Start {
                    start.subtree_at(path.drop_first())
                } else {
                    end.subtree_at(path.drop_first())
                },
            }
        }
    }

    /// The pane id of the leaf at `path` (meaningful when `is_leaf_at(path)`).
    pub open spec fn pane_at(self, path: Seq<Side>) -> u64 {
        match self.subtree_at(path) {
            PaneTree::Leaf { pane } => pane,
            PaneTree::Split { .. } => 0,
        }
    }

    /// The result of splitting the leaf at `path`: that leaf is replaced by
    /// a split whose `start` child is the old leaf and whose `end` child is
    /// a fresh leaf holding `pane`, with an even ratio.
    pub open spec fn spec_split(self, path: Seq<Side>, o: Orientation, pane: u64) -> PaneTree
        decreases self,
    {
        if path.len() == 0 {
            PaneTree::Split {
                orientation: o,
                ratio_percent: EVEN_RATIO,
                start: Box::new(self),
                end: Box::new(PaneTree::Leaf { pane }),
            }
        } else {
            match self {
                PaneTree::Leaf { .. } => self,
                PaneTree::Split { orientation, ratio_percent, start, end } => {
                    if path[0] == Side::Start {
                        PaneTree::Split {
                            orientation,
                            ratio_percent,
                            start: Box::new(start.spec_split(path.drop_first(), o, pane)),
                            end,
                        }
                    } else {
                        PaneTree::Split {
                            orientation,
                            ratio_percent,
                            start,
                            end: Box::new(end.spec_split(path.drop_first(), o, pane)),
                        }
                    }
                },
            }
        }
    }

    /// The result of closing the leaf at `path`: its parent split is
    /// discarded and the sibling subtree promoted into the parent's place
    /// (one collapse level).  Closing the root leaf yields `None`: the
    /// caller must tear the tab down.
    pub open spec fn spec_close(self, path: Seq<Side>) -> Option<PaneTree>
        decreases self,
    {
        if path.len() == 0 {
            None
        } else {
            match self {
                PaneTree::Leaf { .. } => None,
                PaneTree::Split { orientation, ratio_percent, start, end } => {
                    if path.len() == 1 {
                        if path[0] == Side::Start {
                            Some(*end)
                        } else {
                            Some(*start)
                        }
                    } else if path[0] == Side::Start {
                        match start.spec_close(path.drop_first()) {
                            Some(st) => Some(PaneTree::Split {
                                orientation,
                                ratio_percent,
                                start: Box::new(st),
                                end,
                            }),
                            None => None,
                        }
                    } else {
                        match end.spec_close(path.drop_first()) {
                            Some(en) => Some(PaneTree::Split {
                                orientation,
                                ratio_percent,
                                start,
                                end: Box::new(en),
                            }),
                            None => None,
                        }
                    }
                },
            }
        }
    }

    /// The path of the first leaf: descend into `start` at every split.
    pub open spec fn first_leaf_path(self) -> Seq<Side>
        decreases self,
    {
        match self {
            PaneTree::Leaf { .. } => Seq::empty(),
            PaneTree::Split { start, .. } => seq![Side::Start] + start.first_leaf_path(),
        }
    }

    /// Where focus moves from the leaf at `path` in direction `dir`:
    /// walking up from the leaf, at the first ancestor split whose
    /// orientation matches the direction's axis and through whose
    /// departure side the leaf descends, the result is the first leaf of
    /// the opposite child.  `None` if no such ancestor exists.
    pub open spec fn spec_navigate(self, path: Seq<Side>, dir: Direction) -> Option<Seq<Side>>
        decreases self,
    {
        match self {
            PaneTree::Leaf { .. } => None,
            PaneTree::Split { orientation, start, end, .. } => {
                if path.len() == 0 {
                    None
                } else {
                    let side = path[0];
                    let child = if side == Side::Start {
                        *start
                    } else {
                        *end
                    };
                    let deeper = child.spec_navigate(path.drop_first(), dir);
                    if deeper is Some {
                        Some(seq![side] + deeper.unwrap())
                    } else if orientation == axis_of(dir) && side == departure_side(dir) {
                        let target = if side == Side::Start {
                            *end
                        } else {
                            *start
                        };
                        Some(seq![opposite(side)] + target.first_leaf_path())
                    } else {
                        None
                    }
                }
            },
        }
    }
    /// Split the leaf at `path`: it becomes the `start` child of a new
    /// split, with a fresh leaf holding `pane` as the `end` child.
    pub fn split(self, path: &Vec<Side>, orientation: Orientation, pane: u64) -> (r: PaneTree)
        requires
            self.is_leaf_at(path@),
        ensures
            r == self.spec_split(path@, orientation, pane),
    {
        proof {
            assert(path@.skip(0) =~= path@);
        }
        self.split_from(path, 0, orientation, pane)
    }

    fn split_from(self, path: &Vec<Side>, i: usize, o: Orientation, pane: u64) -> (r: PaneTree)
        requires
            i <= path@.len(),
            self.is_leaf_at(path@.skip(i as int)),
        ensures
            r == self.spec_split(path@.skip(i as int), o, pane),
        decreases path@.len() - i,
    {
        if i == path.len() {
            proof {
                assert(path@.skip(i as int) =~= Seq::<Side>::empty());
            }
            PaneTree::Split {
                orientation: o,
                ratio_percent: EVEN_RATIO,
                start: Box::new(self),
                end: Box::new(PaneTree::Leaf { pane }),
            }
        } else {
            proof {
                lemma_skip_one(path@, i as int);
            }
            match self {
                PaneTree::Split { orientation, ratio_percent, start, end } => {
                    if path[i] == Side::Start {
                        PaneTree::Split {
                            orientation,
                            ratio_percent,
                            start: Box::new((*start).split_from(path, i + 1, o, pane)),
                            end,
                        }
                    } else {
                        PaneTree::Split {
                            orientation,
                            ratio_percent,
                            start,
                            end: Box::new((*end).split_from(path, i + 1, o, pane)),
                        }
                    }
                },
                leaf => {
                    proof {
                        assert(false);
                    }
                    leaf
                },
            }
        }
    }

    /// Close the leaf at `path`, promoting its sibling into the parent's
    /// place.  Returns `None` when `path` is the root: the tree would
    /// become empty, and the caller must tear the tab down instead.
    pub fn close(self, path: &Vec<Side>) -> (r: Option<PaneTree>)
        requires
            self.is_leaf_at(path@),
        ensures
            r == self.spec_close(path@),
    {
        proof {
            assert(path@.skip(0) =~= path@);
        }
        self.close_from(path, 0)
    }

    fn close_from(self, path: &Vec<Side>, i: usize) -> (r: Option<PaneTree>)
        requires
            i <= path@.len(),
            self.is_leaf_at(path@.skip(i as int)),
        ensures
            r == self.spec_close(path@.skip(i as int)),
        decreases path@.len() - i,
    {
        if i == path.len() {
            proof {
                assert(path@.skip(i as int) =~= Seq::<Side>::empty());
            }
            None
        } else {
            proof {
                lemma_skip_one(path@, i as int);
            }
            match self {
                PaneTree::Split { orientation, ratio_percent, start, end } => {
                    if i + 1 == path.len() {
                        if path[i] == Side::Start {
                            Some(*end)
                        } else {
                            Some(*start)
                        }
                    } else if path[i] == Side::Start {
                        match (*start).close_from(path, i + 1) {
                            Some(st) => Some(PaneTree::Split {
                                orientation,
                                ratio_percent,
                                start: Box::new(st),
                                end,
                            }),
                            None => None,
                        }
                    } else {
                        match (*end).close_from(path, i + 1) {
                            Some(en) => Some(PaneTree::Split {
                                orientation,
                                ratio_percent,
                                start,
                                end: Box::new(en),
                            }),
                            None => None,
                        }
                    }
                },
                _ => {
                    proof {
                        assert(false);
                    }
                    None
                },
            }
        }
    }

    /// The path of the first leaf: the `start` side at every split.
    pub fn first_leaf(&self) -> (r: Vec<Side>)
        ensures
            r@ == self.first_leaf_path(),
        decreases self,
    {
        match self {
            PaneTree::Leaf { .. } => Vec::new(),
            PaneTree::Split { start, .. } => {
                let mut r = start.first_leaf();
                r.insert(0, Side::Start);
                proof {
                    assert(r@ =~= seq![Side::Start] + start.first_leaf_path());
                }
                r
            },
        }
    }

    /// The pane ids of all leaves, in pre-order.
    pub fn leaves(&self) -> (r: Vec<u64>)
        ensures
            r@ == self.leaf_panes(),
        decreases self,
    {
        match self {
            PaneTree::Leaf { pane } => {
                let mut r = Vec::new();
                r.push(*pane);
                proof {
                    assert(r@ =~= seq![*pane]);
                }
                r
            },
            PaneTree::Split { start, end, .. } => {
                let mut r = start.leaves();
                let mut rest = end.leaves();
                r.append(&mut rest);
                r
            },
        }
    }

    /// Decide whether `path` addresses a leaf of this tree.
    pub fn is_leaf_path(&self, path: &Vec<Side>) -> (r: bool)
        ensures
            r == self.is_leaf_at(path@),
    {
        proof {
            assert(path@.skip(0) =~= path@);
        }
        self.is_leaf_path_from(path, 0)
    }

    fn is_leaf_path_from(&self, path: &Vec<Side>, i: usize) -> (r: bool)
        requires
            i <= path@.len(),
        ensures
            r == self.is_leaf_at(path@.skip(i as int)),
        decreases self,
    {
        match self {
            PaneTree::Leaf { .. } => {
                proof {
                    assert(path@.skip(i as int).len() == path@.len() - i);
                }
                i == path.len()
            },
            PaneTree::Split { start, end, .. } => {
                if i == path.len() {
                    proof {
                        assert(path@.skip(i as int) =~= Seq::<Side>::empty());
                    }
                    false
                } else {
                    proof {
                        lemma_skip_one(path@, i as int);
                    }
                    if path[i] == Side::Start {
                        start.is_leaf_path_from(path, i + 1)
                    } else {
                        end.is_leaf_path_from(path, i + 1)
                    }
                }
            },
        }
    }

    /// The pane id of the leaf at `path`.
    pub fn leaf_pane(&self, path: &Vec<Side>) -> (p: u64)
        requires
            self.is_leaf_at(path@),
        ensures
            p == self.pane_at(path@),
    {
        proof {
            assert(path@.skip(0) =~= path@);
        }
        self.leaf_pane_from(path, 0)
    }

    fn leaf_pane_from(&self, path: &Vec<Side>, i: usize) -> (p: u64)
        requires
            i <= path@.len(),
            self.is_leaf_at(path@.skip(i as int)),
        ensures
            p == self.pane_at(path@.skip(i as int)),
        decreases path@.len() - i,
    {
        match self {
            PaneTree::Leaf { pane } => *pane,
            PaneTree::Split { start, end, .. } => {
                proof {
                    assert(path@.skip(i as int).len() == path@.len() - i);
                    assert(i < path@.len());
                    assert(path.len() == path@.len());
                    lemma_skip_one(path@, i as int);
                }
                if path[i] == Side::Start {
                    start.leaf_pane_from(path, i + 1)
                } else {
                    end.leaf_pane_from(path, i + 1)
                }
            },
        }
    }

    /// Find the leaf focus moves to from the leaf at `path` in direction
    /// `dir`, or `None` when no ancestor split runs along that axis on the
    /// required side.
    pub fn navigate(&self, path: &Vec<Side>, dir: Direction) -> (r: Option<Vec<Side>>)
        ensures
            (r is Some) == (self.spec_navigate(path@, dir) is Some),
            r is Some ==> r.unwrap()@ == self.spec_navigate(path@, dir).unwrap(),
    {
        proof {
            assert(path@.skip(0) =~= path@);
        }
        self.navigate_from(path, 0, dir)
    }

    fn navigate_from(&self, path: &Vec<Side>, i: usize, dir: Direction) -> (r: Option<Vec<Side>>)
        requires
            i <= path@.len(),
        ensures
            (r is Some) == (self.spec_navigate(path@.skip(i as int), dir) is Some),
            r is Some ==> r.unwrap()@ == self.spec_navigate(path@.skip(i as int), dir).unwrap(),
        decreases self,
    {
        match self {
            PaneTree::Leaf { .. } => None,
            PaneTree::Split { orientation, start, end, .. } => {
                if i == path.len() {
                    proof {
                        assert(path@.skip(i as int) =~= Seq::<Side>::empty());
                    }
                    None
                } else {
                    proof {
                        lemma_skip_one(path@, i as int);
                    }
                    let side = path[i];
                    let child: &PaneTree = if side == Side::Start {
                        start
                    } else {
                        end
                    };
                    let deeper = child.navigate_from(path, i + 1, dir);
                    match deeper {
                        Some(mut v) => {
                            v.insert(0, side);
                            proof {
                                assert(v@ =~= seq![side] + child.spec_navigate(
                                    path@.skip(i as int).drop_first(),
                                    dir,
                                ).unwrap());
                            }
                            Some(v)
                        },
                        None => {
                            if *orientation == axis_of_dir(dir) && side == departure_of_dir(dir) {
                                let target: &PaneTree = if side == Side::Start {
                                    end
                                } else {
                                    start
                                };
                                let mut v = target.first_leaf();
                                let away = opposite_side(side);
                                v.insert(0, away);
                                proof {
                                    assert(v@ =~= seq![opposite(side)] + target.first_leaf_path());
                                }
                                Some(v)
                            } else {
                                None
                            }
                        },
                    }
                }
            },
        }
    }
}

/// The axis a direction moves along.
pub fn axis_of_dir(dir: Direction) -> (o: Orientation)
    ensures
        o == axis_of(dir),
{
    match dir {
        Direction::Left | Direction::Right => Orientation::Horizontal,
        Direction::Up | Direction::Down => Orientation::Vertical,
    }
}

/// The side a direction departs from.
pub fn departure_of_dir(dir: Direction) -> (s: Side)
    ensures
        s == departure_side(dir),
{
    match dir {
        Direction::Right | Direction::Down => Side::Start,
        Direction::Left | Direction::Up => Side::End,
    }
}

/// The other side of a split.
pub fn opposite_side(side: Side) -> (s: Side)
    ensures
        s == opposite(side),
{
    match side {
        Side::Start => Side::End,
        Side::End => Side::Start,
    }
}

impl PaneTree {
    /// Does some leaf of the tree hold this pane?
    pub open spec fn contains_pane(self, pane: u64) -> bool {
        self.leaf_panes().contains(pane)
    }

    /// The path of the first leaf holding `pane`, in pre-order.
    pub open spec fn find_pane(self, pane: u64) -> Option<Seq<Side>>
        decreases self,
    {
        match self {
            PaneTree::Leaf { pane: p } => if p == pane {
                Some(Seq::<Side>::empty())
            } else {
                None
            },
            PaneTree::Split { start, end, .. } => match start.find_pane(pane) {
                Some(q) => Some(seq![Side::Start] + q),
                None => match end.find_pane(pane) {
                    Some(q) => Some(seq![Side::End] + q),
                    None => None,
                },
            },
        }
    }

    /// Find the first leaf holding `pane`.
    pub fn find_pane_path(&self, pane: u64) -> (r: Option<Vec<Side>>)
        ensures
            (r is Some) == (self.find_pane(pane) is Some),
            r is Some ==> r.unwrap()@ == self.find_pane(pane).unwrap(),
        decreases self,
    {
        match self {
            PaneTree::Leaf { pane: p } => {
                if *p == pane {
                    Some(Vec::new())
                } else {
                    None
                }
            },
            PaneTree::Split { start, end, .. } => {
                match start.find_pane_path(pane) {
                    Some(mut q) => {
                        q.insert(0, Side::Start);
                        proof {
                            assert(q@ =~= seq![Side::Start] + start.find_pane(pane).unwrap());
                        }
                        Some(q)
                    },
                    None => match end.find_pane_path(pane) {
                        Some(mut q) => {
                            q.insert(0, Side::End);
                            proof {
                                assert(q@ =~= seq![Side::End] + end.find_pane(pane).unwrap());
                            }
                            Some(q)
                        },
                        None => None,
                    },
                }
            },
        }
    }
}

/// A found pane's path addresses a leaf, and that leaf holds the pane.
pub proof fn lemma_find_pane_valid(t: PaneTree, pane: u64)
    ensures
        t.find_pane(pane) matches Some(q) ==> t.is_leaf_at(q) && t.pane_at(q) == pane,
    decreases t,
{
    match t {
        PaneTree::Leaf { pane: p } => {
            if p == pane {
                assert(t.subtree_at(Seq::<Side>::empty()) == t);
            }
        },
        PaneTree::Split { start, end, .. } => {
            lemma_find_pane_valid(*start, pane);
            lemma_find_pane_valid(*end, pane);
            if start.find_pane(pane) is Some {
                let q = start.find_pane(pane).unwrap();
                assert((seq![Side::Start] + q).drop_first() =~= q);
            } else if end.find_pane(pane) is Some {
                let q = end.find_pane(pane).unwrap();
                assert((seq![Side::End] + q).drop_first() =~= q);
            }
        },
    }
}

/// A pane is found exactly when some leaf holds it.
pub proof fn lemma_find_pane_contains(t: PaneTree, pane: u64)
    ensures
        (t.find_pane(pane) is Some) == t.contains_pane(pane),
    decreases t,
{
    match t {
        PaneTree::Leaf { pane: p } => {
            assert(t.leaf_panes() =~= seq![p]);
            if p == pane {
                assert(t.leaf_panes()[0] == pane);
            }
        },
        PaneTree::Split { start, end, .. } => {
            let a = start.leaf_panes();
            let b = end.leaf_panes();
            lemma_find_pane_contains(*start, pane);
            lemma_find_pane_contains(*end, pane);
            if a.contains(pane) {
                let i = choose|i: int| 0 <= i < a.len() && a[i] == pane;
                assert((a + b)[i] == pane);
            } else if b.contains(pane) {
                let i = choose|i: int| 0 <= i < b.len() && b[i] == pane;
                assert((a + b)[a.len() + i] == pane);
            }
            if t.contains_pane(pane) {
                let i = choose|i: int| 0 <= i < (a + b).len() && (a + b)[i] == pane;
                if i < a.len() {
                    assert(a[i] == pane);
                } else {
                    assert(b[i - a.len()] == pane);
                }
            }
        },
    }
}

/// The direction that undoes a move: left for right, up for down.
pub open spec fn opposite_dir(dir: Direction) -> Direction {
    match dir {
        Direction::Left => Direction::Right,
        Direction::Right => Direction::Left,
        Direction::Up => Direction::Down,
        Direction::Down => Direction::Up,
    }
}

impl PaneTree {
    /// Are all pane ids in the tree strictly below `bound`?  Keeping every
    /// pane below the allocation counter makes freshly counted ids unique.
    pub open spec fn panes_below(self, bound: u64) -> bool
        decreases self,
    {
        match self {
            PaneTree::Leaf { pane } => pane < bound,
            PaneTree::Split { start, end, .. } => start.panes_below(bound) && end.panes_below(
                bound,
            ),
        }
    }

    /// No split on the chain of `start` children runs along `axis`.
    pub open spec fn start_spine_axis_free(self, axis: Orientation) -> bool
        decreases self,
    {
        match self {
            PaneTree::Leaf { .. } => true,
            PaneTree::Split { orientation, start, .. } => orientation != axis
                && start.start_spine_axis_free(axis),
        }
    }
}

/// Every tree holds at least one live pane, and by construction every
/// split has exactly two children; since `split` and `close` yield trees
/// again (`close` yields `None` rather than an empty tree), any sequence
/// of them starting from a single leaf preserves both.
pub proof fn lemma_tree_nonempty(t: PaneTree)
    ensures
        t.leaf_count() >= 1,
    decreases t,
{
    match t {
        PaneTree::Leaf { .. } => {},
        PaneTree::Split { start, end, .. } => {
            lemma_tree_nonempty(*start);
            lemma_tree_nonempty(*end);
        },
    }
}

/// Splitting a leaf adds exactly one pane.
pub proof fn lemma_split_leaf_count(t: PaneTree, path: Seq<Side>, o: Orientation, pane: u64)
    requires
        t.is_leaf_at(path),
    ensures
        t.spec_split(path, o, pane).leaf_count() == t.leaf_count() + 1,
    decreases t,
{
    if path.len() == 0 {
        assert(PaneTree::Leaf { pane }.leaf_count() == 1);
    } else {
        match t {
            PaneTree::Leaf { .. } => {},
            PaneTree::Split { start, end, .. } => {
                if path[0] == Side::Start {
                    lemma_split_leaf_count(*start, path.drop_first(), o, pane);
                } else {
                    lemma_split_leaf_count(*end, path.drop_first(), o, pane);
                }
            },
        }
    }
}

/// Closing a non-root leaf succeeds and removes exactly one pane.
pub proof fn lemma_close_leaf_count(t: PaneTree, path: Seq<Side>)
    requires
        t.is_leaf_at(path),
        path.len() > 0,
    ensures
        t.spec_close(path) is Some,
        t.spec_close(path).unwrap().leaf_count() == t.leaf_count() - 1,
    decreases t,
{
    match t {
        PaneTree::Leaf { .. } => {},
        PaneTree::Split { start, end, .. } => {
            if path.len() == 1 {
                let rest = path.drop_first();
                assert(rest.len() == 0);
                if path[0] == Side::Start {
                    assert(start.is_leaf_at(rest));
                    assert(start.leaf_count() == 1);
                } else {
                    assert(end.is_leaf_at(rest));
                    assert(end.leaf_count() == 1);
                }
            } else {
                if path[0] == Side::Start {
                    lemma_close_leaf_count(*start, path.drop_first());
                } else {
                    lemma_close_leaf_count(*end, path.drop_first());
                }
            }
        },
    }
}

/// Closing the leaf that a split just created restores the original tree
/// exactly: `close` is a structural inverse of `split`.
pub proof fn lemma_close_undoes_split(t: PaneTree, path: Seq<Side>, o: Orientation, pane: u64)
    requires
        t.is_leaf_at(path),
    ensures
        t.spec_split(path, o, pane).spec_close(path.push(Side::End)) == Some(t),
    decreases t,
{
    if path.len() == 0 {
        assert(path.push(Side::End) =~= seq![Side::End]);
    } else {
        match t {
            PaneTree::Leaf { .. } => {},
            PaneTree::Split { start, end, .. } => {
                assert(path.push(Side::End).drop_first() =~= path.drop_first().push(Side::End));
                if path[0] == Side::Start {
                    lemma_close_undoes_split(*start, path.drop_first(), o, pane);
                } else {
                    lemma_close_undoes_split(*end, path.drop_first(), o, pane);
                }
            },
        }
    }
}

/// After a split, the fresh leaf sits at the old path extended by `End`,
/// and it holds the new pane.
pub proof fn lemma_split_new_leaf(t: PaneTree, path: Seq<Side>, o: Orientation, pane: u64)
    requires
        t.is_leaf_at(path),
    ensures
        t.spec_split(path, o, pane).is_leaf_at(path.push(Side::End)),
        t.spec_split(path, o, pane).pane_at(path.push(Side::End)) == pane,
    decreases t,
{
    if path.len() == 0 {
        assert(path.push(Side::End) =~= seq![Side::End]);
        assert(seq![Side::End].drop_first() =~= Seq::<Side>::empty());
        assert(PaneTree::Leaf { pane }.is_leaf_at(Seq::<Side>::empty()));
        assert(PaneTree::Leaf { pane }.subtree_at(Seq::<Side>::empty()) == PaneTree::Leaf {
            pane,
        });
    } else {
        match t {
            PaneTree::Leaf { .. } => {},
            PaneTree::Split { start, end, .. } => {
                assert(path.push(Side::End).drop_first() =~= path.drop_first().push(Side::End));
                if path[0] == Side::Start {
                    lemma_split_new_leaf(*start, path.drop_first(), o, pane);
                } else {
                    lemma_split_new_leaf(*end, path.drop_first(), o, pane);
                }
            },
        }
    }
}

/// Splitting keeps all pane ids below a bound that the new pane respects.
pub proof fn lemma_split_panes_below(
    t: PaneTree,
    path: Seq<Side>,
    o: Orientation,
    pane: u64,
    bound: u64,
)
    requires
        t.is_leaf_at(path),
        t.panes_below(bound),
        pane < bound,
    ensures
        t.spec_split(path, o, pane).panes_below(bound),
    decreases t,
{
    if path.len() == 0 {
        assert(PaneTree::Leaf { pane }.panes_below(bound));
    } else {
        match t {
            PaneTree::Leaf { .. } => {},
            PaneTree::Split { start, end, .. } => {
                if path[0] == Side::Start {
                    lemma_split_panes_below(*start, path.drop_first(), o, pane, bound);
                } else {
                    lemma_split_panes_below(*end, path.drop_first(), o, pane, bound);
                }
            },
        }
    }
}

/// Closing keeps all pane ids below any bound they already respect.
pub proof fn lemma_close_panes_below(t: PaneTree, path: Seq<Side>, bound: u64)
    requires
        t.is_leaf_at(path),
        t.panes_below(bound),
    ensures
        t.spec_close(path) matches Some(u) ==> u.panes_below(bound),
    decreases t,
{
    match t {
        PaneTree::Leaf { .. } => {},
        PaneTree::Split { start, end, .. } => {
            if path.len() > 1 {
                if path[0] == Side::Start {
                    lemma_close_panes_below(*start, path.drop_first(), bound);
                } else {
                    lemma_close_panes_below(*end, path.drop_first(), bound);
                }
            }
        },
    }
}

/// A bound on pane ids is preserved when the bound grows.
pub proof fn lemma_panes_below_mono(t: PaneTree, a: u64, b: u64)
    requires
        t.panes_below(a),
        a <= b,
    ensures
        t.panes_below(b),
    decreases t,
{
    match t {
        PaneTree::Leaf { .. } => {},
        PaneTree::Split { start, end, .. } => {
            lemma_panes_below_mono(*start, a, b);
            lemma_panes_below_mono(*end, a, b);
        },
    }
}

/// The first-leaf path addresses a leaf.
pub proof fn lemma_first_leaf_valid(t: PaneTree)
    ensures
        t.is_leaf_at(t.first_leaf_path()),
    decreases t,
{
    match t {
        PaneTree::Leaf { .. } => {},
        PaneTree::Split { start, .. } => {
            lemma_first_leaf_valid(*start);
            assert((seq![Side::Start] + start.first_leaf_path()).drop_first()
                =~= start.first_leaf_path());
        },
    }
}

/// Whatever navigation returns addresses a leaf of the tree.
pub proof fn lemma_navigate_valid(t: PaneTree, path: Seq<Side>, dir: Direction)
    ensures
        t.spec_navigate(path, dir) matches Some(q) ==> t.is_leaf_at(q),
    decreases t,
{
    match t {
        PaneTree::Leaf { .. } => {},
        PaneTree::Split { orientation, start, end, .. } => {
            if path.len() > 0 {
                let side = path[0];
                let child = if side == Side::Start {
                    *start
                } else {
                    *end
                };
                lemma_navigate_valid(child, path.drop_first(), dir);
                let deeper = child.spec_navigate(path.drop_first(), dir);
                if deeper is Some {
                    assert((seq![side] + deeper.unwrap()).drop_first() =~= deeper.unwrap());
                } else if orientation == axis_of(dir) && side == departure_side(dir) {
                    let target = if side == Side::Start {
                        *end
                    } else {
                        *start
                    };
                    lemma_first_leaf_valid(target);
                    assert((seq![opposite(side)] + target.first_leaf_path()).drop_first()
                        =~= target.first_leaf_path());
                }
            }
        },
    }
}

/// From a tree's own first leaf, a direction that departs the `End` side
/// finds nothing inside the tree: the first-leaf path never takes `End`.
proof fn lemma_first_leaf_navigate_end(t: PaneTree, dir: Direction)
    requires
        departure_side(dir) == Side::End,
    ensures
        t.spec_navigate(t.first_leaf_path(), dir) is None,
    decreases t,
{
    match t {
        PaneTree::Leaf { .. } => {},
        PaneTree::Split { start, .. } => {
            assert((seq![Side::Start] + start.first_leaf_path()).drop_first()
                =~= start.first_leaf_path());
            lemma_first_leaf_navigate_end(*start, dir);
        },
    }
}

/// From a tree's own first leaf, a direction that departs the `Start`
/// side finds nothing inside the tree when no split on the start spine
/// runs along the direction's axis.
proof fn lemma_first_leaf_navigate_spine(t: PaneTree, dir: Direction)
    requires
        departure_side(dir) == Side::Start,
        t.start_spine_axis_free(axis_of(dir)),
    ensures
        t.spec_navigate(t.first_leaf_path(), dir) is None,
    decreases t,
{
    match t {
        PaneTree::Leaf { .. } => {},
        PaneTree::Split { start, .. } => {
            assert((seq![Side::Start] + start.first_leaf_path()).drop_first()
                =~= start.first_leaf_path());
            lemma_first_leaf_navigate_spine(*start, dir);
        },
    }
}

/// Navigation symmetry.  Let a split at `p` run along the axis of a
/// forward direction `dir` (one that departs `Start`: right or down), with
/// children `l` and `r`, and let no split on `l`'s start spine run along
/// that axis — so the leaf `a`, first leaf of `l`, has this split as the
/// nearest ancestor matching the axis.  Then moving from `a` in `dir`
/// lands on `b`, the first leaf of `r`, and moving back from `b` in the
/// opposite direction lands on `a` again.
pub proof fn lemma_navigate_symmetry(
    t: PaneTree,
    p: Seq<Side>,
    dir: Direction,
    ratio: u8,
    l: PaneTree,
    r: PaneTree,
)
    requires
        departure_side(dir) == Side::Start,
        t.is_node_at(p),
        t.subtree_at(p) == (PaneTree::Split {
            orientation: axis_of(dir),
            ratio_percent: ratio,
            start: Box::new(l),
            end: Box::new(r),
        }),
        l.start_spine_axis_free(axis_of(dir)),
    ensures
        t.spec_navigate(p + seq![Side::Start] + l.first_leaf_path(), dir) == Some(
            p + seq![Side::End] + r.first_leaf_path(),
        ),
        t.spec_navigate(p + seq![Side::End] + r.first_leaf_path(), opposite_dir(dir)) == Some(
            p + seq![Side::Start] + l.first_leaf_path(),
        ),
    decreases t,
{
    let a = p + seq![Side::Start] + l.first_leaf_path();
    let b = p + seq![Side::End] + r.first_leaf_path();
    let back = opposite_dir(dir);
    assert(axis_of(back) == axis_of(dir));
    assert(departure_side(back) == Side::End);
    if p.len() == 0 {
        assert(a.drop_first() =~= l.first_leaf_path());
        assert(b.drop_first() =~= r.first_leaf_path());
        lemma_first_leaf_navigate_spine(l, dir);
        lemma_first_leaf_navigate_end(r, back);
        assert(t.spec_navigate(a, dir) == Some(seq![Side::End] + r.first_leaf_path()));
        assert(seq![Side::End] + r.first_leaf_path() =~= b);
        assert(t.spec_navigate(b, back) == Some(seq![Side::Start] + l.first_leaf_path()));
        assert(seq![Side::Start] + l.first_leaf_path() =~= a);
    } else {
        match t {
            PaneTree::Leaf { .. } => {},
            PaneTree::Split { start, end, .. } => {
                let child = if p[0] == Side::Start {
                    *start
                } else {
                    *end
                };
                assert(a[0] == p[0]);
                assert(b[0] == p[0]);
                assert(a.drop_first() =~= p.drop_first() + seq![Side::Start]
                    + l.first_leaf_path());
                assert(b.drop_first() =~= p.drop_first() + seq![Side::End] + r.first_leaf_path());
                lemma_navigate_symmetry(child, p.drop_first(), dir, ratio, l, r);
                assert(seq![p[0]] + (p.drop_first() + seq![Side::End] + r.first_leaf_path())
                    =~= b);
                assert(seq![p[0]] + (p.drop_first() + seq![Side::Start] + l.first_leaf_path())
                    =~= a);
            },
        }
    }
}

} // verus!
