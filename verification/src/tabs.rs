//! The tab set: an ordered collection of pane trees with an active index,
//! stable default titles, and the tab lifecycle.
//!
//! Each tab records the layout tree of its panes, a title, the value of a
//! monotonic creation counter (never reused, so default titles stay
//! stable across closures), and the path of its focused leaf.  The set is
//! never empty: closing the last tab recreates a fresh default tab.

use vstd::prelude::*;
use vstd::string::StrSliceExecFns;
use vstd::string::StringExecFns;

use crate::text::dec_rep;
use crate::text::trim_str;
use crate::text::trimmed;
use crate::text::u64_dec;
use crate::tree::PaneTree;
use crate::tree::Side;
use crate::tree::lemma_panes_below_mono;

verus! {

/// One tab: its pane layout, title, creation stamp, and focused leaf.
pub struct TabEntry {
    pub tree: PaneTree,
    pub title: String,
    pub created_at: u64,
    pub focus: Vec<Side>,
}

impl TabEntry {
    /// A well-formed tab's focus path addresses a leaf of its tree.
    pub open spec fn wf(self) -> bool {
        self.tree.is_leaf_at(self.focus@)
    }
}

/// The ordered tabs of one window, with the active index and the two
/// allocation counters: tab creation stamps and pane ids.
pub struct TabSet {
    pub tabs: Vec<TabEntry>,
    pub active: usize,
    pub next_tab_id: u64,
    pub next_pane: u64,
}

/// The default title of a tab: the template, a space, and the creation
/// counter in decimal.
pub open spec fn tab_title_of(template: Seq<char>, n: nat) -> Seq<char> {
    template + seq![' '] + dec_rep(n)
}

/// Where the active index lands after the tab at `closed` is removed and
/// `len` tabs remain: the tab before the closed one, clamped to the set.
pub open spec fn refocus_index(closed: int, len: int) -> int {
    let t = if closed > 0 {
        closed - 1
    } else {
        0
    };
    if t >= len {
        len - 1
    } else {
        t
    }
}

/// A set holding exactly one fresh default tab, counters started.
pub open spec fn initial_tab_set(s: TabSet, template: Seq<char>) -> bool {
    &&& s.tabs@.len() == 1
    &&& s.active == 0
    &&& s.next_tab_id == 2
    &&& s.next_pane == 1
    &&& s.tabs@[0].tree == (PaneTree::Leaf { pane: 0 })
    &&& s.tabs@[0].title@ == tab_title_of(template, 1)
    &&& s.tabs@[0].created_at == 1
    &&& s.tabs@[0].focus@ == Seq::<Side>::empty()
}

/// How a set changes when the tab at `index` is renamed to `text`: the
/// title becomes the text exactly as given (no length limit), unless the
/// text trimmed of white space is empty or the index is out of range, in
/// which case nothing changes.
pub open spec fn rename_rel(pre: TabSet, post: TabSet, index: int, text: Seq<char>) -> bool {
    &&& (index >= pre.tabs@.len() || trimmed(text).len() == 0 ==> post == pre)
    &&& (index < pre.tabs@.len() && trimmed(text).len() > 0 ==> {
        &&& post.tabs@.len() == pre.tabs@.len()
        &&& (forall|i: int|
            0 <= i < pre.tabs@.len() && i != index ==> #[trigger] post.tabs@[i] == pre.tabs@[i])
        &&& ({
            let e = post.tabs@[index];
            let o = pre.tabs@[index];
            e.title@ == text && e.tree == o.tree && e.created_at == o.created_at && e.focus@
                == o.focus@
        })
        &&& post.active == pre.active
        &&& post.next_tab_id == pre.next_tab_id
        &&& post.next_pane == pre.next_pane
    })
}

/// How a set changes when a fresh default tab is appended and focused.
pub open spec fn new_tab_rel(pre: TabSet, post: TabSet, template: Seq<char>) -> bool {
    &&& post.tabs@.len() == pre.tabs@.len() + 1
    &&& post.tabs@.drop_last() == pre.tabs@
    &&& post.active == pre.tabs@.len()
    &&& post.next_tab_id == pre.next_tab_id + 1
    &&& post.next_pane == pre.next_pane + 1
    &&& ({
        let e = post.tabs@.last();
        e.tree == (PaneTree::Leaf { pane: pre.next_pane }) && e.title@ == tab_title_of(
            template,
            pre.next_tab_id as nat,
        ) && e.created_at == pre.next_tab_id && e.focus@ == Seq::<Side>::empty()
    })
}

/// How a set changes when the tab at `index` is closed: the surviving
/// tabs shift over and the tab before the closed one is focused, or,
/// when the set would become empty, one fresh default tab replaces it.
pub open spec fn close_tab_rel(pre: TabSet, post: TabSet, index: int, template: Seq<char>) -> bool {
    &&& pre.tabs@.len() > 1 ==> {
        &&& post.tabs@ == pre.tabs@.remove(index)
        &&& post.active == refocus_index(index, post.tabs@.len() as int)
        &&& post.next_tab_id == pre.next_tab_id
        &&& post.next_pane == pre.next_pane
    }
    &&& pre.tabs@.len() == 1 ==> {
        &&& post.tabs@.len() == 1
        &&& post.active == 0
        &&& post.next_tab_id == pre.next_tab_id + 1
        &&& post.next_pane == pre.next_pane + 1
        &&& ({
            let e = post.tabs@[0];
            e.tree == (PaneTree::Leaf { pane: pre.next_pane }) && e.title@ == tab_title_of(
                template,
                pre.next_tab_id as nat,
            ) && e.created_at == pre.next_tab_id && e.focus@ == Seq::<Side>::empty()
        })
    }
}

impl TabSet {
    /// Well-formedness: at least one tab, the active index inside the
    /// set, every focus path valid, and every pane id below the pane
    /// counter (so fresh ids never collide).
    pub open spec fn wf(self) -> bool {
        &&& self.tabs@.len() >= 1
        &&& (self.active as int) < self.tabs@.len()
        &&& forall|i: int| 0 <= i < self.tabs@.len() ==> (#[trigger] self.tabs@[i]).wf()
        &&& forall|i: int|
            0 <= i < self.tabs@.len() ==> (#[trigger] self.tabs@[i]).tree.panes_below(
                self.next_pane,
            )
    }

    /// A set with one fresh default tab: a single leaf, the first pane id
    /// and creation stamp, and the focus on that leaf.
    pub fn new(template: &str) -> (s: TabSet)
        ensures
            s.wf(),
            initial_tab_set(s, template@),
    {
        let entry = fresh_entry(template, 1, 0);
        let mut tabs: Vec<TabEntry> = Vec::new();
        tabs.push(entry);
        let s = TabSet { tabs, active: 0, next_tab_id: 2, next_pane: 1 };
        proof {
            assert(s.tabs@[0].tree.is_leaf_at(s.tabs@[0].focus@));
            assert(s.tabs@[0].tree.panes_below(1));
        }
        s
    }

    /// Append a fresh default tab and make it active.
    pub fn new_tab(&mut self, template: &str)
        requires
            old(self).wf(),
            old(self).next_tab_id < 0xffff_ffff_ffff_ffff,
            old(self).next_pane < 0xffff_ffff_ffff_ffff,
        ensures
            final(self).wf(),
            new_tab_rel(*old(self), *final(self), template@),
    {
        let entry = fresh_entry(template, self.next_tab_id, self.next_pane);
        self.active = self.tabs.len();
        self.tabs.push(entry);
        self.next_tab_id = self.next_tab_id + 1;
        self.next_pane = self.next_pane + 1;
        proof {
            assert(final(self).tabs@.drop_last() =~= old(self).tabs@);
            let e = final(self).tabs@.last();
            assert(e.tree.is_leaf_at(e.focus@));
            assert(e.tree.panes_below(final(self).next_pane));
            assert forall|i: int| 0 <= i < final(self).tabs@.len() implies (#[trigger] final(self).tabs@[i]).tree.panes_below(final(self).next_pane) by {
                if i < old(self).tabs@.len() {
                    lemma_panes_below_mono(
                        final(self).tabs@[i].tree,
                        old(self).next_pane,
                        final(self).next_pane,
                    );
                }
            }
        }
    }

    /// Remove the tab at `index` (which must exist), hand its entry back
    /// so the caller can release its sessions, and refocus the tab before
    /// it.  When the set would become empty, a fresh default tab is
    /// created instead, so the set is never left empty.
    pub fn close_tab(&mut self, index: usize, template: &str) -> (removed: TabEntry)
        requires
            old(self).wf(),
            index < old(self).tabs@.len(),
            old(self).next_tab_id < 0xffff_ffff_ffff_ffff,
            old(self).next_pane < 0xffff_ffff_ffff_ffff,
        ensures
            final(self).wf(),
            removed == old(self).tabs@[index as int],
            close_tab_rel(*old(self), *final(self), index as int, template@),
    {
        let removed = self.tabs.remove(index);
        if self.tabs.len() == 0 {
            let entry = fresh_entry(template, self.next_tab_id, self.next_pane);
            self.tabs.push(entry);
            self.active = 0;
            self.next_tab_id = self.next_tab_id + 1;
            self.next_pane = self.next_pane + 1;
            proof {
                let e = final(self).tabs@[0];
                assert(e.tree.is_leaf_at(e.focus@));
                assert(e.tree.panes_below(final(self).next_pane));
            }
        } else {
            let len = self.tabs.len();
            let target = if index > 0 {
                index - 1
            } else {
                0
            };
            self.active = if target >= len {
                len - 1
            } else {
                target
            };
            proof {
                assert forall|i: int| 0 <= i < final(self).tabs@.len() implies (#[trigger] final(self).tabs@[i]).wf() && final(self).tabs@[i].tree.panes_below(
                    final(self).next_pane,
                ) by {
                    if i < index {
                        assert(final(self).tabs@[i] == old(self).tabs@[i]);
                    } else {
                        assert(final(self).tabs@[i] == old(self).tabs@[i + 1]);
                    }
                }
            }
        }
        removed
    }

    /// Make the tab at `index` active; an out-of-range index changes
    /// nothing.
    pub fn switch(&mut self, index: usize)
        ensures
            index < old(self).tabs@.len() ==> final(self).tabs@ == old(self).tabs@ && final(self).active == index && final(self).next_tab_id == old(self).next_tab_id && final(self).next_pane == old(self).next_pane,
            index >= old(self).tabs@.len() ==> *final(self) == *old(self),
    {
        if index < self.tabs.len() {
            self.active = index;
        }
    }

    /// Replace the title of the tab at `index` with `text`, verbatim and
    /// with no length limit.  When `text` trimmed of white space is
    /// empty, or the index is out of range, nothing changes.
    pub fn rename(&mut self, index: usize, text: &str)
        requires
            old(self).wf(),
        ensures
            final(self).wf(),
            rename_rel(*old(self), *final(self), index as int, text@),
    {
        if index >= self.tabs.len() {
            return ;
        }
        let t = trim_str(text);
        if t.as_str().unicode_len() == 0 {
            return ;
        }
        self.tabs[index].title = text.to_owned();
        proof {
            assert forall|i: int| 0 <= i < final(self).tabs@.len() implies (#[trigger] final(self).tabs@[i]).wf() && final(self).tabs@[i].tree.panes_below(
                final(self).next_pane,
            ) by {
                if i != index {
                    assert(final(self).tabs@[i] == old(self).tabs@[i]);
                } else {
                    assert(final(self).tabs@[i].tree == old(self).tabs@[i].tree);
                    assert(final(self).tabs@[i].focus@ == old(self).tabs@[i].focus@);
                }
            }
        }
    }
}

/// A fresh default tab: a single leaf holding `pane`, the default title
/// for creation stamp `stamp`, and the focus on the leaf.
fn fresh_entry(template: &str, stamp: u64, pane: u64) -> (e: TabEntry)
    ensures
        e.tree == (PaneTree::Leaf { pane }),
        e.title@ == tab_title_of(template@, stamp as nat),
        e.created_at == stamp,
        e.focus@ == Seq::<Side>::empty(),
{
    let mut title = template.to_owned();
    title.append(" ");
    let num = u64_dec(stamp);
    title.append(num.as_str());
    proof {
        reveal_strlit(" ");
        assert(title@ =~= tab_title_of(template@, stamp as nat));
    }
    TabEntry { tree: PaneTree::Leaf { pane }, title, created_at: stamp, focus: Vec::new() }
}

} // verus!
