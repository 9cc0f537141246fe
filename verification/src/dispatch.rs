//! The command dispatcher: one window's state and the control step that
//! turns a key event into layout mutations and effects.
//!
//! `Workspace` holds the tab set, the configuration in force, and the
//! theme in force.  `handle_key` tests the event against the command
//! table in a fixed priority order; the first chord match whose action
//! applies mutates the state and hands the host a list of effects to
//! perform (sessions to open or close, panes to focus, dialogs to show).
//! A directional-focus match with no adjacent pane, and a tab-switch
//! match beyond the last tab, leave the event unconsumed so the host can
//! let it propagate: the right key with nothing to do is not the same as
//! the wrong key.
//!
//! Outside work never happens here.  Reloading is an effect: the host
//! reads and decodes the files, then hands the results to
//! `apply_reload`; renaming is an effect: the host shows the dialog,
//! then hands the text to `rename_active`.  Session-exit notifications,
//! serialized by the host onto its control thread, enter through
//! `handle_session_exit`.

use vstd::prelude::*;

use crate::config::Config;
use crate::keys::KeySym;
use crate::keys::binding_matches;
use crate::keys::spec_binding_matches;
use crate::tabs::TabEntry;
use crate::tabs::TabSet;
use crate::tabs::close_tab_rel;
use crate::tabs::new_tab_rel;
use crate::theme::Theme;
use crate::tree::Direction;
use crate::tree::Orientation;
use crate::tree::PaneTree;
use crate::tree::Side;
use crate::tree::lemma_close_panes_below;
use crate::tree::lemma_close_leaf_count;
use crate::tree::lemma_first_leaf_valid;
use crate::tree::lemma_navigate_valid;
use crate::tree::lemma_panes_below_mono;
use crate::tree::lemma_split_new_leaf;
use crate::tree::lemma_split_panes_below;

verus! {

/// A command the key-chord matcher can resolve.
#[derive(Clone, Copy, Debug, PartialEq, Eq, Structural)]
pub enum Command {
    NewTab,
    CloseTab,
    RenameTab,
    ClosePanel,
    SplitVertical,
    SplitHorizontal,
    Copy,
    Paste,
    FocusLeft,
    FocusRight,
    FocusUp,
    FocusDown,
    ReloadConfig,
    ShowKeybindings,
    SwitchTab(usize),
}

/// An action the hosting shell must perform after a step.
#[derive(Clone, Debug, PartialEq, Eq, Structural)]
pub enum Effect {
    /// Spawn a terminal session for a fresh pane.
    OpenSession { pane: u64 },
    /// Terminate the session of a closed pane.
    CloseSession { pane: u64 },
    /// Give keyboard focus to a pane's terminal.
    FocusPane { pane: u64 },
    /// Close the window: the last pane of the last tab was closed.
    CloseWindow,
    /// Show the rename dialog for the active tab.
    OpenRenameDialog,
    /// Show the keybindings dialog.
    OpenKeybindingsDialog,
    /// Copy the focused terminal's selection to the clipboard.
    CopySelection,
    /// Paste the clipboard into the focused terminal.
    PasteClipboard,
    /// Re-read the configuration and theme files and call `apply_reload`.
    ReloadRequested,
}

/// The session-closing effects for a list of panes, in order.
pub open spec fn close_effects(panes: Seq<u64>) -> Seq<Effect> {
    panes.map_values(|p: u64| Effect::CloseSession { pane: p })
}

/// The first tab-switch chord from position `i` on that matches the
/// event.
pub open spec fn tab_match_from(
    tabs: Seq<Option<crate::keys::Chord>>,
    key: KeySym,
    state: u32,
    i: int,
) -> Option<int>
    decreases tabs.len() - i,
{
    if i < 0 || i >= tabs.len() {
        None
    } else if spec_binding_matches(tabs[i], key, state) {
        Some(i)
    } else {
        tab_match_from(tabs, key, state, i + 1)
    }
}

/// One window: its tabs, the configuration in force, and the theme in
/// force.
pub struct Workspace {
    pub tabs: TabSet,
    pub config: Config,
    pub theme: Option<Theme>,
}

impl Workspace {
    /// A well-formed workspace: well-formed tabs and configuration, and
    /// a validated theme if one is in force.
    pub open spec fn wf(self) -> bool {
        &&& self.tabs.wf()
        &&& self.config.wf()
        &&& self.theme matches Some(t) ==> t.wf()
    }

    /// The active tab.
    pub open spec fn active_entry(self) -> TabEntry {
        self.tabs.tabs@[self.tabs.active as int]
    }

    /// Can focus move from the active tab's focused leaf in `dir`?
    pub open spec fn can_navigate(self, dir: Direction) -> bool {
        self.active_entry().tree.spec_navigate(self.active_entry().focus@, dir) is Some
    }

    /// Which command, if any, the event resolves to: chords are tested
    /// in a fixed priority order, and the first match whose action
    /// applies wins.  A directional-focus chord with no adjacent pane is
    /// passed over; a tab-switch chord beyond the last tab resolves to
    /// nothing (the event stays unconsumed), and stops the search.
    pub open spec fn decision(self, key: KeySym, state: u32) -> Option<Command> {
        let kb = self.config.keybindings;
        if spec_binding_matches(kb.new_tab, key, state) {
            Some(Command::NewTab)
        } else if spec_binding_matches(kb.close_tab, key, state) {
            Some(Command::CloseTab)
        } else if spec_binding_matches(kb.rename_tab, key, state) {
            Some(Command::RenameTab)
        } else if spec_binding_matches(kb.close_panel, key, state) {
            Some(Command::ClosePanel)
        } else if spec_binding_matches(kb.split_vertical, key, state) {
            Some(Command::SplitVertical)
        } else if spec_binding_matches(kb.split_horizontal, key, state) {
            Some(Command::SplitHorizontal)
        } else if spec_binding_matches(kb.copy, key, state) {
            Some(Command::Copy)
        } else if spec_binding_matches(kb.paste, key, state) {
            Some(Command::Paste)
        } else if spec_binding_matches(kb.focus_left, key, state) && self.can_navigate(
            Direction::Left,
        ) {
            Some(Command::FocusLeft)
        } else if spec_binding_matches(kb.focus_right, key, state) && self.can_navigate(
            Direction::Right,
        ) {
            Some(Command::FocusRight)
        } else if spec_binding_matches(kb.focus_up, key, state) && self.can_navigate(
            Direction::Up,
        ) {
            Some(Command::FocusUp)
        } else if spec_binding_matches(kb.focus_down, key, state) && self.can_navigate(
            Direction::Down,
        ) {
            Some(Command::FocusDown)
        } else if spec_binding_matches(kb.reload_config, key, state) {
            Some(Command::ReloadConfig)
        } else if spec_binding_matches(kb.show_keybindings, key, state) {
            Some(Command::ShowKeybindings)
        } else {
            match tab_match_from(kb.tab_switch@, key, state, 0) {
                Some(i) => if i < self.tabs.tabs@.len() {
                    Some(Command::SwitchTab(i as usize))
                } else {
                    None
                },
                None => None,
            }
        }
    }
}

/// How a workspace changes under one command, together with the effects
/// handed to the host.
pub open spec fn step_rel(pre: Workspace, post: Workspace, effects: Seq<Effect>, cmd: Command) -> bool {
    let template = pre.config.tab_title@;
    let act = pre.active_entry();
    match cmd {
        Command::NewTab => {
            &&& new_tab_rel(pre.tabs, post.tabs, template)
            &&& post.config == pre.config
            &&& post.theme == pre.theme
            &&& effects == seq![
                Effect::OpenSession { pane: pre.tabs.next_pane },
                Effect::FocusPane { pane: pre.tabs.next_pane },
            ]
        },
        Command::CloseTab => close_tab_step(pre, post, effects, pre.tabs.active as int),
        Command::RenameTab => {
            &&& post == pre
            &&& effects == seq![Effect::OpenRenameDialog]
        },
        Command::ClosePanel => close_panel_rel(pre, post, effects),
        Command::SplitVertical => split_rel(pre, post, effects, Orientation::Horizontal),
        Command::SplitHorizontal => split_rel(pre, post, effects, Orientation::Vertical),
        Command::Copy => {
            &&& post == pre
            &&& effects == seq![Effect::CopySelection]
        },
        Command::Paste => {
            &&& post == pre
            &&& effects == seq![Effect::PasteClipboard]
        },
        Command::FocusLeft => focus_rel(pre, post, effects, Direction::Left),
        Command::FocusRight => focus_rel(pre, post, effects, Direction::Right),
        Command::FocusUp => focus_rel(pre, post, effects, Direction::Up),
        Command::FocusDown => focus_rel(pre, post, effects, Direction::Down),
        Command::ReloadConfig => {
            &&& post == pre
            &&& effects == seq![Effect::ReloadRequested]
        },
        Command::ShowKeybindings => {
            &&& post == pre
            &&& effects == seq![Effect::OpenKeybindingsDialog]
        },
        Command::SwitchTab(i) => {
            &&& post.tabs.tabs@ == pre.tabs.tabs@
            &&& post.tabs.active == i
            &&& post.tabs.next_tab_id == pre.tabs.next_tab_id
            &&& post.tabs.next_pane == pre.tabs.next_pane
            &&& post.config == pre.config
            &&& post.theme == pre.theme
            &&& effects == seq![Effect::FocusPane { pane: refocused_pane(post) }]
        },
    }
}

/// The pane holding the focus of the active tab.
pub open spec fn refocused_pane(w: Workspace) -> u64 {
    w.active_entry().tree.pane_at(w.active_entry().focus@)
}

/// How the workspace changes when the tab at `index` is closed: every
/// session of that tab is released; on the last tab a fresh default tab
/// takes its place and its session opens; otherwise the tab before the
/// closed one is focused.
pub open spec fn close_tab_step(
    pre: Workspace,
    post: Workspace,
    effects: Seq<Effect>,
    index: int,
) -> bool {
    &&& close_tab_rel(pre.tabs, post.tabs, index, pre.config.tab_title@)
    &&& post.config == pre.config
    &&& post.theme == pre.theme
    &&& effects == close_effects(pre.tabs.tabs@[index].tree.leaf_panes()) + (if pre.tabs.tabs@.len()
        == 1 {
        seq![
            Effect::OpenSession { pane: pre.tabs.next_pane },
            Effect::FocusPane { pane: pre.tabs.next_pane },
        ]
    } else {
        seq![Effect::FocusPane { pane: refocused_pane(post) }]
    })
}

/// How the workspace changes when the leaf at `path` in tab `t` is
/// closed: the sibling is promoted, the tab's focus falls to the first
/// leaf of the promoted layout, and everything else stands.
pub open spec fn close_leaf_at(pre: Workspace, post: Workspace, t: int, path: Seq<Side>) -> bool {
    let e0 = pre.tabs.tabs@[t];
    let new_tree = e0.tree.spec_close(path).unwrap();
    &&& post.tabs.tabs@.len() == pre.tabs.tabs@.len()
    &&& (forall|i: int|
        0 <= i < pre.tabs.tabs@.len() && i != t ==> #[trigger] post.tabs.tabs@[i]
            == pre.tabs.tabs@[i])
    &&& ({
        let e = post.tabs.tabs@[t];
        &&& e.tree == new_tree
        &&& e.focus@ == new_tree.first_leaf_path()
        &&& e.title == e0.title
        &&& e.created_at == e0.created_at
    })
    &&& post.tabs.active == pre.tabs.active
    &&& post.tabs.next_tab_id == pre.tabs.next_tab_id
    &&& post.tabs.next_pane == pre.tabs.next_pane
    &&& post.config == pre.config
    &&& post.theme == pre.theme
}

/// The first tab from position `i` on whose tree holds `pane`.
pub open spec fn tab_with_pane_from(tabs: Seq<TabEntry>, pane: u64, i: int) -> Option<int>
    decreases tabs.len() - i,
{
    if i < 0 || i >= tabs.len() {
        None
    } else if tabs[i].tree.contains_pane(pane) {
        Some(i)
    } else {
        tab_with_pane_from(tabs, pane, i + 1)
    }
}

/// How the workspace changes when a session exits on its own: the leaf
/// holding its pane is closed in whichever tab holds it, cascading into
/// a tab close when the pane was the tab's last, and into closing the
/// window when that tab was the last.  A pane no tab holds changes
/// nothing.
pub open spec fn session_exit_rel(
    pre: Workspace,
    post: Workspace,
    effects: Seq<Effect>,
    pane: u64,
) -> bool {
    match tab_with_pane_from(pre.tabs.tabs@, pane, 0) {
        None => post == pre && effects == Seq::<Effect>::empty(),
        Some(t) => {
            let e = pre.tabs.tabs@[t];
            let path = e.tree.find_pane(pane).unwrap();
            if path.len() == 0 {
                if pre.tabs.tabs@.len() <= 1 {
                    post == pre && effects == seq![Effect::CloseWindow]
                } else {
                    close_tab_step(pre, post, effects, t)
                }
            } else {
                &&& close_leaf_at(pre, post, t, path)
                &&& effects == seq![Effect::CloseSession { pane }] + (if t == pre.tabs.active {
                    seq![Effect::FocusPane { pane: refocused_pane(post) }]
                } else {
                    Seq::<Effect>::empty()
                })
            }
        },
    }
}

/// How the workspace changes when the focused leaf of the active tab is
/// split: the new pane becomes the focus, and the host opens its
/// session.
pub open spec fn split_rel(
    pre: Workspace,
    post: Workspace,
    effects: Seq<Effect>,
    o: Orientation,
) -> bool {
    let act = pre.active_entry();
    let pane = pre.tabs.next_pane;
    &&& post.tabs.tabs@.len() == pre.tabs.tabs@.len()
    &&& (forall|i: int|
        0 <= i < pre.tabs.tabs@.len() && i != pre.tabs.active ==> #[trigger] post.tabs.tabs@[i]
            == pre.tabs.tabs@[i])
    &&& ({
        let e = post.active_entry();
        &&& e.tree == act.tree.spec_split(act.focus@, o, pane)
        &&& e.focus@ == act.focus@.push(Side::End)
        &&& e.title == act.title
        &&& e.created_at == act.created_at
    })
    &&& post.tabs.active == pre.tabs.active
    &&& post.tabs.next_tab_id == pre.tabs.next_tab_id
    &&& post.tabs.next_pane == pre.tabs.next_pane + 1
    &&& post.config == pre.config
    &&& post.theme == pre.theme
    &&& effects == seq![Effect::OpenSession { pane }, Effect::FocusPane { pane }]
}

/// How the workspace changes when the focused panel is closed.  On a
/// split tab, the leaf is closed, its sibling promoted, and the focus
/// falls to the first leaf of the promoted layout.  On a tab whose tree
/// is a single leaf, the tab itself is closed; on the last such tab, the
/// window closes instead and the state is untouched.
pub open spec fn close_panel_rel(pre: Workspace, post: Workspace, effects: Seq<Effect>) -> bool {
    let act = pre.active_entry();
    if act.focus@.len() == 0 {
        if pre.tabs.tabs@.len() <= 1 {
            &&& post == pre
            &&& effects == seq![Effect::CloseWindow]
        } else {
            close_tab_step(pre, post, effects, pre.tabs.active as int)
        }
    } else {
        &&& close_leaf_at(pre, post, pre.tabs.active as int, act.focus@)
        &&& effects == seq![
            Effect::CloseSession { pane: act.tree.pane_at(act.focus@) },
            Effect::FocusPane { pane: refocused_pane(post) },
        ]
    }
}

/// How the workspace changes when focus moves in a direction: only the
/// active tab's focus path changes, to the adjacent leaf.
pub open spec fn focus_rel(
    pre: Workspace,
    post: Workspace,
    effects: Seq<Effect>,
    dir: Direction,
) -> bool {
    let act = pre.active_entry();
    let target = act.tree.spec_navigate(act.focus@, dir).unwrap();
    &&& post.tabs.tabs@.len() == pre.tabs.tabs@.len()
    &&& (forall|i: int|
        0 <= i < pre.tabs.tabs@.len() && i != pre.tabs.active ==> #[trigger] post.tabs.tabs@[i]
            == pre.tabs.tabs@[i])
    &&& ({
        let e = post.active_entry();
        &&& e.tree == act.tree
        &&& e.focus@ == target
        &&& e.title == act.title
        &&& e.created_at == act.created_at
    })
    &&& post.tabs.active == pre.tabs.active
    &&& post.tabs.next_tab_id == pre.tabs.next_tab_id
    &&& post.tabs.next_pane == pre.tabs.next_pane
    &&& post.config == pre.config
    &&& post.theme == pre.theme
    &&& effects == seq![Effect::FocusPane { pane: act.tree.pane_at(target) }]
}

/// A one-effect list.
fn one_effect(e: Effect) -> (r: Vec<Effect>)
    ensures
        r@ == seq![e],
{
    let mut r: Vec<Effect> = Vec::new();
    r.push(e);
    proof {
        assert(r@ =~= seq![e]);
    }
    r
}

/// A two-effect list.
fn two_effects(a: Effect, b: Effect) -> (r: Vec<Effect>)
    ensures
        r@ == seq![a, b],
{
    let mut r: Vec<Effect> = Vec::new();
    r.push(a);
    r.push(b);
    proof {
        assert(r@ =~= seq![a, b]);
    }
    r
}

/// Find the first tab whose tree holds `pane`, and the pane's path in it.
#[verifier::loop_isolation(false)]
fn locate_pane(tabs: &Vec<TabEntry>, pane: u64) -> (r: Option<(usize, Vec<Side>)>)
    ensures
        (r is Some) == (tab_with_pane_from(tabs@, pane, 0) is Some),
        r matches Some(pr) ==> tab_with_pane_from(tabs@, pane, 0) == Some(pr.0 as int) && pr.0
            < tabs@.len() && tabs@[pr.0 as int].tree.find_pane(pane) == Some(pr.1@),
{
    let n = tabs.len();
    let mut t: usize = 0;
    while t < n
        invariant
            0 <= t <= n,
            tab_with_pane_from(tabs@, pane, 0) == tab_with_pane_from(tabs@, pane, t as int),
        decreases n - t,
    {
        proof {
            crate::tree::lemma_find_pane_contains(tabs@[t as int].tree, pane);
        }
        match tabs[t].tree.find_pane_path(pane) {
            Some(path) => {
                return Some((t, path));
            },
            None => {},
        }
        t = t + 1;
    }
    None
}

impl Workspace {
    /// A workspace under `config`: one fresh default tab, no theme in
    /// force yet.
    pub fn new(config: Config) -> (w: Workspace)
        requires
            config.wf(),
        ensures
            w.wf(),
            crate::tabs::initial_tab_set(w.tabs, config.tab_title@),
            w.config == config,
            w.theme is None,
    {
        let tabs = TabSet::new(config.tab_title.as_str());
        Workspace { tabs, config, theme: None }
    }

    /// Open a fresh tab with a fresh session.
    fn do_new_tab(&mut self) -> (effects: Vec<Effect>)
        requires
            old(self).wf(),
            old(self).tabs.next_tab_id < 0xffff_ffff_ffff_ffff,
            old(self).tabs.next_pane < 0xffff_ffff_ffff_ffff,
        ensures
            final(self).wf(),
            step_rel(*old(self), *final(self), effects@, Command::NewTab),
    {
        let pane = self.tabs.next_pane;
        self.tabs.new_tab(self.config.tab_title.as_str());
        two_effects(Effect::OpenSession { pane }, Effect::FocusPane { pane })
    }

    /// Close the tab at `index` and release its sessions.
    #[verifier::loop_isolation(false)]
    fn close_tab_at(&mut self, index: usize) -> (effects: Vec<Effect>)
        requires
            old(self).wf(),
            index < old(self).tabs.tabs@.len(),
            old(self).tabs.next_tab_id < 0xffff_ffff_ffff_ffff,
            old(self).tabs.next_pane < 0xffff_ffff_ffff_ffff,
        ensures
            final(self).wf(),
            close_tab_step(*old(self), *final(self), effects@, index as int),
    {
        let recreate = self.tabs.tabs.len() == 1;
        let pane_new = self.tabs.next_pane;
        let removed = self.tabs.close_tab(index, self.config.tab_title.as_str());
        let panes = removed.tree.leaves();
        let n = panes.len();
        let mut effects: Vec<Effect> = Vec::new();
        let mut i: usize = 0;
        proof {
            assert(effects@ =~= close_effects(panes@.take(0)));
        }
        while i < n
            invariant
                0 <= i <= n,
                effects@ == close_effects(panes@.take(i as int)),
            decreases n - i,
        {
            effects.push(Effect::CloseSession { pane: panes[i] });
            proof {
                assert(effects@ =~= close_effects(panes@.take(i + 1)));
            }
            i = i + 1;
        }
        proof {
            assert(panes@.take(n as int) =~= panes@);
        }
        if recreate {
            effects.push(Effect::OpenSession { pane: pane_new });
            effects.push(Effect::FocusPane { pane: pane_new });
            proof {
                assert(effects@ =~= close_effects(panes@) + seq![
                    Effect::OpenSession { pane: pane_new },
                    Effect::FocusPane { pane: pane_new },
                ]);
            }
        } else {
            let a = self.tabs.active;
            let p = self.tabs.tabs[a].tree.leaf_pane(&self.tabs.tabs[a].focus);
            effects.push(Effect::FocusPane { pane: p });
            proof {
                assert(effects@ =~= close_effects(panes@) + seq![Effect::FocusPane { pane: p }]);
            }
        }
        effects
    }

    /// Split the focused leaf of the active tab along an axis; the fresh
    /// pane takes the focus.
    fn do_split(&mut self, o: Orientation) -> (effects: Vec<Effect>)
        requires
            old(self).wf(),
            old(self).tabs.next_pane < 0xffff_ffff_ffff_ffff,
        ensures
            final(self).wf(),
            split_rel(*old(self), *final(self), effects@, o),
    {
        let active = self.tabs.active;
        let pane = self.tabs.next_pane;
        let ghost act = self.tabs.tabs@[active as int];
        let mut tree = PaneTree::Leaf { pane: 0 };
        core::mem::swap(&mut tree, &mut self.tabs.tabs[active].tree);
        let new_tree = tree.split(&self.tabs.tabs[active].focus, o, pane);
        self.tabs.tabs[active].tree = new_tree;
        self.tabs.tabs[active].focus.push(Side::End);
        self.tabs.next_pane = pane + 1;
        proof {
            lemma_split_new_leaf(act.tree, act.focus@, o, pane);
            assert forall|i: int| 0 <= i < final(self).tabs.tabs@.len() implies (#[trigger] final(self).tabs.tabs@[i]).wf() && final(self).tabs.tabs@[i].tree.panes_below(
                final(self).tabs.next_pane,
            ) by {
                if i == active as int {
                    lemma_panes_below_mono(act.tree, pane, (pane + 1) as u64);
                    lemma_split_panes_below(act.tree, act.focus@, o, pane, (pane + 1) as u64);
                } else {
                    lemma_panes_below_mono(
                        final(self).tabs.tabs@[i].tree,
                        pane,
                        (pane + 1) as u64,
                    );
                }
            }
        }
        two_effects(Effect::OpenSession { pane }, Effect::FocusPane { pane })
    }

    /// Close the leaf at `path` in tab `t` and promote its sibling.  The
    /// tab's focus falls to the first leaf of the promoted layout.
    fn close_leaf(&mut self, t: usize, path: &Vec<Side>) -> (p: u64)
        requires
            old(self).tabs.tabs@.len() >= 1,
            (old(self).tabs.active as int) < old(self).tabs.tabs@.len(),
            t < old(self).tabs.tabs@.len(),
            forall|i: int|
                0 <= i < old(self).tabs.tabs@.len() && i != t ==> (#[trigger] old(self).tabs.tabs@[i]).wf(),
            forall|i: int|
                0 <= i < old(self).tabs.tabs@.len() ==> (#[trigger] old(self).tabs.tabs@[i]).tree.panes_below(old(self).tabs.next_pane),
            old(self).tabs.tabs@[t as int].tree.is_leaf_at(path@),
            path@.len() > 0,
            old(self).config.wf(),
            old(self).theme matches Some(th) ==> th.wf(),
        ensures
            final(self).wf(),
            close_leaf_at(*old(self), *final(self), t as int, path@),
            p == old(self).tabs.tabs@[t as int].tree.pane_at(path@),
    {
        let p = self.tabs.tabs[t].tree.leaf_pane(path);
        let ghost act = self.tabs.tabs@[t as int];
        let mut tree = PaneTree::Leaf { pane: 0 };
        core::mem::swap(&mut tree, &mut self.tabs.tabs[t].tree);
        proof {
            lemma_close_leaf_count(act.tree, path@);
        }
        match tree.close(path) {
            Some(t2) => {
                proof {
                    lemma_first_leaf_valid(t2);
                }
                let nf = t2.first_leaf();
                self.tabs.tabs[t].tree = t2;
                self.tabs.tabs[t].focus = nf;
                proof {
                    lemma_close_panes_below(act.tree, path@, old(self).tabs.next_pane);
                    assert forall|i: int| 0 <= i < final(self).tabs.tabs@.len() implies
                        (#[trigger] final(self).tabs.tabs@[i]).wf() && final(self).tabs.tabs@[i].tree.panes_below(final(self).tabs.next_pane) by {
                        if i != t {
                            assert(final(self).tabs.tabs@[i] == old(self).tabs.tabs@[i]);
                        }
                    }
                }
                p
            },
            None => {
                proof {
                    assert(false);
                }
                p
            },
        }
    }

    /// Close the focused panel of the active tab: close its leaf, or the
    /// whole tab when the leaf is the tab's last, or the window when
    /// that tab is the last.
    fn do_close_panel(&mut self) -> (effects: Vec<Effect>)
        requires
            old(self).wf(),
            old(self).tabs.next_tab_id < 0xffff_ffff_ffff_ffff,
            old(self).tabs.next_pane < 0xffff_ffff_ffff_ffff,
        ensures
            final(self).wf(),
            close_panel_rel(*old(self), *final(self), effects@),
    {
        let active = self.tabs.active;
        if self.tabs.tabs[active].focus.len() == 0 {
            if self.tabs.tabs.len() <= 1 {
                one_effect(Effect::CloseWindow)
            } else {
                self.close_tab_at(active)
            }
        } else {
            let mut path: Vec<Side> = Vec::new();
            core::mem::swap(&mut path, &mut self.tabs.tabs[active].focus);
            let closed = self.close_leaf(active, &path);
            let a = self.tabs.active;
            let p = self.tabs.tabs[a].tree.leaf_pane(&self.tabs.tabs[a].focus);
            two_effects(Effect::CloseSession { pane: closed }, Effect::FocusPane { pane: p })
        }
    }

    /// Move focus in a direction if an adjacent pane exists; hand back
    /// `None`, with nothing changed, when none does.
    fn try_focus(&mut self, dir: Direction) -> (r: Option<Vec<Effect>>)
        requires
            old(self).wf(),
        ensures
            (r is Some) == old(self).can_navigate(dir),
            r matches Some(effects) ==> final(self).wf() && focus_rel(
                *old(self),
                *final(self),
                effects@,
                dir,
            ),
            r is None ==> *final(self) == *old(self),
    {
        let active = self.tabs.active;
        let target = self.tabs.tabs[active].tree.navigate(&self.tabs.tabs[active].focus, dir);
        match target {
            Some(path) => {
                proof {
                    let act = self.tabs.tabs@[active as int];
                    lemma_navigate_valid(act.tree, act.focus@, dir);
                }
                let p = self.tabs.tabs[active].tree.leaf_pane(&path);
                self.tabs.tabs[active].focus = path;
                proof {
                    assert forall|i: int| 0 <= i < final(self).tabs.tabs@.len() implies
                        (#[trigger] final(self).tabs.tabs@[i]).wf() && final(self).tabs.tabs@[i].tree.panes_below(final(self).tabs.next_pane) by {
                        if i != active as int {
                            assert(final(self).tabs.tabs@[i] == old(self).tabs.tabs@[i]);
                        }
                    }
                }
                Some(one_effect(Effect::FocusPane { pane: p }))
            },
            None => None,
        }
    }

    /// Switch to the tab at `index` and refocus its recorded leaf.
    fn do_switch(&mut self, index: usize) -> (effects: Vec<Effect>)
        requires
            old(self).wf(),
            index < old(self).tabs.tabs@.len(),
        ensures
            final(self).wf(),
            step_rel(*old(self), *final(self), effects@, Command::SwitchTab(index)),
    {
        self.tabs.switch(index);
        let a = self.tabs.active;
        let p = self.tabs.tabs[a].tree.leaf_pane(&self.tabs.tabs[a].focus);
        one_effect(Effect::FocusPane { pane: p })
    }

    /// One control step: test the event against the command table in
    /// priority order, perform the first applicable command, and hand
    /// back whether the event was consumed together with the effects the
    /// host must perform.
    #[verifier::loop_isolation(false)]
    #[verifier::rlimit(100)]
    pub fn handle_key(&mut self, key: &KeySym, state: u32) -> (r: (bool, Vec<Effect>))
        requires
            old(self).wf(),
            old(self).tabs.next_tab_id < 0xffff_ffff_ffff_ffff,
            old(self).tabs.next_pane < 0xffff_ffff_ffff_ffff,
        ensures
            final(self).wf(),
            r.0 == (old(self).decision(*key, state) is Some),
            (match old(self).decision(*key, state) {
                Some(cmd) => step_rel(*old(self), *final(self), r.1@, cmd),
                None => *final(self) == *old(self) && r.1@ == Seq::<Effect>::empty(),
            }),
    {
        if binding_matches(&self.config.keybindings.new_tab, key, state) {
            let e = self.do_new_tab();
            return (true, e);
        }
        if binding_matches(&self.config.keybindings.close_tab, key, state) {
            let active = self.tabs.active;
            let e = self.close_tab_at(active);
            return (true, e);
        }
        if binding_matches(&self.config.keybindings.rename_tab, key, state) {
            return (true, one_effect(Effect::OpenRenameDialog));
        }
        if binding_matches(&self.config.keybindings.close_panel, key, state) {
            let e = self.do_close_panel();
            return (true, e);
        }
        if binding_matches(&self.config.keybindings.split_vertical, key, state) {
            let e = self.do_split(Orientation::Horizontal);
            return (true, e);
        }
        if binding_matches(&self.config.keybindings.split_horizontal, key, state) {
            let e = self.do_split(Orientation::Vertical);
            return (true, e);
        }
        if binding_matches(&self.config.keybindings.copy, key, state) {
            return (true, one_effect(Effect::CopySelection));
        }
        if binding_matches(&self.config.keybindings.paste, key, state) {
            return (true, one_effect(Effect::PasteClipboard));
        }
        if binding_matches(&self.config.keybindings.focus_left, key, state) {
            match self.try_focus(Direction::Left) {
                Some(e) => {
                    return (true, e);
                },
                None => {},
            }
        }
        if binding_matches(&self.config.keybindings.focus_right, key, state) {
            match self.try_focus(Direction::Right) {
                Some(e) => {
                    return (true, e);
                },
                None => {},
            }
        }
        if binding_matches(&self.config.keybindings.focus_up, key, state) {
            match self.try_focus(Direction::Up) {
                Some(e) => {
                    return (true, e);
                },
                None => {},
            }
        }
        if binding_matches(&self.config.keybindings.focus_down, key, state) {
            match self.try_focus(Direction::Down) {
                Some(e) => {
                    return (true, e);
                },
                None => {},
            }
        }
        if binding_matches(&self.config.keybindings.reload_config, key, state) {
            return (true, one_effect(Effect::ReloadRequested));
        }
        if binding_matches(&self.config.keybindings.show_keybindings, key, state) {
            return (true, one_effect(Effect::OpenKeybindingsDialog));
        }
        let n = self.config.keybindings.tab_switch.len();
        let ghost chords = self.config.keybindings.tab_switch@;
        let mut i: usize = 0;
        while i < n
            invariant
                0 <= i <= n,
                *self == *old(self),
                tab_match_from(chords, *key, state, 0) == tab_match_from(chords, *key, state, i as int),
            decreases n - i,
        {
            if binding_matches(&self.config.keybindings.tab_switch[i], key, state) {
                if i < self.tabs.tabs.len() {
                    let e = self.do_switch(i);
                    return (true, e);
                }
                return (false, Vec::new());
            }
            i = i + 1;
        }
        (false, Vec::new())
    }

    /// Swap in a freshly loaded configuration, and a freshly loaded
    /// theme if one was accepted; a rejected or absent theme leaves the
    /// prior colors in force.  The layout is untouched.
    pub fn apply_reload(&mut self, new_config: Config, new_theme: Option<Theme>)
        requires
            old(self).wf(),
            new_config.wf(),
            new_theme matches Some(t) ==> t.wf(),
        ensures
            final(self).wf(),
            final(self).tabs == old(self).tabs,
            final(self).config == new_config,
            final(self).theme == if new_theme is Some {
                new_theme
            } else {
                old(self).theme
            },
    {
        self.config = new_config;
        if let Some(t) = new_theme {
            self.theme = Some(t);
        }
    }

    /// Rename the active tab: the host's dialog hands the entered text
    /// here.
    pub fn rename_active(&mut self, text: &str)
        requires
            old(self).wf(),
        ensures
            final(self).wf(),
            crate::tabs::rename_rel(
                old(self).tabs,
                final(self).tabs,
                old(self).tabs.active as int,
                text@,
            ),
            final(self).config == old(self).config,
            final(self).theme == old(self).theme,
    {
        let active = self.tabs.active;
        self.tabs.rename(active, text);
    }

    /// A session exited on its own: close the leaf that held its pane,
    /// wherever it is.
    pub fn handle_session_exit(&mut self, pane: u64) -> (effects: Vec<Effect>)
        requires
            old(self).wf(),
            old(self).tabs.next_tab_id < 0xffff_ffff_ffff_ffff,
            old(self).tabs.next_pane < 0xffff_ffff_ffff_ffff,
        ensures
            final(self).wf(),
            session_exit_rel(*old(self), *final(self), effects@, pane),
    {
        let located = locate_pane(&self.tabs.tabs, pane);
        match located {
            None => Vec::new(),
            Some((t, path)) => {
                proof {
                    crate::tree::lemma_find_pane_valid(self.tabs.tabs@[t as int].tree, pane);
                }
                if path.len() == 0 {
                    if self.tabs.tabs.len() <= 1 {
                        one_effect(Effect::CloseWindow)
                    } else {
                        self.close_tab_at(t)
                    }
                } else {
                    let closed = self.close_leaf(t, &path);
                    let mut effects: Vec<Effect> = Vec::new();
                    effects.push(Effect::CloseSession { pane });
                    if t == self.tabs.active {
                        let a = self.tabs.active;
                        let p = self.tabs.tabs[a].tree.leaf_pane(&self.tabs.tabs[a].focus);
                        effects.push(Effect::FocusPane { pane: p });
                        proof {
                            assert(effects@ =~= seq![Effect::CloseSession { pane }] + seq![
                                Effect::FocusPane { pane: p },
                            ]);
                        }
                    } else {
                        proof {
                            assert(effects@ =~= seq![Effect::CloseSession { pane }]
                                + Seq::<Effect>::empty());
                        }
                    }
                    effects
                }
            },
        }
    }
}

} // verus!
