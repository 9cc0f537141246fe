use termilyon::config::default_config;
use termilyon::dispatch::{Effect, Workspace};
use termilyon::keys::{KeySym, MOD_ALT, MOD_CONTROL, MOD_SHIFT};
use termilyon::theme::{theme_from_raw, RawTheme, Rgb};
use termilyon::tree::PaneTree;

fn letter(upper: char) -> KeySym {
    let code = upper as u32;
    KeySym { code, lower: code + 32, upper: code, name: upper.to_string() }
}

fn arrow(code: u32, name: &str) -> KeySym {
    KeySym { code, lower: code, upper: code, name: name.to_string() }
}

fn workspace() -> Workspace {
    Workspace::new(default_config("/bin/sh".to_string()))
}

fn raw_theme(palette_len: usize) -> RawTheme {
    RawTheme {
        background: "#101010".to_string(),
        foreground: "#e0e0e0".to_string(),
        cursor: "#ffffff".to_string(),
        palette: (0..palette_len).map(|_| "#123456".to_string()).collect(),
        tab_active_bg: None,
        tab_active_fg: None,
        tab_inactive_bg: None,
        tab_inactive_fg: None,
    }
}

#[test]
fn two_new_tab_chords_make_three_tabs() {
    // Two "new tab" chords on a one-tab set: three tabs, the third
    // active.
    let mut ws = workspace();
    let (consumed, effects) = ws.handle_key(&letter('T'), MOD_CONTROL | MOD_SHIFT);
    assert!(consumed);
    assert_eq!(effects, vec![Effect::OpenSession { pane: 1 }, Effect::FocusPane { pane: 1 }]);
    let (consumed, _) = ws.handle_key(&letter('T'), MOD_CONTROL | MOD_SHIFT);
    assert!(consumed);
    assert_eq!(ws.tabs.tabs.len(), 3);
    assert_eq!(ws.tabs.active, 2);
    assert_eq!(ws.tabs.tabs[2].title, "Terminal 3");
}

#[test]
fn split_then_close_panel_restores_the_leaf() {
    // Splitting the active leaf and closing the panel on the new leaf
    // returns the tree to the original single leaf.
    let mut ws = workspace();
    let original = PaneTree::Leaf { pane: 0 };
    assert_eq!(ws.tabs.tabs[0].tree, original);
    let (consumed, effects) = ws.handle_key(&letter('P'), MOD_CONTROL | MOD_SHIFT);
    assert!(consumed);
    assert_eq!(effects, vec![Effect::OpenSession { pane: 1 }, Effect::FocusPane { pane: 1 }]);
    assert!(ws.tabs.tabs[0].tree != original);
    let (consumed, effects) = ws.handle_key(&letter('D'), MOD_CONTROL);
    assert!(consumed);
    assert_eq!(effects, vec![Effect::CloseSession { pane: 1 }, Effect::FocusPane { pane: 0 }]);
    assert_eq!(ws.tabs.tabs[0].tree, original);
}

#[test]
fn directional_focus_walks_the_split_chain() {
    // Two splits yield panes [0 | 1 | 2]; moving left twice walks back
    // to the first pane, and a further left press is left unconsumed.
    let mut ws = workspace();
    ws.handle_key(&letter('P'), MOD_CONTROL | MOD_SHIFT);
    ws.handle_key(&letter('P'), MOD_CONTROL | MOD_SHIFT);
    assert_eq!(ws.tabs.tabs[0].tree.leaves(), vec![0, 1, 2]);
    let left = arrow(0xff51, "Left");
    let right = arrow(0xff53, "Right");
    let (consumed, effects) = ws.handle_key(&left, MOD_ALT);
    assert!(consumed);
    assert_eq!(effects, vec![Effect::FocusPane { pane: 1 }]);
    let (consumed, effects) = ws.handle_key(&left, MOD_ALT);
    assert!(consumed);
    assert_eq!(effects, vec![Effect::FocusPane { pane: 0 }]);
    // The right key, with nothing to its left: not consumed, nothing
    // changed.
    let before_tabs = ws.tabs.tabs[0].focus.clone();
    let (consumed, effects) = ws.handle_key(&left, MOD_ALT);
    assert!(!consumed);
    assert!(effects.is_empty());
    assert_eq!(ws.tabs.tabs[0].focus, before_tabs);
    // And back to the right.
    let (consumed, effects) = ws.handle_key(&right, MOD_ALT);
    assert!(consumed);
    assert_eq!(effects, vec![Effect::FocusPane { pane: 1 }]);
}

#[test]
fn rename_with_blank_text_keeps_the_title() {
    // Renaming the active tab to white space leaves the title unchanged.
    let mut ws = workspace();
    let (consumed, effects) = ws.handle_key(&letter('R'), MOD_CONTROL | MOD_SHIFT);
    assert!(consumed);
    assert_eq!(effects, vec![Effect::OpenRenameDialog]);
    ws.rename_active("  ");
    assert_eq!(ws.tabs.tabs[0].title, "Terminal 1");
    ws.rename_active(" logs ");
    assert_eq!(ws.tabs.tabs[0].title, " logs ");
}

#[test]
fn reload_with_short_palette_keeps_prior_colors() {
    // A reload whose theme has a fifteen-entry palette is rejected
    // whole: the prior theme stays in force.
    let mut ws = workspace();
    let good = theme_from_raw(&raw_theme(16)).unwrap();
    ws.apply_reload(default_config("/bin/sh".to_string()), Some(good));
    assert_eq!(
        ws.theme.as_ref().unwrap().background,
        Rgb { red: 0x10, green: 0x10, blue: 0x10 }
    );
    let rejected = theme_from_raw(&raw_theme(15));
    assert!(rejected.is_none());
    let (consumed, effects) = ws.handle_key(&letter('L'), MOD_CONTROL | MOD_SHIFT);
    assert!(consumed);
    assert_eq!(effects, vec![Effect::ReloadRequested]);
    ws.apply_reload(default_config("/bin/sh".to_string()), rejected);
    assert_eq!(
        ws.theme.as_ref().unwrap().background,
        Rgb { red: 0x10, green: 0x10, blue: 0x10 }
    );
}

#[test]
fn close_tab_releases_all_its_sessions() {
    let mut ws = workspace();
    ws.handle_key(&letter('P'), MOD_CONTROL | MOD_SHIFT);
    ws.handle_key(&letter('T'), MOD_CONTROL | MOD_SHIFT);
    // Tab 0 holds panes 0 and 1; tab 1 holds pane 2 and is active.
    ws.tabs.switch(0);
    let (consumed, effects) = ws.handle_key(&letter('W'), MOD_CONTROL | MOD_SHIFT);
    assert!(consumed);
    assert_eq!(
        effects,
        vec![
            Effect::CloseSession { pane: 0 },
            Effect::CloseSession { pane: 1 },
            Effect::FocusPane { pane: 2 },
        ]
    );
    assert_eq!(ws.tabs.tabs.len(), 1);
    assert_eq!(ws.tabs.active, 0);
}

#[test]
fn closing_the_last_panel_of_the_last_tab_closes_the_window() {
    let mut ws = workspace();
    let (consumed, effects) = ws.handle_key(&letter('D'), MOD_CONTROL);
    assert!(consumed);
    assert_eq!(effects, vec![Effect::CloseWindow]);
    assert_eq!(ws.tabs.tabs.len(), 1);
}

#[test]
fn closing_the_last_panel_of_another_tab_closes_that_tab() {
    let mut ws = workspace();
    ws.handle_key(&letter('T'), MOD_CONTROL | MOD_SHIFT);
    let (consumed, effects) = ws.handle_key(&letter('D'), MOD_CONTROL);
    assert!(consumed);
    assert_eq!(
        effects,
        vec![Effect::CloseSession { pane: 1 }, Effect::FocusPane { pane: 0 }]
    );
    assert_eq!(ws.tabs.tabs.len(), 1);
    assert_eq!(ws.tabs.tabs[0].tree, PaneTree::Leaf { pane: 0 });
}

#[test]
fn tab_switch_chords_are_bounded() {
    let mut ws = workspace();
    ws.handle_key(&letter('T'), MOD_CONTROL | MOD_SHIFT);
    let one = arrow(0x31, "1");
    let three = arrow(0x33, "3");
    let (consumed, effects) = ws.handle_key(&one, MOD_ALT);
    assert!(consumed);
    assert_eq!(effects, vec![Effect::FocusPane { pane: 0 }]);
    assert_eq!(ws.tabs.active, 0);
    // A switch chord beyond the last tab is left unconsumed.
    let (consumed, effects) = ws.handle_key(&three, MOD_ALT);
    assert!(!consumed);
    assert!(effects.is_empty());
    assert_eq!(ws.tabs.active, 0);
}

#[test]
fn copy_paste_and_keybindings_chords() {
    let mut ws = workspace();
    let (consumed, effects) = ws.handle_key(&letter('C'), MOD_CONTROL | MOD_SHIFT);
    assert!(consumed);
    assert_eq!(effects, vec![Effect::CopySelection]);
    let (consumed, effects) = ws.handle_key(&letter('V'), MOD_CONTROL | MOD_SHIFT);
    assert!(consumed);
    assert_eq!(effects, vec![Effect::PasteClipboard]);
    let (consumed, effects) = ws.handle_key(&letter('K'), MOD_CONTROL | MOD_SHIFT);
    assert!(consumed);
    assert_eq!(effects, vec![Effect::OpenKeybindingsDialog]);
}

#[test]
fn unset_binding_is_ignored_but_the_table_still_works() {
    // A configured binding whose key never resolved is unset: its chord
    // no longer exists, so its event passes through, while every other
    // binding keeps working.
    let mut ws = workspace();
    ws.config.keybindings.merge(termilyon::keys::BindingUpdates {
        new_tab: termilyon::keys::BindingUpdate::Unset,
        close_tab: termilyon::keys::BindingUpdate::Absent,
        rename_tab: termilyon::keys::BindingUpdate::Absent,
        close_panel: termilyon::keys::BindingUpdate::Absent,
        split_vertical: termilyon::keys::BindingUpdate::Absent,
        split_horizontal: termilyon::keys::BindingUpdate::Absent,
        copy: termilyon::keys::BindingUpdate::Absent,
        paste: termilyon::keys::BindingUpdate::Absent,
        reload_config: termilyon::keys::BindingUpdate::Absent,
        show_keybindings: termilyon::keys::BindingUpdate::Absent,
        focus_left: termilyon::keys::BindingUpdate::Absent,
        focus_right: termilyon::keys::BindingUpdate::Absent,
        focus_up: termilyon::keys::BindingUpdate::Absent,
        focus_down: termilyon::keys::BindingUpdate::Absent,
        tab_switch: vec![],
    });
    let (consumed, effects) = ws.handle_key(&letter('T'), MOD_CONTROL | MOD_SHIFT);
    assert!(!consumed);
    assert!(effects.is_empty());
    assert_eq!(ws.tabs.tabs.len(), 1);
    let (consumed, _) = ws.handle_key(&letter('P'), MOD_CONTROL | MOD_SHIFT);
    assert!(consumed);
}

#[test]
fn unbound_keys_are_not_consumed() {
    let mut ws = workspace();
    let (consumed, effects) = ws.handle_key(&letter('Q'), MOD_CONTROL);
    assert!(!consumed);
    assert!(effects.is_empty());
    // The right key with the wrong modifiers is the wrong key.
    let (consumed, _) = ws.handle_key(&letter('T'), MOD_CONTROL);
    assert!(!consumed);
}

#[test]
fn session_exit_closes_the_leaf_that_held_it() {
    let mut ws = workspace();
    ws.handle_key(&letter('P'), MOD_CONTROL | MOD_SHIFT);
    // Panes [0 | 1], 1 focused.  Pane 0's shell exits on its own.
    let effects = ws.handle_session_exit(0);
    assert_eq!(
        effects,
        vec![Effect::CloseSession { pane: 0 }, Effect::FocusPane { pane: 1 }]
    );
    assert_eq!(ws.tabs.tabs[0].tree, PaneTree::Leaf { pane: 1 });
    // An unknown pane changes nothing.
    let effects = ws.handle_session_exit(42);
    assert!(effects.is_empty());
}

#[test]
fn session_exit_in_a_background_tab() {
    let mut ws = workspace();
    ws.handle_key(&letter('T'), MOD_CONTROL | MOD_SHIFT);
    // Tab 0 (pane 0) is in the background; its shell exits: that tab is
    // torn down, not the active one.
    let effects = ws.handle_session_exit(0);
    assert_eq!(
        effects,
        vec![Effect::CloseSession { pane: 0 }, Effect::FocusPane { pane: 1 }]
    );
    assert_eq!(ws.tabs.tabs.len(), 1);
    assert_eq!(ws.tabs.tabs[0].tree, PaneTree::Leaf { pane: 1 });
}

#[test]
fn vertical_splits_answer_up_and_down() {
    let mut ws = workspace();
    let (consumed, _) = ws.handle_key(&letter('H'), MOD_CONTROL | MOD_SHIFT);
    assert!(consumed);
    let up = arrow(0xff52, "Up");
    let down = arrow(0xff54, "Down");
    let (consumed, effects) = ws.handle_key(&up, MOD_ALT);
    assert!(consumed);
    assert_eq!(effects, vec![Effect::FocusPane { pane: 0 }]);
    let (consumed, effects) = ws.handle_key(&down, MOD_ALT);
    assert!(consumed);
    assert_eq!(effects, vec![Effect::FocusPane { pane: 1 }]);
    // Left and right find no horizontal ancestor here.
    let left = arrow(0xff51, "Left");
    let (consumed, _) = ws.handle_key(&left, MOD_ALT);
    assert!(!consumed);
}
