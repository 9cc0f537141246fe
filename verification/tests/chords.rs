use termilyon::keys::{
    binding_rows, chord_from_scan, default_bindings, format_chord, scan_chord, BindingUpdate,
    BindingUpdates, Chord, KeySym, MOD_ALT, MOD_CONTROL, MOD_SHIFT, MOD_SUPER,
};

fn letter(upper: char, name: &str) -> KeySym {
    let code = upper as u32;
    KeySym { code, lower: code + 32, upper: code, name: name.to_string() }
}

fn caseless(code: u32, name: &str) -> KeySym {
    KeySym { code, lower: code, upper: code, name: name.to_string() }
}

fn chars(s: &str) -> Vec<char> {
    s.chars().collect()
}

#[test]
fn scan_splits_modifiers_and_key() {
    let (mods, keys) = scan_chord("Ctrl+Shift+T");
    assert_eq!(mods, MOD_CONTROL | MOD_SHIFT);
    assert_eq!(keys, vec![chars("T")]);
}

#[test]
fn scan_accepts_modifier_synonyms() {
    let (mods, keys) = scan_chord("control+WIN+x");
    assert_eq!(mods, MOD_CONTROL | MOD_SUPER);
    assert_eq!(keys, vec![chars("x")]);
    let (mods, keys) = scan_chord("Option+Meta+Left");
    assert_eq!(mods, MOD_ALT | MOD_SUPER);
    assert_eq!(keys, vec![chars("Left")]);
}

#[test]
fn scan_trims_and_skips_empty_tokens() {
    let (mods, keys) = scan_chord(" ctrl + +shift+ ");
    assert_eq!(mods, MOD_CONTROL | MOD_SHIFT);
    assert_eq!(keys, Vec::<Vec<char>>::new());
}

#[test]
fn scan_keeps_all_key_candidates_in_order() {
    let (mods, keys) = scan_chord("ctrl+a+b");
    assert_eq!(mods, MOD_CONTROL);
    assert_eq!(keys, vec![chars("a"), chars("b")]);
}

#[test]
fn last_resolving_key_token_wins() {
    let a = letter('A', "A");
    let b = letter('B', "B");
    let chord = chord_from_scan(MOD_CONTROL, vec![Some(a), Some(b)]).unwrap();
    assert_eq!(chord.sym.code, 'B' as u32);
    let chord = chord_from_scan(MOD_CONTROL, vec![Some(letter('A', "A")), None]).unwrap();
    assert_eq!(chord.sym.code, 'A' as u32);
}

#[test]
fn unresolved_chord_is_unset() {
    // A binding whose key never resolves yields no chord at all, so it
    // can never match.
    assert!(chord_from_scan(MOD_CONTROL, vec![None, None]).is_none());
    assert!(chord_from_scan(MOD_CONTROL, vec![]).is_none());
}

#[test]
fn matching_is_exact_on_modifiers() {
    // A chord requiring Control must not match when Shift is also held,
    // and must match regardless of lock-key state.
    let chord = Chord { sym: letter('D', "D"), mods: MOD_CONTROL };
    let event = letter('D', "D");
    assert!(chord.matches(&event, MOD_CONTROL));
    assert!(!chord.matches(&event, MOD_CONTROL | MOD_SHIFT));
    assert!(!chord.matches(&event, 0));
    let lock_bit = 0x2; // caps lock, outside the four recognized bits
    assert!(chord.matches(&event, MOD_CONTROL | lock_bit));
}

#[test]
fn matching_is_case_invariant_on_the_key() {
    // `a` and `A` both satisfy a binding on `a`.
    let chord = Chord { sym: letter('A', "A"), mods: MOD_CONTROL };
    let lower = KeySym { code: 'a' as u32, lower: 'a' as u32, upper: 'A' as u32, name: "a".to_string() };
    let upper = letter('A', "A");
    assert!(chord.matches(&lower, MOD_CONTROL));
    assert!(chord.matches(&upper, MOD_CONTROL));
    let other = letter('B', "B");
    assert!(!chord.matches(&other, MOD_CONTROL));
}

#[test]
fn format_shows_modifiers_in_fixed_order() {
    let chord = Chord {
        sym: letter('T', "T"),
        mods: MOD_CONTROL | MOD_SHIFT | MOD_ALT | MOD_SUPER,
    };
    assert_eq!(format_chord(&chord), "Ctrl+Shift+Alt+Super+T");
}

#[test]
fn format_uppercases_single_character_names() {
    let chord = Chord {
        sym: KeySym { code: 'a' as u32, lower: 'a' as u32, upper: 'A' as u32, name: "a".to_string() },
        mods: MOD_CONTROL,
    };
    assert_eq!(format_chord(&chord), "Ctrl+A");
    let chord = Chord { sym: caseless(0xff51, "Left"), mods: MOD_ALT };
    assert_eq!(format_chord(&chord), "Alt+Left");
}

#[test]
fn default_table_bindings() {
    let kb = default_bindings();
    let new_tab = kb.new_tab.as_ref().unwrap();
    assert_eq!(new_tab.sym.code, 'T' as u32);
    assert_eq!(new_tab.mods, MOD_CONTROL | MOD_SHIFT);
    let close_panel = kb.close_panel.as_ref().unwrap();
    assert_eq!(close_panel.sym.code, 'D' as u32);
    assert_eq!(close_panel.mods, MOD_CONTROL);
    let focus_left = kb.focus_left.as_ref().unwrap();
    assert_eq!(focus_left.sym.code, 0xff51);
    assert_eq!(focus_left.mods, MOD_ALT);
    assert_eq!(kb.tab_switch.len(), 9);
    assert_eq!(kb.tab_switch[0].as_ref().unwrap().sym.code, 0x31);
    assert_eq!(kb.tab_switch[8].as_ref().unwrap().sym.code, 0x39);
    assert_eq!(kb.tab_switch[8].as_ref().unwrap().sym.name, "9");
    assert_eq!(format_chord(new_tab), "Ctrl+Shift+T");
    assert_eq!(format_chord(kb.tab_switch[2].as_ref().unwrap()), "Alt+3");
}

#[test]
fn merge_replaces_unsets_and_keeps_bindings() {
    let mut kb = default_bindings();
    let ups = BindingUpdates {
        new_tab: BindingUpdate::Bind(Chord { sym: letter('N', "N"), mods: MOD_SUPER }),
        close_tab: BindingUpdate::Absent,
        rename_tab: BindingUpdate::Absent,
        close_panel: BindingUpdate::Unset,
        split_vertical: BindingUpdate::Absent,
        split_horizontal: BindingUpdate::Absent,
        copy: BindingUpdate::Absent,
        paste: BindingUpdate::Absent,
        reload_config: BindingUpdate::Absent,
        show_keybindings: BindingUpdate::Absent,
        focus_left: BindingUpdate::Absent,
        focus_right: BindingUpdate::Absent,
        focus_up: BindingUpdate::Absent,
        focus_down: BindingUpdate::Absent,
        tab_switch: vec![
            BindingUpdate::Absent,
            BindingUpdate::Unset,
            BindingUpdate::Bind(Chord { sym: letter('Z', "Z"), mods: MOD_ALT }),
        ],
    };
    kb.merge(ups);
    // A configured chord replaces its binding.
    assert_eq!(kb.new_tab.as_ref().unwrap().sym.code, 'N' as u32);
    assert_eq!(kb.new_tab.as_ref().unwrap().mods, MOD_SUPER);
    // An absent binding keeps the previous chord.
    assert_eq!(kb.close_tab.as_ref().unwrap().sym.code, 'W' as u32);
    // A binding whose key never resolved becomes unset; the rest of the
    // table still stands.
    assert!(kb.close_panel.is_none());
    assert!(kb.tab_switch[1].is_none());
    assert_eq!(kb.tab_switch[2].as_ref().unwrap().sym.code, 'Z' as u32);
    assert_eq!(kb.tab_switch[0].as_ref().unwrap().sym.code, 0x31);
    assert_eq!(kb.tab_switch[8].as_ref().unwrap().sym.code, 0x39);
}

#[test]
fn unset_binding_never_matches() {
    let mut kb = default_bindings();
    kb.merge(BindingUpdates {
        new_tab: BindingUpdate::Unset,
        close_tab: BindingUpdate::Absent,
        rename_tab: BindingUpdate::Absent,
        close_panel: BindingUpdate::Absent,
        split_vertical: BindingUpdate::Absent,
        split_horizontal: BindingUpdate::Absent,
        copy: BindingUpdate::Absent,
        paste: BindingUpdate::Absent,
        reload_config: BindingUpdate::Absent,
        show_keybindings: BindingUpdate::Absent,
        focus_left: BindingUpdate::Absent,
        focus_right: BindingUpdate::Absent,
        focus_up: BindingUpdate::Absent,
        focus_down: BindingUpdate::Absent,
        tab_switch: vec![],
    });
    assert!(kb.new_tab.is_none());
    let event = letter('T', "T");
    assert!(!termilyon::keys::binding_matches(&kb.new_tab, &event, MOD_CONTROL | MOD_SHIFT));
    // The rest of the table still loads.
    assert!(termilyon::keys::binding_matches(
        &kb.close_tab,
        &letter('W', "W"),
        MOD_CONTROL | MOD_SHIFT
    ));
}

#[test]
fn binding_rows_project_the_table() {
    let kb = default_bindings();
    let rows = binding_rows(&kb);
    assert_eq!(rows.len(), 23);
    assert_eq!(rows[0], ("New tab".to_string(), "Ctrl+Shift+T".to_string()));
    assert_eq!(rows[3], ("Close panel".to_string(), "Ctrl+D".to_string()));
    assert_eq!(rows[10], ("Focus left".to_string(), "Alt+Left".to_string()));
    assert_eq!(rows[14], ("Switch tab 1".to_string(), "Alt+1".to_string()));
    assert_eq!(rows[22], ("Switch tab 9".to_string(), "Alt+9".to_string()));
}
