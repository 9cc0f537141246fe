use termilyon::config::{default_config, load_config, parse_tab_bar_position, RawConfig, TabBarPosition};
use termilyon::tabs::TabSet;
use termilyon::text::{trim_str, u64_dec};
use termilyon::theme::{parse_color, parse_palette, theme_from_raw, RawTheme, Rgb};
use termilyon::tree::PaneTree;

fn raw_config_empty() -> RawConfig {
    RawConfig {
        scrollback_lines: None,
        font: None,
        font_size: None,
        shell: None,
        tab_title: None,
        tab_bar_position: None,
        theme_file: None,
        keybindings: None,
    }
}

fn raw_theme(palette_len: usize) -> RawTheme {
    RawTheme {
        background: "#1e1e2e".to_string(),
        foreground: "#cdd6f4".to_string(),
        cursor: "#f5e0dc".to_string(),
        palette: (0..palette_len).map(|_| "#000000".to_string()).collect(),
        tab_active_bg: Some("#313244".to_string()),
        tab_active_fg: None,
        tab_inactive_bg: None,
        tab_inactive_fg: None,
    }
}

#[test]
fn decimal_formatting() {
    assert_eq!(u64_dec(0), "0");
    assert_eq!(u64_dec(7), "7");
    assert_eq!(u64_dec(1234), "1234");
    assert_eq!(u64_dec(1000000), "1000000");
}

#[test]
fn trimming_removes_unicode_white_space() {
    assert_eq!(trim_str("  spaced  "), "spaced");
    assert_eq!(trim_str("\t\n x \u{a0}\u{3000}"), "x");
    assert_eq!(trim_str("   "), "");
    assert_eq!(trim_str("a b"), "a b");
}

#[test]
fn new_tab_titles_use_the_counter() {
    let mut ts = TabSet::new("Terminal");
    assert_eq!(ts.tabs[0].title, "Terminal 1");
    ts.new_tab("Terminal");
    assert_eq!(ts.tabs[1].title, "Terminal 2");
    assert_eq!(ts.active, 1);
}

#[test]
fn counter_is_never_reused_after_closures() {
    // Default titles stay stable across the session even after closures.
    let mut ts = TabSet::new("Terminal");
    ts.new_tab("Terminal");
    ts.new_tab("Terminal");
    ts.close_tab(1, "Terminal");
    ts.new_tab("Terminal");
    assert_eq!(ts.tabs[2].title, "Terminal 4");
}

#[test]
fn close_tab_refocuses_the_tab_before() {
    let mut ts = TabSet::new("Terminal");
    ts.new_tab("Terminal");
    ts.new_tab("Terminal");
    ts.close_tab(1, "Terminal");
    assert_eq!(ts.tabs.len(), 2);
    assert_eq!(ts.active, 0);
    let mut ts = TabSet::new("Terminal");
    ts.new_tab("Terminal");
    ts.close_tab(0, "Terminal");
    assert_eq!(ts.active, 0);
}

#[test]
fn closing_the_last_tab_recreates_a_default_tab() {
    let mut ts = TabSet::new("Terminal");
    ts.close_tab(0, "Terminal");
    assert_eq!(ts.tabs.len(), 1);
    assert_eq!(ts.active, 0);
    assert_eq!(ts.tabs[0].title, "Terminal 2");
    assert_eq!(ts.tabs[0].tree, PaneTree::Leaf { pane: 1 });
}

#[test]
fn switch_out_of_range_is_a_no_op() {
    // switch(i) for out-of-range i leaves the active index unchanged.
    let mut ts = TabSet::new("Terminal");
    ts.new_tab("Terminal");
    assert_eq!(ts.active, 1);
    ts.switch(5);
    assert_eq!(ts.active, 1);
    ts.switch(0);
    assert_eq!(ts.active, 0);
}

#[test]
fn rename_stores_text_verbatim_and_ignores_blank_text() {
    let mut ts = TabSet::new("Terminal");
    ts.rename(0, "  build  ");
    assert_eq!(ts.tabs[0].title, "  build  ");
    ts.rename(0, "   ");
    assert_eq!(ts.tabs[0].title, "  build  ");
    ts.rename(7, "other");
    assert_eq!(ts.tabs[0].title, "  build  ");
    ts.rename(0, "build");
    assert_eq!(ts.tabs[0].title, "build");
}

#[test]
fn default_config_values() {
    let c = default_config("/bin/zsh".to_string());
    assert_eq!(c.scrollback_lines, 10000);
    assert_eq!(c.font, "Fira Code 12");
    assert_eq!(c.font_size, 12);
    assert_eq!(c.shell, "/bin/zsh");
    assert_eq!(c.tab_title, "Terminal");
    assert_eq!(c.tab_bar_position, TabBarPosition::Top);
    assert!(c.theme_file.is_none());
}

#[test]
fn merge_keeps_defaults_for_absent_fields() {
    // Partial fields merge over the defaults, never blanking them.
    let mut raw = raw_config_empty();
    raw.font = Some("Iosevka 11".to_string());
    raw.tab_bar_position = Some("bottom".to_string());
    let c = load_config("/bin/sh".to_string(), Some(raw));
    assert_eq!(c.font, "Iosevka 11");
    assert_eq!(c.tab_bar_position, TabBarPosition::Bottom);
    assert_eq!(c.scrollback_lines, 10000);
    assert_eq!(c.tab_title, "Terminal");
}

#[test]
fn merge_ignores_bad_position_values() {
    let mut raw = raw_config_empty();
    raw.tab_bar_position = Some("sideways".to_string());
    let c = load_config("/bin/sh".to_string(), Some(raw));
    assert_eq!(c.tab_bar_position, TabBarPosition::Top);
}

#[test]
fn tab_bar_position_parsing() {
    assert_eq!(parse_tab_bar_position("top"), Some(TabBarPosition::Top));
    assert_eq!(parse_tab_bar_position(" BOTTOM "), Some(TabBarPosition::Bottom));
    assert_eq!(parse_tab_bar_position("Top"), Some(TabBarPosition::Top));
    assert_eq!(parse_tab_bar_position("side"), None);
    assert_eq!(parse_tab_bar_position(""), None);
}

#[test]
fn hex_color_parsing() {
    assert_eq!(parse_color("#1e1e2e"), Rgb { red: 0x1e, green: 0x1e, blue: 0x2e });
    assert_eq!(parse_color("ffffff"), Rgb { red: 255, green: 255, blue: 255 });
    assert_eq!(parse_color("#FFA500"), Rgb { red: 255, green: 165, blue: 0 });
    // Malformed fields read as black, or as black channels.
    assert_eq!(parse_color("#fff"), Rgb { red: 0, green: 0, blue: 0 });
    assert_eq!(parse_color(""), Rgb { red: 0, green: 0, blue: 0 });
    assert_eq!(parse_color("zzzz2e"), Rgb { red: 0, green: 0, blue: 0x2e });
}

#[test]
fn palette_must_have_sixteen_entries() {
    // A palette whose length is not sixteen rejects the whole theme.
    let fifteen: Vec<String> = (0..15).map(|_| "#000000".to_string()).collect();
    assert!(parse_palette(&fifteen).is_none());
    let sixteen: Vec<String> = (0..16).map(|_| "#102030".to_string()).collect();
    let colors = parse_palette(&sixteen).unwrap();
    assert_eq!(colors.len(), 16);
    assert_eq!(colors[15], Rgb { red: 0x10, green: 0x20, blue: 0x30 });
    assert!(theme_from_raw(&raw_theme(15)).is_none());
}

#[test]
fn theme_parses_completely_or_not_at_all() {
    let t = theme_from_raw(&raw_theme(16)).unwrap();
    assert_eq!(t.background, Rgb { red: 0x1e, green: 0x1e, blue: 0x2e });
    assert_eq!(t.cursor, Rgb { red: 0xf5, green: 0xe0, blue: 0xdc });
    assert_eq!(t.palette.len(), 16);
    assert_eq!(t.tab_active_bg, Some(Rgb { red: 0x31, green: 0x32, blue: 0x44 }));
    assert_eq!(t.tab_active_fg, None);
}
