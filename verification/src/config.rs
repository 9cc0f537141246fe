//! Configuration: ambient settings merged from optional raw fields over
//! built-in defaults.
//!
//! A raw configuration carries one `Option` per setting; merging replaces
//! only the present fields, so a partial or absent file never blanks a
//! default.  The merged value is swapped in atomically on reload.  The
//! host reads the file and decodes it into `RawConfig`; the rules of
//! merging live here.

use vstd::prelude::*;

use crate::keys::BindingUpdates;
use crate::keys::KeyBindings;
use crate::keys::default_bindings;
use crate::keys::is_default_bindings;
use crate::keys::merged_bindings;
use crate::text::kw_matches;
use crate::text::lower_seq;
use crate::text::str_chars;
use crate::text::trim_chars;
use crate::text::trimmed;

verus! {

/// Where the tab bar sits.
#[derive(Clone, Copy, Debug, PartialEq, Eq, Structural)]
pub enum TabBarPosition {
    Top,
    Bottom,
}

/// The ambient configuration of the multiplexer.
pub struct Config {
    pub scrollback_lines: i32,
    pub font: String,
    pub font_size: i32,
    pub shell: String,
    pub tab_title: String,
    pub tab_bar_position: TabBarPosition,
    pub theme_file: Option<String>,
    pub keybindings: KeyBindings,
}

impl Config {
    /// A well-formed configuration carries a well-formed command table.
    pub open spec fn wf(self) -> bool {
        self.keybindings.wf()
    }
}

/// A configuration as read from a file: every field optional, key
/// bindings already parsed by the host into one update per binding
/// (absent, unset, or a chord).
pub struct RawConfig {
    pub scrollback_lines: Option<i32>,
    pub font: Option<String>,
    pub font_size: Option<i32>,
    pub shell: Option<String>,
    pub tab_title: Option<String>,
    pub tab_bar_position: Option<String>,
    pub theme_file: Option<String>,
    pub keybindings: Option<BindingUpdates>,
}

/// What a tab-bar position field means: `top` or `bottom`, ignoring case
/// and surrounding white space; anything else means nothing.
pub open spec fn tab_bar_position_of(s: Seq<char>) -> Option<TabBarPosition> {
    let t = lower_seq(trimmed(s));
    if t == "top"@ {
        Some(TabBarPosition::Top)
    } else if t == "bottom"@ {
        Some(TabBarPosition::Bottom)
    } else {
        None
    }
}

/// Parse a tab-bar position field.
pub fn parse_tab_bar_position(value: &str) -> (r: Option<TabBarPosition>)
    ensures
        r == tab_bar_position_of(value@),
{
    proof {
        reveal_strlit("top");
        reveal_strlit("bottom");
        assert(lower_seq("top"@) =~= "top"@);
        assert(lower_seq("bottom"@) =~= "bottom"@);
    }
    let chars = str_chars(value);
    let t = trim_chars(&chars);
    if kw_matches(&t, "top") {
        Some(TabBarPosition::Top)
    } else if kw_matches(&t, "bottom") {
        Some(TabBarPosition::Bottom)
    } else {
        None
    }
}

/// The built-in defaults: ten thousand scrollback lines, Fira Code at
/// size twelve, the host-supplied shell, `Terminal` as the title
/// template, the tab bar on top, no theme file, and the default command
/// table.
pub fn default_config(shell: String) -> (c: Config)
    ensures
        c.wf(),
        c.scrollback_lines == 10000,
        c.font@ == "Fira Code 12"@,
        c.font_size == 12,
        c.shell@ == shell@,
        c.tab_title@ == "Terminal"@,
        c.tab_bar_position == TabBarPosition::Top,
        c.theme_file is None,
        is_default_bindings(c.keybindings),
{
    Config {
        scrollback_lines: 10000,
        font: "Fira Code 12".to_owned(),
        font_size: 12,
        shell,
        tab_title: "Terminal".to_owned(),
        tab_bar_position: TabBarPosition::Top,
        theme_file: None,
        keybindings: default_bindings(),
    }
}

/// How a configuration changes under a raw file: present fields replace,
/// absent fields keep the previous value; a position field that parses
/// replaces the position, one that does not is ignored; binding updates
/// merge chord by chord.
pub open spec fn merged_config(pre: Config, raw: RawConfig, post: Config) -> bool {
    &&& post.scrollback_lines == if raw.scrollback_lines is Some {
        raw.scrollback_lines.unwrap()
    } else {
        pre.scrollback_lines
    }
    &&& post.font == if raw.font is Some {
        raw.font.unwrap()
    } else {
        pre.font
    }
    &&& post.font_size == if raw.font_size is Some {
        raw.font_size.unwrap()
    } else {
        pre.font_size
    }
    &&& post.shell == if raw.shell is Some {
        raw.shell.unwrap()
    } else {
        pre.shell
    }
    &&& post.tab_title == if raw.tab_title is Some {
        raw.tab_title.unwrap()
    } else {
        pre.tab_title
    }
    &&& post.tab_bar_position == (match raw.tab_bar_position {
        Some(s) => match tab_bar_position_of(s@) {
            Some(p) => p,
            None => pre.tab_bar_position,
        },
        None => pre.tab_bar_position,
    })
    &&& post.theme_file == if raw.theme_file is Some {
        raw.theme_file
    } else {
        pre.theme_file
    }
    &&& (match raw.keybindings {
        Some(ups) => merged_bindings(pre.keybindings, ups, post.keybindings),
        None => post.keybindings == pre.keybindings,
    })
}

impl Config {
    /// Merge a raw configuration over this one.
    pub fn merge(&mut self, raw: RawConfig)
        requires
            old(self).wf(),
        ensures
            final(self).wf(),
            merged_config(*old(self), raw, *final(self)),
    {
        let RawConfig {
            scrollback_lines,
            font,
            font_size,
            shell,
            tab_title,
            tab_bar_position,
            theme_file,
            keybindings,
        } = raw;
        if let Some(v) = scrollback_lines {
            self.scrollback_lines = v;
        }
        if let Some(v) = font {
            self.font = v;
        }
        if let Some(v) = font_size {
            self.font_size = v;
        }
        if let Some(v) = shell {
            self.shell = v;
        }
        if let Some(v) = tab_title {
            self.tab_title = v;
        }
        if let Some(v) = tab_bar_position {
            if let Some(p) = parse_tab_bar_position(v.as_str()) {
                self.tab_bar_position = p;
            }
        }
        if let Some(v) = theme_file {
            self.theme_file = Some(v);
        }
        if let Some(ups) = keybindings {
            self.keybindings.merge(ups);
        }
    }
}

/// Build the configuration in force from the built-in defaults and an
/// optional raw file: what the host does on start and on reload.
pub fn load_config(shell: String, raw: Option<RawConfig>) -> (c: Config)
    ensures
        c.wf(),
        raw is None ==> c.scrollback_lines == 10000 && c.font@ == "Fira Code 12"@ && c.font_size
            == 12 && c.shell@ == shell@ && c.tab_title@ == "Terminal"@ && c.tab_bar_position
            == TabBarPosition::Top && c.theme_file is None && is_default_bindings(c.keybindings),
        raw is Some ==> exists|base: Config|
            {
                &&& base.scrollback_lines == 10000
                &&& base.font@ == "Fira Code 12"@
                &&& base.font_size == 12
                &&& base.shell@ == shell@
                &&& base.tab_title@ == "Terminal"@
                &&& base.tab_bar_position == TabBarPosition::Top
                &&& base.theme_file is None
                &&& is_default_bindings(base.keybindings)
                &&& merged_config(base, raw.unwrap(), c)
            },
{
    let mut c = default_config(shell);
    match raw {
        Some(r) => {
            let ghost base = c;
            c.merge(r);
            proof {
                assert(merged_config(base, raw.unwrap(), c));
            }
        },
        None => {},
    }
    c
}

} // verus!
