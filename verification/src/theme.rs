//! Color themes: hex color fields and the sixteen-entry palette.
//!
//! A raw theme carries the color fields as text.  Building a theme
//! validates the palette: anything but exactly sixteen entries rejects
//! the whole theme, so a theme is applied completely or not at all.

use vstd::prelude::*;

use crate::text::str_chars;

verus! {

/// A color with eight-bit channels.
#[derive(Clone, Copy, Debug, PartialEq, Eq, Structural)]
pub struct Rgb {
    pub red: u8,
    pub green: u8,
    pub blue: u8,
}

/// A validated theme: the three base colors, exactly sixteen palette
/// entries, and optional tab colors.
pub struct Theme {
    pub background: Rgb,
    pub foreground: Rgb,
    pub cursor: Rgb,
    pub palette: Vec<Rgb>,
    pub tab_active_bg: Option<Rgb>,
    pub tab_active_fg: Option<Rgb>,
    pub tab_inactive_bg: Option<Rgb>,
    pub tab_inactive_fg: Option<Rgb>,
}

impl Theme {
    /// A well-formed theme has exactly sixteen palette colors.
    pub open spec fn wf(self) -> bool {
        self.palette@.len() == 16
    }
}

/// A theme as read from a file, colors still text.
pub struct RawTheme {
    pub background: String,
    pub foreground: String,
    pub cursor: String,
    pub palette: Vec<String>,
    pub tab_active_bg: Option<String>,
    pub tab_active_fg: Option<String>,
    pub tab_inactive_bg: Option<String>,
    pub tab_inactive_fg: Option<String>,
}

/// Is the character a hexadecimal digit?
pub open spec fn is_hex_digit(c: char) -> bool {
    ('0' <= c && c <= '9') || ('a' <= c && c <= 'f') || ('A' <= c && c <= 'F')
}

/// The value of a hexadecimal digit (zero for anything else).
pub open spec fn hex_val(c: char) -> u8 {
    if '0' <= c && c <= '9' {
        ((c as u8) - 48) as u8
    } else if 'a' <= c && c <= 'f' {
        ((c as u8) - 87) as u8
    } else if 'A' <= c && c <= 'F' {
        ((c as u8) - 55) as u8
    } else {
        0
    }
}

/// The channel value of a two-character field: two hex digits read in
/// base sixteen; a plus sign before a single digit also reads (as the
/// standard integer parser does); anything else reads as zero.
pub open spec fn hex_pair(c0: char, c1: char) -> u8 {
    if is_hex_digit(c0) && is_hex_digit(c1) {
        (16 * hex_val(c0) + hex_val(c1)) as u8
    } else if c0 == '+' && is_hex_digit(c1) {
        hex_val(c1)
    } else {
        0
    }
}

/// The text with every leading `#` removed.
pub open spec fn strip_hashes(s: Seq<char>) -> Seq<char>
    decreases s.len(),
{
    if s.len() > 0 && s[0] == '#' {
        strip_hashes(s.drop_first())
    } else {
        s
    }
}

/// The color a text field denotes: after the leading `#`s, exactly six
/// characters read as three channel pairs; any other length is black.
pub open spec fn color_of(s: Seq<char>) -> Rgb {
    let h = strip_hashes(s);
    if h.len() == 6 {
        Rgb { red: hex_pair(h[0], h[1]), green: hex_pair(h[2], h[3]), blue: hex_pair(h[4], h[5]) }
    } else {
        Rgb { red: 0, green: 0, blue: 0 }
    }
}

/// Stripping leading hash signs keeps the suffix at the first other
/// character.
proof fn lemma_strip_hashes_at(s: Seq<char>, i: int)
    requires
        0 <= i <= s.len(),
        forall|j: int| 0 <= j < i ==> s[j] == '#',
        i == s.len() || s[i] != '#',
    ensures
        strip_hashes(s) == s.skip(i),
    decreases i,
{
    if i == 0 {
        assert(s.skip(0) =~= s);
    } else {
        lemma_strip_hashes_at(s.drop_first(), i - 1);
        assert(s.drop_first().skip(i - 1) =~= s.skip(i));
    }
}

/// The value of one hex digit character.
fn hex_digit_val(c: char) -> (r: (bool, u8))
    ensures
        r.0 == is_hex_digit(c),
        r.1 == hex_val(c),
{
    let v = c as u32;
    if 48 <= v && v <= 57 {
        (true, (v - 48) as u8)
    } else if 97 <= v && v <= 102 {
        (true, (v - 87) as u8)
    } else if 65 <= v && v <= 70 {
        (true, (v - 55) as u8)
    } else {
        (false, 0)
    }
}

/// Read one channel from two characters.
fn parse_pair(c0: char, c1: char) -> (r: u8)
    ensures
        r == hex_pair(c0, c1),
{
    let (ok0, v0) = hex_digit_val(c0);
    let (ok1, v1) = hex_digit_val(c1);
    if ok0 && ok1 {
        16 * v0 + v1
    } else if c0 == '+' && ok1 {
        v1
    } else {
        0
    }
}

/// Parse a hex color field such as `#1e1e2e`; malformed fields read as
/// black or black channels rather than failing.
pub fn parse_color(s: &str) -> (c: Rgb)
    ensures
        c == color_of(s@),
{
    let chars = str_chars(s);
    let n = chars.len();
    let mut start: usize = 0;
    while start < n && chars[start] == '#'
        invariant
            0 <= start <= n == chars@.len(),
            chars@ == s@,
            forall|j: int| 0 <= j < start ==> s@[j] == '#',
        decreases n - start,
    {
        start = start + 1;
    }
    proof {
        lemma_strip_hashes_at(s@, start as int);
    }
    if n - start == 6 {
        proof {
            assert forall|k: int| 0 <= k < 6 implies s@.skip(start as int)[k] == s@[start + k] by {}
        }
        let red = parse_pair(chars[start], chars[start + 1]);
        let green = parse_pair(chars[start + 2], chars[start + 3]);
        let blue = parse_pair(chars[start + 4], chars[start + 5]);
        Rgb { red, green, blue }
    } else {
        Rgb { red: 0, green: 0, blue: 0 }
    }
}

/// The color an optional field denotes.
pub open spec fn opt_color_of(o: Option<String>) -> Option<Rgb> {
    match o {
        Some(s) => Some(color_of(s@)),
        None => None,
    }
}

/// Parse an optional color field.
fn parse_opt_color(o: &Option<String>) -> (r: Option<Rgb>)
    ensures
        r == opt_color_of(*o),
{
    match o {
        Some(s) => Some(parse_color(s.as_str())),
        None => None,
    }
}

/// Validate and parse a palette: exactly sixteen entries, each a color
/// field; any other length rejects the palette.
pub fn parse_palette(values: &Vec<String>) -> (r: Option<Vec<Rgb>>)
    ensures
        (r is Some) == (values@.len() == 16),
        r is Some ==> r.unwrap()@.len() == 16 && forall|i: int|
            0 <= i < 16 ==> #[trigger] r.unwrap()@[i] == color_of(values@[i]@),
{
    if values.len() != 16 {
        return None;
    }
    let mut colors: Vec<Rgb> = Vec::new();
    let mut i: usize = 0;
    while i < 16
        invariant
            0 <= i <= 16,
            values@.len() == 16,
            colors@.len() == i,
            forall|j: int| 0 <= j < i ==> #[trigger] colors@[j] == color_of(values@[j]@),
        decreases 16 - i,
    {
        colors.push(parse_color(values[i].as_str()));
        i = i + 1;
    }
    Some(colors)
}

/// Build a theme from its raw form.  A palette whose length is not
/// sixteen rejects the whole theme: no partial application.
pub fn theme_from_raw(raw: &RawTheme) -> (r: Option<Theme>)
    ensures
        (r is Some) == (raw.palette@.len() == 16),
        r is Some ==> ({
            let t = r.unwrap();
            &&& t.wf()
            &&& t.background == color_of(raw.background@)
            &&& t.foreground == color_of(raw.foreground@)
            &&& t.cursor == color_of(raw.cursor@)
            &&& forall|i: int| 0 <= i < 16 ==> #[trigger] t.palette@[i] == color_of(
                raw.palette@[i]@,
            )
            &&& t.tab_active_bg == opt_color_of(raw.tab_active_bg)
            &&& t.tab_active_fg == opt_color_of(raw.tab_active_fg)
            &&& t.tab_inactive_bg == opt_color_of(raw.tab_inactive_bg)
            &&& t.tab_inactive_fg == opt_color_of(raw.tab_inactive_fg)
        }),
{
    let palette = match parse_palette(&raw.palette) {
        Some(p) => p,
        None => {
            return None;
        },
    };
    Some(
        Theme {
            background: parse_color(raw.background.as_str()),
            foreground: parse_color(raw.foreground.as_str()),
            cursor: parse_color(raw.cursor.as_str()),
            palette,
            tab_active_bg: parse_opt_color(&raw.tab_active_bg),
            tab_active_fg: parse_opt_color(&raw.tab_active_fg),
            tab_inactive_bg: parse_opt_color(&raw.tab_inactive_bg),
            tab_inactive_fg: parse_opt_color(&raw.tab_inactive_fg),
        },
    )
}

} // verus!
