//! Key symbols, modifier masks and chord matching.
//!
//! A chord is a key plus a set of modifiers.  Matching is exact on the
//! four recognized modifier bits (any other state, such as lock keys, is
//! masked out first) and case/shift-invariant on the key, so a binding on
//! `a` is satisfied by both `a` and `A`.

use vstd::prelude::*;
use vstd::string::StrSliceExecFns;
use vstd::string::StringExecFns;

use crate::text::ascii_upper;
use crate::text::kw_matches;
use crate::text::str_chars;
use crate::text::lemma_skip_one;
use crate::text::lower_seq;
use crate::text::trim_chars;
use crate::text::trimmed;

verus! {

/// Shift modifier bit, as keyboard toolkits report it.
pub const MOD_SHIFT: u32 = 0x1;

/// Control modifier bit.
pub const MOD_CONTROL: u32 = 0x4;

/// Alt modifier bit.
pub const MOD_ALT: u32 = 0x8;

/// Super (meta/win) modifier bit.
pub const MOD_SUPER: u32 = 0x4000000;

/// The four modifier bits a chord may require; everything else in an
/// event's modifier state (lock keys and the like) is ignored.
pub const MOD_RELEVANT: u32 = MOD_SHIFT | MOD_CONTROL | MOD_ALT | MOD_SUPER;

/// A symbolic key code together with its case-folded forms and its
/// display name.  `lower` and `upper` are the codes of the lowercase and
/// uppercase variants of the key (equal to `code` for caseless keys).
#[derive(Clone, Debug)]
pub struct KeySym {
    pub code: u32,
    pub lower: u32,
    pub upper: u32,
    pub name: String,
}

/// A key-chord binding: a key plus the exact modifier set it requires.
#[derive(Clone, Debug)]
pub struct Chord {
    pub sym: KeySym,
    pub mods: u32,
}

/// Two key symbols stand for the same key up to case: either the codes
/// are equal outright, or they share a lowercase or uppercase form.
pub open spec fn spec_key_matches(a: KeySym, b: KeySym) -> bool {
    a.code == b.code || a.lower == b.lower || a.upper == b.upper
}

/// What it means for a chord to match a key event: the key matches up to
/// case, and the event's modifier state, restricted to the four
/// recognized bits, equals the chord's modifier set exactly.
pub open spec fn spec_chord_matches(chord: Chord, key: KeySym, state: u32) -> bool {
    spec_key_matches(key, chord.sym) && (state & MOD_RELEVANT) == chord.mods
}

impl Chord {
    /// Decide whether a key event satisfies this chord.
    pub fn matches(&self, key: &KeySym, state: u32) -> (r: bool)
        ensures
            r == spec_chord_matches(*self, *key, state),
    {
        let key_matches = key.code == self.sym.code
            || key.lower == self.sym.lower
            || key.upper == self.sym.upper;
        key_matches && state & MOD_RELEVANT == self.mods
    }
}

/// Modifier exactness: a chord requiring exactly Control matches an event
/// holding Control regardless of any non-recognized modifier state (lock
/// keys and the like), and never matches once Shift is held as well.
pub proof fn lemma_modifier_exactness(c: Chord, k: KeySym, locks: u32)
    requires
        c.mods == MOD_CONTROL,
        spec_key_matches(k, c.sym),
    ensures
        spec_chord_matches(c, k, MOD_CONTROL | (locks & !MOD_RELEVANT)),
        !spec_chord_matches(c, k, MOD_CONTROL | MOD_SHIFT),
{
    assert(0x1u32 | 0x4u32 | 0x8u32 | 0x4000000u32 == 0x400000du32) by (bit_vector);
    assert(MOD_RELEVANT == 0x400000du32);
    assert((0x4u32 | (locks & !0x400000du32)) & 0x400000du32 == 0x4u32) by (bit_vector);
    assert((0x4u32 | 0x1u32) & 0x400000du32 != 0x4u32) by (bit_vector);
}

/// Does a key event satisfy a binding?  An unset binding never
/// matches.
pub open spec fn spec_binding_matches(b: Option<Chord>, key: KeySym, state: u32) -> bool {
    match b {
        Some(c) => spec_chord_matches(c, key, state),
        None => false,
    }
}

/// Decide whether a key event satisfies a binding.
pub fn binding_matches(b: &Option<Chord>, key: &KeySym, state: u32) -> (r: bool)
    ensures
        r == spec_binding_matches(*b, *key, state),
{
    match b {
        Some(c) => c.matches(key, state),
        None => false,
    }
}

/// The pieces of a chord specification: the text split on `+`.
pub open spec fn split_plus(s: Seq<char>) -> Seq<Seq<char>>
    decreases s.len(),
{
    if s.len() == 0 {
        seq![s]
    } else if s[0] == '+' {
        seq![Seq::<char>::empty()] + split_plus(s.drop_first())
    } else {
        let rest = split_plus(s.drop_first());
        seq![seq![s[0]] + rest[0]] + rest.drop_first()
    }
}

/// The modifier bit a token names, zero when it names none.  Tokens are
/// matched case-insensitively.
pub open spec fn mod_bits_of(tok: Seq<char>) -> u32 {
    let low = lower_seq(tok);
    if low == "ctrl"@ || low == "control"@ {
        MOD_CONTROL
    } else if low == "shift"@ {
        MOD_SHIFT
    } else if low == "alt"@ || low == "option"@ {
        MOD_ALT
    } else if low == "super"@ || low == "meta"@ || low == "win"@ {
        MOD_SUPER
    } else {
        0
    }
}

/// The modifier set named by a token list: each trimmed modifier token
/// ors its bit into the set.
pub open spec fn scan_mods(tokens: Seq<Seq<char>>, acc: u32) -> u32
    decreases tokens.len(),
{
    if tokens.len() == 0 {
        acc
    } else {
        scan_mods(tokens.drop_first(), acc | mod_bits_of(trimmed(tokens[0])))
    }
}

/// The key tokens of a token list: trimmed tokens that are neither empty
/// nor modifier names, in order.
pub open spec fn scan_keys(tokens: Seq<Seq<char>>) -> Seq<Seq<char>>
    decreases tokens.len(),
{
    if tokens.len() == 0 {
        Seq::empty()
    } else {
        let t = trimmed(tokens[0]);
        let rest = scan_keys(tokens.drop_first());
        if t.len() > 0 && mod_bits_of(t) == 0 {
            seq![t] + rest
        } else {
            rest
        }
    }
}

/// The modifier set of a chord specification.
pub open spec fn chord_mods_of(s: Seq<char>) -> u32 {
    scan_mods(split_plus(s), 0)
}

/// The candidate key-name tokens of a chord specification, in order.
pub open spec fn key_tokens_of(s: Seq<char>) -> Seq<Seq<char>> {
    scan_keys(split_plus(s))
}

/// The views of a list of character vectors.
pub open spec fn token_views(ts: Seq<Vec<char>>) -> Seq<Seq<char>> {
    ts.map_values(|t: Vec<char>| t@)
}

/// Split the characters from position `i` on at every `+`.
fn split_plus_from(chars: &Vec<char>, i: usize) -> (r: Vec<Vec<char>>)
    requires
        i <= chars@.len(),
    ensures
        token_views(r@) == split_plus(chars@.skip(i as int)),
        r@.len() >= 1,
    decreases chars@.len() - i,
{
    if i == chars.len() {
        let mut r: Vec<Vec<char>> = Vec::new();
        r.push(Vec::new());
        proof {
            assert(chars@.skip(i as int) =~= Seq::<char>::empty());
            assert(token_views(r@) =~= seq![chars@.skip(i as int)]);
        }
        r
    } else {
        proof {
            lemma_skip_one(chars@, i as int);
        }
        let c = chars[i];
        let mut r = split_plus_from(chars, i + 1);
        if c == '+' {
            r.insert(0, Vec::new());
            proof {
                assert(token_views(r@) =~= seq![Seq::<char>::empty()] + split_plus(
                    chars@.skip(i + 1),
                ));
            }
            r
        } else {
            let mut first = r.remove(0);
            first.insert(0, c);
            r.insert(0, first);
            proof {
                let rest = split_plus(chars@.skip(i + 1));
                assert(first@ =~= seq![chars@[i as int]] + rest[0]);
                assert(token_views(r@) =~= seq![seq![chars@[i as int]] + rest[0]]
                    + rest.drop_first());
            }
            r
        }
    }
}

/// The modifier bit a trimmed token names.
fn mod_bits(tok: &Vec<char>) -> (r: u32)
    ensures
        r == mod_bits_of(tok@),
{
    proof {
        reveal_strlit("ctrl");
        reveal_strlit("control");
        reveal_strlit("shift");
        reveal_strlit("alt");
        reveal_strlit("option");
        reveal_strlit("super");
        reveal_strlit("meta");
        reveal_strlit("win");
        assert(lower_seq("ctrl"@) =~= "ctrl"@);
        assert(lower_seq("control"@) =~= "control"@);
        assert(lower_seq("shift"@) =~= "shift"@);
        assert(lower_seq("alt"@) =~= "alt"@);
        assert(lower_seq("option"@) =~= "option"@);
        assert(lower_seq("super"@) =~= "super"@);
        assert(lower_seq("meta"@) =~= "meta"@);
        assert(lower_seq("win"@) =~= "win"@);
    }
    if kw_matches(tok, "ctrl") || kw_matches(tok, "control") {
        MOD_CONTROL
    } else if kw_matches(tok, "shift") {
        MOD_SHIFT
    } else if kw_matches(tok, "alt") || kw_matches(tok, "option") {
        MOD_ALT
    } else if kw_matches(tok, "super") || kw_matches(tok, "meta") || kw_matches(tok, "win") {
        MOD_SUPER
    } else {
        0
    }
}

/// Scan a chord specification: split it on `+`, fold case-insensitive
/// modifier tokens into a modifier set, and keep the remaining trimmed,
/// non-empty tokens as key-name candidates, in order.
pub fn scan_chord(text: &str) -> (r: (u32, Vec<Vec<char>>))
    ensures
        r.0 == chord_mods_of(text@),
        token_views(r.1@) == key_tokens_of(text@),
{
    let chars = str_chars(text);
    let tokens = split_plus_from(&chars, 0);
    proof {
        assert(chars@.skip(0) =~= chars@);
    }
    let n = tokens.len();
    let mut mods: u32 = 0;
    let mut keys: Vec<Vec<char>> = Vec::new();
    let mut i: usize = 0;
    proof {
        assert(token_views(tokens@).skip(0) =~= token_views(tokens@));
        assert(token_views(keys@) =~= Seq::<Seq<char>>::empty());
        assert(token_views(keys@) + scan_keys(token_views(tokens@)) =~= scan_keys(
            token_views(tokens@),
        ));
    }
    while i < n
        invariant
            0 <= i <= n == tokens@.len(),
            token_views(tokens@) == split_plus(text@),
            chord_mods_of(text@) == scan_mods(token_views(tokens@).skip(i as int), mods),
            key_tokens_of(text@) =~= token_views(keys@) + scan_keys(
                token_views(tokens@).skip(i as int),
            ),
        decreases n - i,
    {
        proof {
            lemma_skip_one(token_views(tokens@), i as int);
        }
        let t = trim_chars(&tokens[i]);
        let bits = mod_bits(&t);
        mods = mods | bits;
        if t.len() > 0 && bits == 0 {
            keys.push(t);
            proof {
                assert(token_views(keys@) =~= token_views(keys@.drop_last()) + seq![
                    trimmed(token_views(tokens@)[i as int]),
                ]);
            }
        } else {
            proof {
                assert(mod_bits_of(trimmed(token_views(tokens@)[i as int])) == bits);
            }
        }
        i = i + 1;
    }
    proof {
        assert(token_views(tokens@).skip(n as int) =~= Seq::<Seq<char>>::empty());
    }
    (mods, keys)
}

/// The last resolved key among the candidates, if any: when several
/// tokens resolve, the last successful one wins.
pub open spec fn last_resolved(rs: Seq<Option<KeySym>>) -> Option<KeySym>
    decreases rs.len(),
{
    if rs.len() == 0 {
        None
    } else if rs.last() is Some {
        rs.last()
    } else {
        last_resolved(rs.drop_last())
    }
}

/// Build a chord from a scanned modifier set and the resolution results
/// of its key-name candidates, in candidate order.  The last token that
/// resolved wins; a specification whose key never resolves yields no
/// chord and can never match.
#[verifier::loop_isolation(false)]
pub fn chord_from_scan(mods: u32, resolved: Vec<Option<KeySym>>) -> (r: Option<Chord>)
    ensures
        (r is Some) == (last_resolved(resolved@) is Some),
        r is Some ==> r == Some(
            Chord { sym: last_resolved(resolved@).unwrap(), mods },
        ),
{
    let ghost orig = resolved@;
    let mut rest = resolved;
    loop
        invariant
            last_resolved(orig) == last_resolved(rest@),
        decreases rest@.len(),
    {
        let ghost prev = rest@;
        let last = rest.pop();
        match last {
            None => {
                proof {
                    assert(prev.len() == 0);
                    assert(last_resolved(orig) is None);
                }
                return None;
            },
            Some(opt) => {
                proof {
                    assert(prev.last() == opt);
                    assert(rest@ =~= prev.drop_last());
                }
                match opt {
                    Some(sym) => {
                        proof {
                            assert(last_resolved(prev) == Some(sym));
                        }
                        return Some(Chord { sym, mods });
                    },
                    None => {
                        proof {
                            assert(last_resolved(prev) == last_resolved(prev.drop_last()));
                        }
                    },
                }
            },
        }
    }
}

/// The `Name+` prefixes of a chord's display label, one per held
/// modifier, in the fixed order Ctrl, Shift, Alt, Super.
pub open spec fn mods_label(mods: u32) -> Seq<char> {
    (if mods & MOD_CONTROL != 0 {
        "Ctrl+"@
    } else {
        Seq::<char>::empty()
    }) + (if mods & MOD_SHIFT != 0 {
        "Shift+"@
    } else {
        Seq::<char>::empty()
    }) + (if mods & MOD_ALT != 0 {
        "Alt+"@
    } else {
        Seq::<char>::empty()
    }) + (if mods & MOD_SUPER != 0 {
        "Super+"@
    } else {
        Seq::<char>::empty()
    })
}

/// The display form of a key name: a single character is shown in upper
/// case, longer names are shown as they are.
pub open spec fn key_label(name: Seq<char>) -> Seq<char> {
    if name.len() == 1 {
        seq![ascii_upper(name[0])]
    } else {
        name
    }
}

/// The display label of a chord, modifiers first.
pub open spec fn chord_label(c: Chord) -> Seq<char> {
    mods_label(c.mods) + key_label(c.sym.name@)
}

/// The upper-case string of an ASCII lower-case letter, `None` for any
/// character that upper-cases to itself.
fn upper_letter_str(c: char) -> (r: Option<&'static str>)
    ensures
        match r {
            Some(s) => s@ == seq![ascii_upper(c)],
            None => ascii_upper(c) == c,
        },
{
    if c == 'a' {
        proof {
            reveal_strlit("A");
        }
        Some("A")
    } else if c == 'b' {
        proof {
            reveal_strlit("B");
        }
        Some("B")
    } else if c == 'c' {
        proof {
            reveal_strlit("C");
        }
        Some("C")
    } else if c == 'd' {
        proof {
            reveal_strlit("D");
        }
        Some("D")
    } else if c == 'e' {
        proof {
            reveal_strlit("E");
        }
        Some("E")
    } else if c == 'f' {
        proof {
            reveal_strlit("F");
        }
        Some("F")
    } else if c == 'g' {
        proof {
            reveal_strlit("G");
        }
        Some("G")
    } else if c == 'h' {
        proof {
            reveal_strlit("H");
        }
        Some("H")
    } else if c == 'i' {
        proof {
            reveal_strlit("I");
        }
        Some("I")
    } else if c == 'j' {
        proof {
            reveal_strlit("J");
        }
        Some("J")
    } else if c == 'k' {
        proof {
            reveal_strlit("K");
        }
        Some("K")
    } else if c == 'l' {
        proof {
            reveal_strlit("L");
        }
        Some("L")
    } else if c == 'm' {
        proof {
            reveal_strlit("M");
        }
        Some("M")
    } else if c == 'n' {
        proof {
            reveal_strlit("N");
        }
        Some("N")
    } else if c == 'o' {
        proof {
            reveal_strlit("O");
        }
        Some("O")
    } else if c == 'p' {
        proof {
            reveal_strlit("P");
        }
        Some("P")
    } else if c == 'q' {
        proof {
            reveal_strlit("Q");
        }
        Some("Q")
    } else if c == 'r' {
        proof {
            reveal_strlit("R");
        }
        Some("R")
    } else if c == 's' {
        proof {
            reveal_strlit("S");
        }
        Some("S")
    } else if c == 't' {
        proof {
            reveal_strlit("T");
        }
        Some("T")
    } else if c == 'u' {
        proof {
            reveal_strlit("U");
        }
        Some("U")
    } else if c == 'v' {
        proof {
            reveal_strlit("V");
        }
        Some("V")
    } else if c == 'w' {
        proof {
            reveal_strlit("W");
        }
        Some("W")
    } else if c == 'x' {
        proof {
            reveal_strlit("X");
        }
        Some("X")
    } else if c == 'y' {
        proof {
            reveal_strlit("Y");
        }
        Some("Y")
    } else if c == 'z' {
        proof {
            reveal_strlit("Z");
        }
        Some("Z")
    } else {
        None
    }
}

/// Render a chord for display: held modifiers in the fixed order Ctrl,
/// Shift, Alt, Super, each followed by `+`, then the key's name, a
/// single-character name in upper case.
pub fn format_chord(c: &Chord) -> (r: String)
    ensures
        r@ == chord_label(*c),
{
    let mut s = String::new();
    if c.mods & MOD_CONTROL != 0 {
        s.append("Ctrl+");
    }
    if c.mods & MOD_SHIFT != 0 {
        s.append("Shift+");
    }
    if c.mods & MOD_ALT != 0 {
        s.append("Alt+");
    }
    if c.mods & MOD_SUPER != 0 {
        s.append("Super+");
    }
    let name = c.sym.name.as_str();
    let n = name.unicode_len();
    if n == 1 {
        let ch = name.get_char(0);
        match upper_letter_str(ch) {
            Some(u) => {
                s.append(u);
            },
            None => {
                proof {
                    assert(name@ =~= seq![name@[0]]);
                }
                s.append(name);
            },
        }
    } else {
        s.append(name);
    }
    proof {
        assert(s@ =~= chord_label(*c));
    }
    s
}

/// The command table: one binding per named command, and nine bindings
/// that switch directly to a tab.  A binding is `None` when it is unset
/// (its configured key never resolved); an unset binding can never
/// match, while the rest of the table still works.
#[derive(Clone, Debug)]
pub struct KeyBindings {
    pub new_tab: Option<Chord>,
    pub close_tab: Option<Chord>,
    pub rename_tab: Option<Chord>,
    pub close_panel: Option<Chord>,
    pub split_vertical: Option<Chord>,
    pub split_horizontal: Option<Chord>,
    pub copy: Option<Chord>,
    pub paste: Option<Chord>,
    pub reload_config: Option<Chord>,
    pub show_keybindings: Option<Chord>,
    pub focus_left: Option<Chord>,
    pub focus_right: Option<Chord>,
    pub focus_up: Option<Chord>,
    pub focus_down: Option<Chord>,
    pub tab_switch: Vec<Option<Chord>>,
}

impl KeyBindings {
    /// A well-formed table has exactly nine tab-switch bindings.
    pub open spec fn wf(self) -> bool {
        self.tab_switch@.len() == 9
    }
}

/// A key symbol for an upper-case letter: its lower-case code sits 32
/// above it, as in both ASCII and the usual keyboard symbol tables.
pub open spec fn letter_sym(k: KeySym, code: u32, name: Seq<char>) -> bool {
    k.code == code && k.upper == code && k.lower == code + 32 && k.name@ == name
}

/// A key symbol without case: both folds are the code itself.
pub open spec fn plain_sym(k: KeySym, code: u32, name: Seq<char>) -> bool {
    k.code == code && k.upper == code && k.lower == code && k.name@ == name
}

/// Build the symbol of an upper-case letter key.
fn letter_key(code: u32, name: &str) -> (k: KeySym)
    requires
        code < 0x100,
    ensures
        letter_sym(k, code, name@),
{
    KeySym { code, lower: code + 32, upper: code, name: name.to_owned() }
}

/// Build the symbol of a caseless key.
fn plain_key(code: u32, name: String) -> (k: KeySym)
    ensures
        plain_sym(k, code, name@),
{
    KeySym { code, lower: code, upper: code, name }
}

/// A bound upper-case-letter chord.
pub open spec fn letter_binding(b: Option<Chord>, code: u32, name: Seq<char>, mods: u32) -> bool {
    b matches Some(c) && letter_sym(c.sym, code, name) && c.mods == mods
}

/// A bound caseless chord.
pub open spec fn plain_binding(b: Option<Chord>, code: u32, name: Seq<char>, mods: u32) -> bool {
    b matches Some(c) && plain_sym(c.sym, code, name) && c.mods == mods
}

/// The built-in command table, binding by binding.
pub open spec fn is_default_bindings(r: KeyBindings) -> bool {
    &&& r.wf()
    &&& letter_binding(r.new_tab, 0x54, "T"@, MOD_CONTROL | MOD_SHIFT)
    &&& letter_binding(r.close_tab, 0x57, "W"@, MOD_CONTROL | MOD_SHIFT)
    &&& letter_binding(r.rename_tab, 0x52, "R"@, MOD_CONTROL | MOD_SHIFT)
    &&& letter_binding(r.close_panel, 0x44, "D"@, MOD_CONTROL)
    &&& letter_binding(r.split_vertical, 0x50, "P"@, MOD_CONTROL | MOD_SHIFT)
    &&& letter_binding(r.split_horizontal, 0x48, "H"@, MOD_CONTROL | MOD_SHIFT)
    &&& letter_binding(r.copy, 0x43, "C"@, MOD_CONTROL | MOD_SHIFT)
    &&& letter_binding(r.paste, 0x56, "V"@, MOD_CONTROL | MOD_SHIFT)
    &&& letter_binding(r.reload_config, 0x4c, "L"@, MOD_CONTROL | MOD_SHIFT)
    &&& letter_binding(r.show_keybindings, 0x4b, "K"@, MOD_CONTROL | MOD_SHIFT)
    &&& plain_binding(r.focus_left, 0xff51, "Left"@, MOD_ALT)
    &&& plain_binding(r.focus_right, 0xff53, "Right"@, MOD_ALT)
    &&& plain_binding(r.focus_up, 0xff52, "Up"@, MOD_ALT)
    &&& plain_binding(r.focus_down, 0xff54, "Down"@, MOD_ALT)
    &&& forall|i: int|
        0 <= i < 9 ==> plain_binding(
            #[trigger] r.tab_switch@[i],
            (0x31 + i) as u32,
            seq![crate::text::dec_digit((i + 1) as nat)],
            MOD_ALT,
        )
}

/// The built-in command table.  Key codes are the usual keyboard symbol
/// values: letters carry their ASCII codes, the arrow keys their
/// traditional `0xff51` to `0xff54` codes, digits `0x31` to `0x39`.
pub fn default_bindings() -> (r: KeyBindings)
    ensures
        is_default_bindings(r),
{
    let mut tab_switch: Vec<Option<Chord>> = Vec::new();
    let mut i: usize = 0;
    while i < 9
        invariant
            0 <= i <= 9,
            tab_switch@.len() == i,
            forall|j: int|
                0 <= j < i ==> plain_binding(
                    #[trigger] tab_switch@[j],
                    (0x31 + j) as u32,
                    seq![crate::text::dec_digit((j + 1) as nat)],
                    MOD_ALT,
                ),
        decreases 9 - i,
    {
        let name = crate::text::u64_dec((i + 1) as u64);
        tab_switch.push(Some(Chord { sym: plain_key(0x31 + i as u32, name), mods: MOD_ALT }));
        i = i + 1;
    }
    KeyBindings {
        new_tab: Some(Chord { sym: letter_key(0x54, "T"), mods: MOD_CONTROL | MOD_SHIFT }),
        close_tab: Some(Chord { sym: letter_key(0x57, "W"), mods: MOD_CONTROL | MOD_SHIFT }),
        rename_tab: Some(Chord { sym: letter_key(0x52, "R"), mods: MOD_CONTROL | MOD_SHIFT }),
        close_panel: Some(Chord { sym: letter_key(0x44, "D"), mods: MOD_CONTROL }),
        split_vertical: Some(Chord { sym: letter_key(0x50, "P"), mods: MOD_CONTROL | MOD_SHIFT }),
        split_horizontal: Some(
            Chord { sym: letter_key(0x48, "H"), mods: MOD_CONTROL | MOD_SHIFT },
        ),
        copy: Some(Chord { sym: letter_key(0x43, "C"), mods: MOD_CONTROL | MOD_SHIFT }),
        paste: Some(Chord { sym: letter_key(0x56, "V"), mods: MOD_CONTROL | MOD_SHIFT }),
        reload_config: Some(Chord { sym: letter_key(0x4c, "L"), mods: MOD_CONTROL | MOD_SHIFT }),
        show_keybindings: Some(
            Chord { sym: letter_key(0x4b, "K"), mods: MOD_CONTROL | MOD_SHIFT },
        ),
        focus_left: Some(Chord { sym: plain_key(0xff51, "Left".to_owned()), mods: MOD_ALT }),
        focus_right: Some(Chord { sym: plain_key(0xff53, "Right".to_owned()), mods: MOD_ALT }),
        focus_up: Some(Chord { sym: plain_key(0xff52, "Up".to_owned()), mods: MOD_ALT }),
        focus_down: Some(Chord { sym: plain_key(0xff54, "Down".to_owned()), mods: MOD_ALT }),
        tab_switch,
    }
}

/// What a configuration file says about one binding: nothing (the
/// previous binding stays), a chord specification whose key never
/// resolved (the binding alone becomes unset), or a resolved chord (the
/// binding is replaced).
#[derive(Clone, Debug)]
pub enum BindingUpdate {
    Absent,
    Unset,
    Bind(Chord),
}

/// The binding that results from one update over a previous binding.
pub open spec fn applied_binding(prev: Option<Chord>, u: BindingUpdate) -> Option<Chord> {
    match u {
        BindingUpdate::Absent => prev,
        BindingUpdate::Unset => None,
        BindingUpdate::Bind(c) => Some(c),
    }
}

/// Apply one update to a binding slot.
fn apply_update(slot: &mut Option<Chord>, u: BindingUpdate)
    ensures
        *final(slot) == applied_binding(*old(slot), u),
{
    match u {
        BindingUpdate::Absent => {},
        BindingUpdate::Unset => {
            *slot = None;
        },
        BindingUpdate::Bind(c) => {
            *slot = Some(c);
        },
    }
}

/// The binding updates parsed from a configuration file, one per
/// binding of the table.
pub struct BindingUpdates {
    pub new_tab: BindingUpdate,
    pub close_tab: BindingUpdate,
    pub rename_tab: BindingUpdate,
    pub close_panel: BindingUpdate,
    pub split_vertical: BindingUpdate,
    pub split_horizontal: BindingUpdate,
    pub copy: BindingUpdate,
    pub paste: BindingUpdate,
    pub reload_config: BindingUpdate,
    pub show_keybindings: BindingUpdate,
    pub focus_left: BindingUpdate,
    pub focus_right: BindingUpdate,
    pub focus_up: BindingUpdate,
    pub focus_down: BindingUpdate,
    pub tab_switch: Vec<BindingUpdate>,
}

/// How a command table changes under parsed updates: a resolved chord
/// replaces its binding, an unresolved one unsets that binding alone,
/// and an absent one leaves the previous binding in place.
pub open spec fn merged_bindings(pre: KeyBindings, ups: BindingUpdates, post: KeyBindings) -> bool {
    &&& post.new_tab == applied_binding(pre.new_tab, ups.new_tab)
    &&& post.close_tab == applied_binding(pre.close_tab, ups.close_tab)
    &&& post.rename_tab == applied_binding(pre.rename_tab, ups.rename_tab)
    &&& post.close_panel == applied_binding(pre.close_panel, ups.close_panel)
    &&& post.split_vertical == applied_binding(pre.split_vertical, ups.split_vertical)
    &&& post.split_horizontal == applied_binding(pre.split_horizontal, ups.split_horizontal)
    &&& post.copy == applied_binding(pre.copy, ups.copy)
    &&& post.paste == applied_binding(pre.paste, ups.paste)
    &&& post.reload_config == applied_binding(pre.reload_config, ups.reload_config)
    &&& post.show_keybindings == applied_binding(pre.show_keybindings, ups.show_keybindings)
    &&& post.focus_left == applied_binding(pre.focus_left, ups.focus_left)
    &&& post.focus_right == applied_binding(pre.focus_right, ups.focus_right)
    &&& post.focus_up == applied_binding(pre.focus_up, ups.focus_up)
    &&& post.focus_down == applied_binding(pre.focus_down, ups.focus_down)
    &&& post.tab_switch@.len() == pre.tab_switch@.len()
    &&& forall|i: int|
        0 <= i < pre.tab_switch@.len() ==> #[trigger] post.tab_switch@[i] == if i
            < ups.tab_switch@.len() {
            applied_binding(pre.tab_switch@[i], ups.tab_switch@[i])
        } else {
            pre.tab_switch@[i]
        }
}

impl KeyBindings {
    /// Merge parsed updates over this table: a resolved chord replaces
    /// its binding, an unresolved one unsets that binding alone, and an
    /// absent one leaves the previous binding in place.
    #[verifier::loop_isolation(false)]
    #[verifier::rlimit(100)]
    pub fn merge(&mut self, updates: BindingUpdates)
        ensures
            merged_bindings(*old(self), updates, *final(self)),
    {
        let BindingUpdates {
            new_tab,
            close_tab,
            rename_tab,
            close_panel,
            split_vertical,
            split_horizontal,
            copy,
            paste,
            reload_config,
            show_keybindings,
            focus_left,
            focus_right,
            focus_up,
            focus_down,
            tab_switch,
        } = updates;
        apply_update(&mut self.new_tab, new_tab);
        apply_update(&mut self.close_tab, close_tab);
        apply_update(&mut self.rename_tab, rename_tab);
        apply_update(&mut self.close_panel, close_panel);
        apply_update(&mut self.split_vertical, split_vertical);
        apply_update(&mut self.split_horizontal, split_horizontal);
        apply_update(&mut self.copy, copy);
        apply_update(&mut self.paste, paste);
        apply_update(&mut self.reload_config, reload_config);
        apply_update(&mut self.show_keybindings, show_keybindings);
        apply_update(&mut self.focus_left, focus_left);
        apply_update(&mut self.focus_right, focus_right);
        apply_update(&mut self.focus_up, focus_up);
        apply_update(&mut self.focus_down, focus_down);
        let ghost ups = tab_switch@;
        let mut slots = tab_switch;
        let mut tabs: Vec<Option<Chord>> = Vec::new();
        core::mem::swap(&mut tabs, &mut self.tab_switch);
        let ghost orig = tabs@;
        proof {
            assert(slots@ =~= ups.take(slots@.len() as int));
        }
        while slots.len() > 0
            invariant
                tabs@.len() == orig.len(),
                slots@.len() <= ups.len(),
                slots@ == ups.take(slots@.len() as int),
                forall|i: int|
                    slots@.len() <= i < orig.len() ==> #[trigger] tabs@[i] == if i < ups.len() {
                        applied_binding(orig[i], ups[i])
                    } else {
                        orig[i]
                    },
                forall|i: int| 0 <= i < slots@.len() && i < orig.len() ==> #[trigger] tabs@[i]
                    == orig[i],
            decreases slots@.len(),
        {
            let ghost prev = slots@;
            let idx = slots.len() - 1;
            let u = slots.pop();
            proof {
                assert(prev[idx as int] == ups[idx as int]);
                assert(slots@ =~= ups.take(idx as int));
            }
            match u {
                Some(update) => {
                    if idx < tabs.len() {
                        apply_update(&mut tabs[idx], update);
                    }
                },
                None => {},
            }
        }
        self.tab_switch = tabs;
    }
}


/// The display label of a binding: its chord's label, empty when the
/// binding is unset.
pub open spec fn binding_label(b: Option<Chord>) -> Seq<char> {
    match b {
        Some(c) => chord_label(c),
        None => Seq::<char>::empty(),
    }
}

/// Render a binding for display; an unset binding shows nothing.
fn format_binding(b: &Option<Chord>) -> (r: String)
    ensures
        r@ == binding_label(*b),
{
    match b {
        Some(c) => format_chord(c),
        None => String::new(),
    }
}

/// The read-only display projection of the command table: each command's
/// label beside its chord's display form, the named commands first in a
/// fixed order, then the nine direct tab switches.  Nothing is mutated.
#[verifier::loop_isolation(false)]
pub fn binding_rows(kb: &KeyBindings) -> (r: Vec<(String, String)>)
    requires
        kb.wf(),
    ensures
        r@.len() == 14 + kb.tab_switch@.len(),
        r@[0].0@ == "New tab"@ && r@[0].1@ == binding_label(kb.new_tab),
        r@[1].0@ == "Close tab"@ && r@[1].1@ == binding_label(kb.close_tab),
        r@[2].0@ == "Rename tab"@ && r@[2].1@ == binding_label(kb.rename_tab),
        r@[3].0@ == "Close panel"@ && r@[3].1@ == binding_label(kb.close_panel),
        r@[4].0@ == "Split vertical"@ && r@[4].1@ == binding_label(kb.split_vertical),
        r@[5].0@ == "Split horizontal"@ && r@[5].1@ == binding_label(kb.split_horizontal),
        r@[6].0@ == "Copy"@ && r@[6].1@ == binding_label(kb.copy),
        r@[7].0@ == "Paste"@ && r@[7].1@ == binding_label(kb.paste),
        r@[8].0@ == "Reload config/theme"@ && r@[8].1@ == binding_label(kb.reload_config),
        r@[9].0@ == "Show keybindings"@ && r@[9].1@ == binding_label(kb.show_keybindings),
        r@[10].0@ == "Focus left"@ && r@[10].1@ == binding_label(kb.focus_left),
        r@[11].0@ == "Focus right"@ && r@[11].1@ == binding_label(kb.focus_right),
        r@[12].0@ == "Focus up"@ && r@[12].1@ == binding_label(kb.focus_up),
        r@[13].0@ == "Focus down"@ && r@[13].1@ == binding_label(kb.focus_down),
        forall|i: int|
            0 <= i < kb.tab_switch@.len() ==> (#[trigger] r@[14 + i]).0@ == "Switch tab "@
                + crate::text::dec_rep((i + 1) as nat) && r@[14 + i].1@ == binding_label(
                kb.tab_switch@[i],
            ),
{
    let mut r: Vec<(String, String)> = Vec::new();
    r.push(("New tab".to_owned(), format_binding(&kb.new_tab)));
    r.push(("Close tab".to_owned(), format_binding(&kb.close_tab)));
    r.push(("Rename tab".to_owned(), format_binding(&kb.rename_tab)));
    r.push(("Close panel".to_owned(), format_binding(&kb.close_panel)));
    r.push(("Split vertical".to_owned(), format_binding(&kb.split_vertical)));
    r.push(("Split horizontal".to_owned(), format_binding(&kb.split_horizontal)));
    r.push(("Copy".to_owned(), format_binding(&kb.copy)));
    r.push(("Paste".to_owned(), format_binding(&kb.paste)));
    r.push(("Reload config/theme".to_owned(), format_binding(&kb.reload_config)));
    r.push(("Show keybindings".to_owned(), format_binding(&kb.show_keybindings)));
    r.push(("Focus left".to_owned(), format_binding(&kb.focus_left)));
    r.push(("Focus right".to_owned(), format_binding(&kb.focus_right)));
    r.push(("Focus up".to_owned(), format_binding(&kb.focus_up)));
    r.push(("Focus down".to_owned(), format_binding(&kb.focus_down)));
    proof {
        assert(r@.len() == 14);
        assert(r@[0].0@ == "New tab"@ && r@[0].1@ == binding_label(kb.new_tab));
        assert(r@[1].0@ == "Close tab"@ && r@[1].1@ == binding_label(kb.close_tab));
        assert(r@[2].0@ == "Rename tab"@ && r@[2].1@ == binding_label(kb.rename_tab));
        assert(r@[3].0@ == "Close panel"@ && r@[3].1@ == binding_label(kb.close_panel));
        assert(r@[4].0@ == "Split vertical"@ && r@[4].1@ == binding_label(kb.split_vertical));
        assert(r@[5].0@ == "Split horizontal"@ && r@[5].1@ == binding_label(kb.split_horizontal));
        assert(r@[6].0@ == "Copy"@ && r@[6].1@ == binding_label(kb.copy));
        assert(r@[7].0@ == "Paste"@ && r@[7].1@ == binding_label(kb.paste));
        assert(r@[8].0@ == "Reload config/theme"@ && r@[8].1@ == binding_label(kb.reload_config));
        assert(r@[9].0@ == "Show keybindings"@ && r@[9].1@ == binding_label(kb.show_keybindings));
        assert(r@[10].0@ == "Focus left"@ && r@[10].1@ == binding_label(kb.focus_left));
        assert(r@[11].0@ == "Focus right"@ && r@[11].1@ == binding_label(kb.focus_right));
        assert(r@[12].0@ == "Focus up"@ && r@[12].1@ == binding_label(kb.focus_up));
        assert(r@[13].0@ == "Focus down"@ && r@[13].1@ == binding_label(kb.focus_down));
    }
    let ghost front = r@;
    let n = kb.tab_switch.len();
    let mut i: usize = 0;
    while i < n
        invariant
            0 <= i <= n,
            r@.len() == 14 + i,
            r@.take(14) == front,
            forall|j: int|
                0 <= j < i ==> (#[trigger] r@[14 + j]).0@ == "Switch tab "@
                    + crate::text::dec_rep((j + 1) as nat) && r@[14 + j].1@ == binding_label(
                    kb.tab_switch@[j],
                ),
        decreases n - i,
    {
        let mut label = "Switch tab ".to_owned();
        let num = crate::text::u64_dec((i + 1) as u64);
        label.append(num.as_str());
        r.push((label, format_binding(&kb.tab_switch[i])));
        proof {
            assert(r@.take(14) =~= front);
        }
        i = i + 1;
    }
    proof {
        assert(r@.take(14) == front);
        assert forall|j: int| 0 <= j < 14 implies r@[j] == front[j] by {
            assert(r@.take(14)[j] == r@[j]);
        }
    }
    r
}

} // verus!
