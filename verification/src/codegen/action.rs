//! The action language of keymaps: `A`, `WM(C, LCtrl)`, `LT(1, Space, home)` and
//! so on.
//!
//! Keys are read into [`KeyActionExpr`]s, from which code is generated. What
//! cannot be read gives the message that the build fails with.

use vstd::prelude::*;
use crate::codegen::names::{
    alias_of, hint, hint_for, index_in, message_start, name_list, parse_name_list, position_in,
    resolve_alias, resolved_alias, Vocabulary, as_ints,
};
use crate::codegen::profile::{morse_profile, profile_index, Profiles};
use crate::text::{
    byte_value, find_char, index_of_char, is_ascii_digit, is_digit, parse_byte, same, starts_with,
    texts, to_lowercase, to_uppercase, trim, trimmed, unicode_lower, unicode_upper,
};

verus! {

/// A set of modifiers, with one switch for the side of all of them.
#[derive(Clone, Copy, Debug, PartialEq, Eq, Structural)]
pub struct ModifierCombinationMacro {
    pub right: bool,
    pub gui: bool,
    pub alt: bool,
    pub shift: bool,
    pub ctrl: bool,
}

/// A single action. Names are those of the [`Vocabulary`].
#[derive(Debug)]
pub enum ActionExpr {
    No,
    Modifier(ModifierCombinationMacro),
    KeyWithModifier(String, ModifierCombinationMacro),
    OneShotModifier(ModifierCombinationMacro),
    LayerOnWithModifier(u8, ModifierCombinationMacro),
    LayerOn(u8),
    OneShotLayer(u8),
    LayerToggle(u8),
    LayerToggleOnly(u8),
    PersistentDefaultLayer(u8),
    DefaultLayer(u8),
    TriggerMacro(u8),
    Steno(String),
    User(u8),
    KeyboardControl(String),
    Light(String),
    Special(String),
    Key(String),
}

/// What one position of a keymap does.
#[derive(Debug)]
pub enum KeyActionExpr {
    Transparent,
    No,
    /// Tap action, hold action and index of the morse profile.
    TapHold(ActionExpr, ActionExpr, u8),
    /// Layer tap-toggle.
    TapToggle(u8),
    /// A morse key by its index.
    Morse(u8),
    Single(ActionExpr),
}

/// An [`ActionExpr`] as contracts speak of it.
pub enum ActionView {
    No,
    Modifier(ModifierCombinationMacro),
    KeyWithModifier(Seq<char>, ModifierCombinationMacro),
    OneShotModifier(ModifierCombinationMacro),
    LayerOnWithModifier(u8, ModifierCombinationMacro),
    LayerOn(u8),
    OneShotLayer(u8),
    LayerToggle(u8),
    LayerToggleOnly(u8),
    PersistentDefaultLayer(u8),
    DefaultLayer(u8),
    TriggerMacro(u8),
    Steno(Seq<char>),
    User(u8),
    KeyboardControl(Seq<char>),
    Light(Seq<char>),
    Special(Seq<char>),
    Key(Seq<char>),
}

/// A [`KeyActionExpr`] as contracts speak of it.
pub enum KeyActionView {
    Transparent,
    No,
    TapHold(ActionView, ActionView, u8),
    TapToggle(u8),
    Morse(u8),
    Single(ActionView),
}

impl View for ActionExpr {
    type V = ActionView;

    open spec fn view(&self) -> ActionView {
        match *self {
            ActionExpr::No => ActionView::No,
            ActionExpr::Modifier(m) => ActionView::Modifier(m),
            ActionExpr::KeyWithModifier(k, m) => ActionView::KeyWithModifier(k@, m),
            ActionExpr::OneShotModifier(m) => ActionView::OneShotModifier(m),
            ActionExpr::LayerOnWithModifier(n, m) => ActionView::LayerOnWithModifier(n, m),
            ActionExpr::LayerOn(n) => ActionView::LayerOn(n),
            ActionExpr::OneShotLayer(n) => ActionView::OneShotLayer(n),
            ActionExpr::LayerToggle(n) => ActionView::LayerToggle(n),
            ActionExpr::LayerToggleOnly(n) => ActionView::LayerToggleOnly(n),
            ActionExpr::PersistentDefaultLayer(n) => ActionView::PersistentDefaultLayer(n),
            ActionExpr::DefaultLayer(n) => ActionView::DefaultLayer(n),
            ActionExpr::TriggerMacro(n) => ActionView::TriggerMacro(n),
            ActionExpr::Steno(k) => ActionView::Steno(k@),
            ActionExpr::User(n) => ActionView::User(n),
            ActionExpr::KeyboardControl(k) => ActionView::KeyboardControl(k@),
            ActionExpr::Light(k) => ActionView::Light(k@),
            ActionExpr::Special(k) => ActionView::Special(k@),
            ActionExpr::Key(k) => ActionView::Key(k@),
        }
    }
}

impl View for KeyActionExpr {
    type V = KeyActionView;

    open spec fn view(&self) -> KeyActionView {
        match *self {
            KeyActionExpr::Transparent => KeyActionView::Transparent,
            KeyActionExpr::No => KeyActionView::No,
            KeyActionExpr::TapHold(a, b, p) => KeyActionView::TapHold(a@, b@, p),
            KeyActionExpr::TapToggle(n) => KeyActionView::TapToggle(n),
            KeyActionExpr::Morse(n) => KeyActionView::Morse(n),
            KeyActionExpr::Single(a) => KeyActionView::Single(a@),
        }
    }
}

/// An outcome as contracts speak of it: the value, or the text of the message.
pub open spec fn outcome<T>(r: Result<T, String>) -> Result<T, Seq<char>> {
    match r {
        Ok(v) => Ok(v),
        Err(e) => Err(e@),
    }
}

/// The same for a value with a view.
pub open spec fn viewed<T: View>(r: Result<T, String>) -> Result<T::V, Seq<char>> {
    match r {
        Ok(v) => Ok(v@),
        Err(e) => Err(e@),
    }
}

// ---------------------------------------------------------------------------
// Modifiers
// ---------------------------------------------------------------------------

pub open spec fn modifier_table() -> Seq<Seq<char>> {
    seq![
        "LShift"@,
        "LCtrl"@,
        "LAlt"@,
        "LGui"@,
        "RShift"@,
        "RCtrl"@,
        "RAlt"@,
        "RGui"@,
    ]
}

/// The modifiers at some places of the table. One right-hand modifier makes the
/// whole combination a right-hand one.
pub open spec fn modifiers_at(places: Seq<int>) -> ModifierCombinationMacro {
    ModifierCombinationMacro {
        right: exists|i: int| 0 <= i < places.len() && #[trigger] places[i] >= 4,
        gui: places.contains(3) || places.contains(7),
        alt: places.contains(2) || places.contains(6),
        shift: places.contains(0) || places.contains(4),
        ctrl: places.contains(1) || places.contains(5),
    }
}

/// What a combination of modifiers stands for.
pub open spec fn modifiers_of(input: Seq<char>, aliases: Seq<(String, String)>) -> Result<
    ModifierCombinationMacro,
    Seq<char>,
> {
    match name_list(input, "modifier"@, "modifier combination"@, modifier_table(), aliases) {
        Ok(places) => Ok(modifiers_at(places)),
        Err(e) => Err(e),
    }
}

fn modifier_names() -> (r: Vec<String>)
    ensures
        texts(r@) == modifier_table(),
{
    let mut v: Vec<String> = Vec::new();
    v.push(String::from_str("LShift"));
    v.push(String::from_str("LCtrl"));
    v.push(String::from_str("LAlt"));
    v.push(String::from_str("LGui"));
    v.push(String::from_str("RShift"));
    v.push(String::from_str("RCtrl"));
    v.push(String::from_str("RAlt"));
    v.push(String::from_str("RGui"));
    assert(texts(v@) =~= modifier_table());
    v
}

fn combine(places: &Vec<usize>) -> (r: ModifierCombinationMacro)
    ensures
        r == modifiers_at(as_ints(places@)),
{
    let mut m = ModifierCombinationMacro {
        right: false,
        gui: false,
        alt: false,
        shift: false,
        ctrl: false,
    };
    let ghost all = as_ints(places@);
    let mut i: usize = 0;
    while i < places.len()
        invariant
            i <= places@.len(),
            all == as_ints(places@),
            m == modifiers_at(all.subrange(0, i as int)),
        decreases places@.len() - i,
    {
        let k: usize = places[i];
        proof {
            let p = all.subrange(0, i as int);
            let q = all.subrange(0, i + 1);
            assert(q[i as int] == k);
            assert forall|x: int| #[trigger] q.contains(x) == (p.contains(x) || x == k) by {
                if p.contains(x) {
                    let j = choose|j: int| 0 <= j < p.len() && p[j] == x;
                    assert(q[j] == x);
                }
                if q.contains(x) && x != k {
                    let j = choose|j: int| 0 <= j < q.len() && q[j] == x;
                    assert(p[j] == x);
                }
            }
            if modifiers_at(p).right {
                let j = choose|j: int| 0 <= j < p.len() && #[trigger] p[j] >= 4;
                assert(q[j] >= 4);
            }
            if modifiers_at(q).right && k < 4 {
                let j = choose|j: int| 0 <= j < q.len() && #[trigger] q[j] >= 4;
                assert(p[j] >= 4);
            }
        }
        if k == 0 || k == 4 {
            m.shift = true;
        }
        if k == 1 || k == 5 {
            m.ctrl = true;
        }
        if k == 2 || k == 6 {
            m.alt = true;
        }
        if k == 3 || k == 7 {
            m.gui = true;
        }
        if k >= 4 {
            m.right = true;
        }
        i = i + 1;
    }
    assert(all.subrange(0, i as int) =~= all);
    m
}

/// Get modifier combination, in types of mod1 | mod2 | ...
pub fn parse_modifiers(modifiers_str: &str, vocabulary: &Vocabulary) -> (r: Result<
    ModifierCombinationMacro,
    String,
>)
    ensures
        outcome(r) == modifiers_of(modifiers_str@, vocabulary.aliases@),
{
    let table = modifier_names();
    match parse_name_list(
        modifiers_str,
        "modifier",
        "modifier combination",
        &table,
        &vocabulary.aliases,
    ) {
        Ok(places) => Ok(combine(&places)),
        Err(e) => Err(e),
    }
}

// ---------------------------------------------------------------------------
// Call forms
// ---------------------------------------------------------------------------

/// Open parentheses before position `i`; a closing one without a partner counts
/// for nothing.
pub open spec fn depth_at(s: Seq<char>, i: int) -> nat
    decreases i,
{
    if i <= 0 {
        0
    } else {
        let d = depth_at(s, i - 1);
        if s[i - 1] == '(' {
            d + 1
        } else if s[i - 1] == ')' && d > 0 {
            (d - 1) as nat
        } else {
            d
        }
    }
}

/// A trimmed piece, if anything is left of it.
pub open spec fn piece(s: Seq<char>) -> Seq<Seq<char>> {
    if trimmed(s).len() == 0 {
        Seq::empty()
    } else {
        seq![trimmed(s)]
    }
}

/// The pieces between commas outside parentheses, for the part of `s` from
/// `start` on, of which the part up to `i` holds no such comma.
pub open spec fn pieces_from(s: Seq<char>, start: int, i: int) -> Seq<Seq<char>>
    decreases s.len() - i,
{
    if i >= s.len() {
        piece(s.subrange(start, s.len() as int))
    } else if s[i] == ',' && depth_at(s, i) == 0 {
        piece(s.subrange(start, i)) + pieces_from(s, i + 1, i + 1)
    } else {
        pieces_from(s, start, i + 1)
    }
}

/// Arguments of a call form.
pub open spec fn top_level_pieces(s: Seq<char>) -> Seq<Seq<char>> {
    pieces_from(s, 0, 0)
}

fn push_piece(parts: &mut Vec<String>, s: &str)
    ensures
        texts(final(parts)@) == texts(old(parts)@) + piece(s@),
{
    let t = trim(s);
    if t.unicode_len() > 0 {
        parts.push(String::from_str(t));
        assert(texts(parts@) =~= texts(old(parts)@) + seq![t@]);
    } else {
        assert(texts(parts@) =~= texts(old(parts)@) + Seq::<Seq<char>>::empty());
    }
}

/// Split `s` on commas that are *not* nested inside parentheses.
///
/// Each piece is trimmed and empty pieces are dropped. This lets an argument
/// value itself be a parenthesised sub-action that contains commas, e.g.
/// splitting `WM(P, RAlt), LShift, HRM` yields `["WM(P, RAlt)", "LShift", "HRM"]`.
pub fn split_top_level(s: &str) -> (r: Vec<String>)
    ensures
        texts(r@) == top_level_pieces(s@),
{
    let n: usize = s.unicode_len();
    let mut parts: Vec<String> = Vec::new();
    let mut depth: usize = 0;
    let mut start: usize = 0;
    let mut i: usize = 0;
    assert(texts(parts@) + top_level_pieces(s@) =~= top_level_pieces(s@));
    while i < n
        invariant
            n == s@.len(),
            start <= i <= n,
            depth == depth_at(s@, i as int),
            depth <= i,
            texts(parts@) + pieces_from(s@, start as int, i as int) == top_level_pieces(s@),
        decreases n - i,
    {
        let c = s.get_char(i);
        if c == '(' {
            depth = depth + 1;
        } else if c == ')' {
            if depth > 0 {
                depth = depth - 1;
            }
        } else if c == ',' && depth == 0 {
            let ghost now = texts(parts@);
            push_piece(&mut parts, s.substring_char(start, i));
            proof {
                let p = piece(s@.subrange(start as int, i as int));
                let rest = pieces_from(s@, i + 1, i + 1);
                assert(now + (p + rest) =~= texts(parts@) + rest);
            }
            start = i + 1;
        }
        i = i + 1;
    }
    push_piece(&mut parts, s.substring_char(start, n));
    parts
}

pub open spec fn unclosed_message(s: Seq<char>) -> Seq<char> {
    message_start() + "`"@ + s + "` is missing a closing ')'"@
}

/// The arguments of a call form: what stands between its first parenthesis and
/// the one at its end.
pub open spec fn call_arguments(s: Seq<char>) -> Result<Seq<char>, Seq<char>> {
    let open = index_of_char(s, '(');
    if open >= s.len() {
        Err("call-form action must contain '('"@)
    } else {
        let rest = s.subrange(open + 1, s.len() as int);
        if rest.len() > 0 && rest.last() == ')' {
            Ok(rest.drop_last())
        } else {
            Err(unclosed_message(s))
        }
    }
}

/// Strip the `NAME(` prefix and the single trailing `)` of a call-form action,
/// returning the inner argument string (e.g. `WM(P, RAlt)` -> `P, RAlt`).
pub fn strip_call<'a>(s: &'a str) -> (r: Result<&'a str, String>)
    ensures
        match r {
            Ok(inner) => call_arguments(s@) == Ok::<Seq<char>, Seq<char>>(inner@),
            Err(e) => call_arguments(s@) == Err::<Seq<char>, Seq<char>>(e@),
        },
{
    match find_char(s, '(') {
        None => Err(String::from_str("call-form action must contain '('")),
        Some(open) => {
            let n: usize = s.unicode_len();
            if n > open + 1 && s.get_char(n - 1) == ')' {
                proof {
                    assert(s@.subrange(open + 1, n as int).drop_last() =~= s@.subrange(
                        open + 1,
                        n - 1,
                    ));
                }
                Ok(s.substring_char(open + 1, n - 1))
            } else {
                let mut e = String::from_str("\n\u{274c} keyboard.toml: ");
                e.append("`");
                e.append(s);
                e.append("` is missing a closing ')'");
                Err(e)
            }
        },
    }
}

pub open spec fn number_message(raw: Seq<char>, kind: Seq<char>) -> Seq<char> {
    message_start() + kind + " index must be a number, got '"@ + raw + "'"@
}

/// A numeric argument.
pub open spec fn numeric_argument(raw: Seq<char>, kind: Seq<char>) -> Result<u8, Seq<char>> {
    match byte_value(trimmed(raw)) {
        Some(n) => Ok(n),
        None => Err(number_message(raw, kind)),
    }
}

/// Parse a numeric action argument (layer or macro/morse index), rejecting
/// malformed values with context.
pub fn parse_numeric_arg(raw: &str, kind: &str) -> (r: Result<u8, String>)
    ensures
        outcome(r) == numeric_argument(raw@, kind@),
{
    match parse_byte(trim(raw)) {
        Some(n) => Ok(n),
        None => {
            let mut e = String::from_str("\n\u{274c} keyboard.toml: ");
            e.append(kind);
            e.append(" index must be a number, got '");
            e.append(raw);
            e.append("'");
            Err(e)
        },
    }
}

/// The numeric argument of a call form.
pub open spec fn call_number(key: Seq<char>, kind: Seq<char>) -> Result<u8, Seq<char>> {
    match call_arguments(key) {
        Ok(inner) => numeric_argument(inner, kind),
        Err(e) => Err(e),
    }
}

/// Parse the single layer-index argument of a call-form layer action, e.g.
/// `MO(1)`.
pub fn parse_layer(key: &str) -> (r: Result<u8, String>)
    ensures
        outcome(r) == call_number(key@, "layer"@),
{
    parse_call_number(key, "layer")
}

fn parse_call_number(key: &str, kind: &str) -> (r: Result<u8, String>)
    ensures
        outcome(r) == call_number(key@, kind@),
{
    match strip_call(key) {
        Ok(inner) => parse_numeric_arg(inner, kind),
        Err(e) => Err(e),
    }
}

// ---------------------------------------------------------------------------
// Names of keys
// ---------------------------------------------------------------------------

/// The first name whose lower case is `lower`.
pub open spec fn variant_of(names: Seq<Seq<char>>, lower: Seq<char>) -> Option<Seq<char>>
    decreases names.len(),
{
    if names.len() == 0 {
        None
    } else if unicode_lower(names[0]) == lower {
        Some(names[0])
    } else {
        variant_of(names.drop_first(), lower)
    }
}

/// Case-insensitively match a token against some names.
pub fn match_variant<'a>(names: &'a Vec<String>, lower: &str) -> (r: Option<&'a String>)
    ensures
        match r {
            Some(name) => variant_of(texts(names@), lower@) == Some(name@),
            None => variant_of(texts(names@), lower@) is None,
        },
{
    let ghost all = texts(names@);
    let mut i: usize = 0;
    assert(all.subrange(0, all.len() as int) =~= all);
    while i < names.len()
        invariant
            i <= names@.len(),
            all == texts(names@),
            variant_of(all, lower@) == variant_of(
                all.subrange(i as int, all.len() as int),
                lower@,
            ),
        decreases names@.len() - i,
    {
        proof {
            let tail = all.subrange(i as int, all.len() as int);
            assert(tail[0] == names@[i as int]@);
            assert(tail.drop_first() =~= all.subrange(i + 1, all.len() as int));
        }
        if same(to_lowercase(names[i].as_str()).as_str(), lower) {
            return Some(&names[i]);
        }
        i = i + 1;
    }
    None
}

/// The HID keycode that a key names, aliases resolved.
pub open spec fn hid_keycode(v: Vocabulary, key: Seq<char>) -> Option<Seq<char>> {
    let name = resolved_alias(v.aliases@, key);
    if index_in(texts(v.hid_keycodes@), name) < v.hid_keycodes@.len() {
        Some(name)
    } else {
        None
    }
}

/// The HID keycode a key string names, or `None` when it names a richer action
/// such as `WM(A, LCtrl)` or `PDF(1)`.
pub fn as_hid_keycode(key: &str, vocabulary: &Vocabulary) -> (r: Option<String>)
    ensures
        match r {
            Some(name) => hid_keycode(*vocabulary, key@) == Some(name@),
            None => hid_keycode(*vocabulary, key@) is None,
        },
{
    let name = resolve_alias(&vocabulary.aliases, key);
    match position_in(&vocabulary.hid_keycodes, name) {
        Some(_) => Some(String::from_str(name)),
        None => None,
    }
}

/// Every name that a key may have.
pub open spec fn all_names(v: Vocabulary) -> Seq<Seq<char>> {
    texts(v.keyboard_actions@) + texts(v.light_actions@) + texts(v.special_keys@) + texts(
        v.hid_keycodes@,
    )
}

fn push_all(to: &mut Vec<String>, from: &Vec<String>)
    ensures
        texts(final(to)@) == texts(old(to)@) + texts(from@),
{
    let mut i: usize = 0;
    assert(texts(to@) =~= texts(old(to)@) + texts(from@).subrange(0, 0));
    while i < from.len()
        invariant
            i <= from@.len(),
            texts(to@) == texts(old(to)@) + texts(from@).subrange(0, i as int),
        decreases from@.len() - i,
    {
        let ghost now = to@;
        to.push(from[i].clone());
        i = i + 1;
        proof {
            assert(texts(to@) =~= texts(now).push(texts(from@)[i - 1]));
            assert(texts(to@) =~= texts(old(to)@) + texts(from@).subrange(0, i as int));
        }
    }
    assert(texts(from@).subrange(0, i as int) =~= texts(from@));
}

pub open spec fn unknown_key_message(v: Vocabulary, key: Seq<char>) -> Seq<char> {
    message_start() + "unknown key '"@ + key + "'"@ + hint(key, all_names(v))
}

/// The message for a key token matching no known form, suggesting the nearest
/// valid name from any vocabulary.
pub fn unknown_key(key: &str, vocabulary: &Vocabulary) -> (r: String)
    ensures
        r@ == unknown_key_message(*vocabulary, key@),
{
    let mut names: Vec<String> = Vec::new();
    assert(texts(names@) =~= Seq::<Seq<char>>::empty());
    push_all(&mut names, &vocabulary.keyboard_actions);
    push_all(&mut names, &vocabulary.light_actions);
    push_all(&mut names, &vocabulary.special_keys);
    push_all(&mut names, &vocabulary.hid_keycodes);
    assert(texts(names@) =~= all_names(*vocabulary));
    let suggestion = hint_for(key, &names);
    let mut e = String::from_str("\n\u{274c} keyboard.toml: ");
    e.append("unknown key '");
    e.append(key);
    e.append("'");
    e.append(suggestion.as_str());
    e
}

pub open spec fn keycode_or_error(v: Vocabulary, key: Seq<char>) -> Result<Seq<char>, Seq<char>> {
    match hid_keycode(v, key) {
        Some(name) => Ok(name),
        None => Err(unknown_key_message(v, key)),
    }
}

pub fn get_key_with_alias(key: &str, vocabulary: &Vocabulary) -> (r: Result<String, String>)
    ensures
        viewed(r) == keycode_or_error(*vocabulary, key@),
{
    match as_hid_keycode(key, vocabulary) {
        Some(name) => Ok(name),
        None => Err(unknown_key(key, vocabulary)),
    }
}

// ---------------------------------------------------------------------------
// Single actions
// ---------------------------------------------------------------------------

/// How an action is written.
#[derive(Clone, Copy, Debug, PartialEq, Eq, Structural)]
pub enum ActionForm {
    No,
    Mod,
    Wm,
    Osm,
    Lm,
    Mo,
    Osl,
    Tg,
    To,
    Pdf,
    Df,
    Macro,
    Shifted,
    Stn,
    UserCall,
    User,
    MacroNumber,
    Name,
}

/// Whether a digit stands at position `at`.
pub open spec fn digit_at(key: Seq<char>, at: int) -> bool {
    at < key.len() && is_digit(key[at])
}

/// The form of an action, by how its lower case starts.
pub open spec fn form_of(key: Seq<char>, lower: Seq<char>) -> ActionForm {
    if lower == "no"@ {
        ActionForm::No
    } else if "mod("@.is_prefix_of(lower) {
        ActionForm::Mod
    } else if "wm("@.is_prefix_of(lower) {
        ActionForm::Wm
    } else if "osm("@.is_prefix_of(lower) {
        ActionForm::Osm
    } else if "lm("@.is_prefix_of(lower) {
        ActionForm::Lm
    } else if "mo("@.is_prefix_of(lower) {
        ActionForm::Mo
    } else if "osl("@.is_prefix_of(lower) {
        ActionForm::Osl
    } else if "tg("@.is_prefix_of(lower) {
        ActionForm::Tg
    } else if "to("@.is_prefix_of(lower) {
        ActionForm::To
    } else if "pdf("@.is_prefix_of(lower) {
        ActionForm::Pdf
    } else if "df("@.is_prefix_of(lower) {
        ActionForm::Df
    } else if "macro("@.is_prefix_of(lower) {
        ActionForm::Macro
    } else if "shifted("@.is_prefix_of(lower) {
        ActionForm::Shifted
    } else if "stn("@.is_prefix_of(lower) {
        ActionForm::Stn
    } else if "user("@.is_prefix_of(lower) {
        ActionForm::UserCall
    } else if "user"@.is_prefix_of(lower) {
        ActionForm::User
    } else if "macro"@.is_prefix_of(lower) && digit_at(key, 5) {
        ActionForm::MacroNumber
    } else {
        ActionForm::Name
    }
}

fn classify(key: &str, lower: &str) -> (r: ActionForm)
    ensures
        r == form_of(key@, lower@),
{
    if same(lower, "no") {
        ActionForm::No
    } else if starts_with(lower, "mod(") {
        ActionForm::Mod
    } else if starts_with(lower, "wm(") {
        ActionForm::Wm
    } else if starts_with(lower, "osm(") {
        ActionForm::Osm
    } else if starts_with(lower, "lm(") {
        ActionForm::Lm
    } else if starts_with(lower, "mo(") {
        ActionForm::Mo
    } else if starts_with(lower, "osl(") {
        ActionForm::Osl
    } else if starts_with(lower, "tg(") {
        ActionForm::Tg
    } else if starts_with(lower, "to(") {
        ActionForm::To
    } else if starts_with(lower, "pdf(") {
        ActionForm::Pdf
    } else if starts_with(lower, "df(") {
        ActionForm::Df
    } else if starts_with(lower, "macro(") {
        ActionForm::Macro
    } else if starts_with(lower, "shifted(") {
        ActionForm::Shifted
    } else if starts_with(lower, "stn(") {
        ActionForm::Stn
    } else if starts_with(lower, "user(") {
        ActionForm::UserCall
    } else if starts_with(lower, "user") {
        ActionForm::User
    } else if starts_with(lower, "macro") && key.unicode_len() > 5 && is_ascii_digit(
        key.get_char(5),
    ) {
        ActionForm::MacroNumber
    } else {
        ActionForm::Name
    }
}

/// What follows the characters before the first digit, without the closing
/// parentheses at the end.
pub open spec fn from_first_digit(s: Seq<char>) -> Seq<char>
    decreases s.len(),
{
    if s.len() > 0 && !is_digit(s[0]) {
        from_first_digit(s.drop_first())
    } else {
        s
    }
}

pub open spec fn without_closing(s: Seq<char>) -> Seq<char>
    decreases s.len(),
{
    if s.len() > 0 && s.last() == ')' {
        without_closing(s.drop_last())
    } else {
        s
    }
}

/// The number of a user key, as it is written.
pub open spec fn user_number(key: Seq<char>, call: bool) -> Seq<char> {
    if call {
        without_closing(from_first_digit(key))
    } else if digit_at(key, 4) {
        key.subrange(4, key.len() as int)
    } else {
        Seq::empty()
    }
}

pub open spec fn bad_user_message(key: Seq<char>) -> Seq<char> {
    message_start() + key + " is not a valid user key! User keys are numbered 0-31."@
}

pub open spec fn user_action(key: Seq<char>, call: bool) -> Result<ActionView, Seq<char>> {
    match byte_value(user_number(key, call)) {
        Some(n) => if n <= 31 {
            Ok(ActionView::User(n))
        } else {
            Err(bad_user_message(key))
        },
        None => Err(bad_user_message(key)),
    }
}

fn user_digits<'a>(key: &'a str, call: bool) -> (r: &'a str)
    ensures
        r@ == user_number(key@, call),
{
    let n: usize = key.unicode_len();
    if !call {
        if n > 4 && is_ascii_digit(key.get_char(4)) {
            return key.substring_char(4, n);
        }
        let r = key.substring_char(n, n);
        assert(r@ =~= Seq::<char>::empty());
        return r;
    }
    let mut a: usize = 0;
    assert(key@.subrange(0, n as int) =~= key@);
    while a < n && !is_ascii_digit(key.get_char(a))
        invariant
            n == key@.len(),
            a <= n,
            from_first_digit(key@) == from_first_digit(key@.subrange(a as int, n as int)),
        decreases n - a,
    {
        proof {
            let t = key@.subrange(a as int, n as int);
            assert(t[0] == key@[a as int]);
            assert(t.drop_first() =~= key@.subrange(a + 1, n as int));
        }
        a = a + 1;
    }
    proof {
        let t = key@.subrange(a as int, n as int);
        if a < n {
            assert(t[0] == key@[a as int]);
        }
        assert(from_first_digit(key@) == t);
    }
    let mut b: usize = n;
    while b > a && key.get_char(b - 1) == ')'
        invariant
            n == key@.len(),
            a <= b <= n,
            user_number(key@, true) == without_closing(key@.subrange(a as int, b as int)),
        decreases b,
    {
        proof {
            let t = key@.subrange(a as int, b as int);
            assert(t.last() == key@[b - 1]);
            assert(t.drop_last() =~= key@.subrange(a as int, b - 1));
        }
        b = b - 1;
    }
    proof {
        let t = key@.subrange(a as int, b as int);
        if a < b {
            assert(t.last() == key@[b - 1]);
        }
    }
    key.substring_char(a, b)
}

fn parse_user(key: &str, call: bool) -> (r: Result<ActionExpr, String>)
    ensures
        viewed(r) == user_action(key@, call),
{
    if let Some(n) = parse_byte(user_digits(key, call)) {
        if n <= 31 {
            return Ok(ActionExpr::User(n));
        }
    }
    let mut e = String::from_str("\n\u{274c} keyboard.toml: ");
    e.append(key);
    e.append(" is not a valid user key! User keys are numbered 0-31.");
    Err(e)
}

/// The left shift alone.
pub open spec fn shift_only() -> ModifierCombinationMacro {
    ModifierCombinationMacro { right: false, gui: false, alt: false, shift: true, ctrl: false }
}

/// `WM(key, modifier)`.
pub open spec fn with_modifier_action(key: Seq<char>, v: Vocabulary) -> Result<
    ActionView,
    Seq<char>,
> {
    match call_arguments(key) {
        Err(e) => Err(e),
        Ok(inner) => {
            let keys = top_level_pieces(inner);
            if keys.len() != 2 {
                Err(message_start() + "WM(key, modifier) invalid"@)
            } else {
                match (keycode_or_error(v, keys[0]), modifiers_of(keys[1], v.aliases@)) {
                    (Err(e), _) => Err(e),
                    (Ok(_), Err(e)) => Err(e),
                    (Ok(name), Ok(m)) => Ok(ActionView::KeyWithModifier(name, m)),
                }
            }
        },
    }
}

/// `LM(layer, modifier)`.
pub open spec fn layer_modifier_action(key: Seq<char>, v: Vocabulary) -> Result<
    ActionView,
    Seq<char>,
> {
    match call_arguments(key) {
        Err(e) => Err(e),
        Ok(inner) => {
            let keys = top_level_pieces(inner);
            if keys.len() != 2 {
                Err(message_start() + "LM(layer, modifier) invalid"@)
            } else {
                match (numeric_argument(keys[0], "layer"@), modifiers_of(keys[1], v.aliases@)) {
                    (Err(e), _) => Err(e),
                    (Ok(_), Err(e)) => Err(e),
                    (Ok(layer), Ok(m)) => Ok(ActionView::LayerOnWithModifier(layer, m)),
                }
            }
        },
    }
}

/// `SHIFTED(key)`.
pub open spec fn shifted_action(key: Seq<char>, v: Vocabulary) -> Result<ActionView, Seq<char>> {
    match call_arguments(key) {
        Err(e) => Err(e),
        Ok(inner) => if inner.len() == 0 {
            Err(message_start() + "SHIFTED(key) invalid"@)
        } else {
            match keycode_or_error(v, inner) {
                Err(e) => Err(e),
                Ok(name) => Ok(ActionView::KeyWithModifier(name, shift_only())),
            }
        },
    }
}

/// A plain name: a keyboard control, light control or special key action, else a
/// HID keycode.
pub open spec fn named_action(key: Seq<char>, lower: Seq<char>, v: Vocabulary) -> Result<
    ActionView,
    Seq<char>,
> {
    match variant_of(texts(v.keyboard_actions@), lower) {
        Some(name) => Ok(ActionView::KeyboardControl(name)),
        None => match variant_of(texts(v.light_actions@), lower) {
            Some(name) => Ok(ActionView::Light(name)),
            None => match variant_of(texts(v.special_keys@), lower) {
                Some(name) => Ok(ActionView::Special(name)),
                None => match keycode_or_error(v, key) {
                    Ok(name) => Ok(ActionView::Key(name)),
                    Err(e) => Err(e),
                },
            },
        },
    }
}

/// An action that is made of a modifier combination alone.
pub open spec fn modifier_argument(key: Seq<char>, v: Vocabulary) -> Result<
    ModifierCombinationMacro,
    Seq<char>,
> {
    match call_arguments(key) {
        Err(e) => Err(e),
        Ok(inner) => modifiers_of(inner, v.aliases@),
    }
}

/// What a single action stands for; `lower` is its lower case.
pub open spec fn action_of(key: Seq<char>, lower: Seq<char>, v: Vocabulary) -> Result<
    ActionView,
    Seq<char>,
> {
    match form_of(key, lower) {
        ActionForm::No => Ok(ActionView::No),
        ActionForm::Mod => match modifier_argument(key, v) {
            Ok(m) => Ok(ActionView::Modifier(m)),
            Err(e) => Err(e),
        },
        ActionForm::Wm => with_modifier_action(key, v),
        ActionForm::Osm => match modifier_argument(key, v) {
            Ok(m) => Ok(ActionView::OneShotModifier(m)),
            Err(e) => Err(e),
        },
        ActionForm::Lm => layer_modifier_action(key, v),
        ActionForm::Mo => match call_number(key, "layer"@) {
            Ok(n) => Ok(ActionView::LayerOn(n)),
            Err(e) => Err(e),
        },
        ActionForm::Osl => match call_number(key, "layer"@) {
            Ok(n) => Ok(ActionView::OneShotLayer(n)),
            Err(e) => Err(e),
        },
        ActionForm::Tg => match call_number(key, "layer"@) {
            Ok(n) => Ok(ActionView::LayerToggle(n)),
            Err(e) => Err(e),
        },
        ActionForm::To => match call_number(key, "layer"@) {
            Ok(n) => Ok(ActionView::LayerToggleOnly(n)),
            Err(e) => Err(e),
        },
        ActionForm::Pdf => match call_number(key, "layer"@) {
            Ok(n) => Ok(ActionView::PersistentDefaultLayer(n)),
            Err(e) => Err(e),
        },
        ActionForm::Df => match call_number(key, "layer"@) {
            Ok(n) => Ok(ActionView::DefaultLayer(n)),
            Err(e) => Err(e),
        },
        ActionForm::Macro => match call_number(key, "macro"@) {
            Ok(n) => Ok(ActionView::TriggerMacro(n)),
            Err(e) => Err(e),
        },
        ActionForm::Shifted => shifted_action(key, v),
        ActionForm::Stn => match call_arguments(key) {
            Ok(inner) => Ok(ActionView::Steno(unicode_upper(trimmed(inner)))),
            Err(e) => Err(e),
        },
        ActionForm::UserCall => user_action(key, true),
        ActionForm::User => user_action(key, false),
        ActionForm::MacroNumber => match numeric_argument(
            key.subrange(5, key.len() as int),
            "macro"@,
        ) {
            Ok(n) => Ok(ActionView::TriggerMacro(n)),
            Err(e) => Err(e),
        },
        ActionForm::Name => named_action(key, lower, v),
    }
}

fn parse_with_modifier(key: &str, vocabulary: &Vocabulary) -> (r: Result<ActionExpr, String>)
    ensures
        viewed(r) == with_modifier_action(key@, *vocabulary),
{
    let inner = match strip_call(key) {
        Ok(inner) => inner,
        Err(e) => return Err(e),
    };
    let keys = split_top_level(inner);
    assert(texts(keys@).len() == keys@.len());
    if keys.len() != 2 {
        let mut e = String::from_str("\n\u{274c} keyboard.toml: ");
        e.append("WM(key, modifier) invalid");
        return Err(e);
    }
    assert(texts(keys@)[0] == keys@[0]@ && texts(keys@)[1] == keys@[1]@);
    let name = match get_key_with_alias(keys[0].as_str(), vocabulary) {
        Ok(name) => name,
        Err(e) => return Err(e),
    };
    match parse_modifiers(keys[1].as_str(), vocabulary) {
        Ok(m) => Ok(ActionExpr::KeyWithModifier(name, m)),
        Err(e) => Err(e),
    }
}

fn parse_layer_modifier(key: &str, vocabulary: &Vocabulary) -> (r: Result<ActionExpr, String>)
    ensures
        viewed(r) == layer_modifier_action(key@, *vocabulary),
{
    let inner = match strip_call(key) {
        Ok(inner) => inner,
        Err(e) => return Err(e),
    };
    let keys = split_top_level(inner);
    assert(texts(keys@).len() == keys@.len());
    if keys.len() != 2 {
        let mut e = String::from_str("\n\u{274c} keyboard.toml: ");
        e.append("LM(layer, modifier) invalid");
        return Err(e);
    }
    assert(texts(keys@)[0] == keys@[0]@ && texts(keys@)[1] == keys@[1]@);
    let layer = match parse_numeric_arg(keys[0].as_str(), "layer") {
        Ok(n) => n,
        Err(e) => return Err(e),
    };
    match parse_modifiers(keys[1].as_str(), vocabulary) {
        Ok(m) => Ok(ActionExpr::LayerOnWithModifier(layer, m)),
        Err(e) => Err(e),
    }
}

fn parse_shifted(key: &str, vocabulary: &Vocabulary) -> (r: Result<ActionExpr, String>)
    ensures
        viewed(r) == shifted_action(key@, *vocabulary),
{
    let inner = match strip_call(key) {
        Ok(inner) => inner,
        Err(e) => return Err(e),
    };
    if inner.unicode_len() == 0 {
        let mut e = String::from_str("\n\u{274c} keyboard.toml: ");
        e.append("SHIFTED(key) invalid");
        return Err(e);
    }
    let shift = ModifierCombinationMacro {
        right: false,
        gui: false,
        alt: false,
        shift: true,
        ctrl: false,
    };
    match get_key_with_alias(inner, vocabulary) {
        Ok(name) => Ok(ActionExpr::KeyWithModifier(name, shift)),
        Err(e) => Err(e),
    }
}

fn parse_modifier_argument(key: &str, vocabulary: &Vocabulary) -> (r: Result<
    ModifierCombinationMacro,
    String,
>)
    ensures
        outcome(r) == modifier_argument(key@, *vocabulary),
{
    match strip_call(key) {
        Ok(inner) => parse_modifiers(inner, vocabulary),
        Err(e) => Err(e),
    }
}

fn parse_named(key: &str, lower: &str, vocabulary: &Vocabulary) -> (r: Result<ActionExpr, String>)
    ensures
        viewed(r) == named_action(key@, lower@, *vocabulary),
{
    if let Some(name) = match_variant(&vocabulary.keyboard_actions, lower) {
        return Ok(ActionExpr::KeyboardControl(name.clone()));
    }
    if let Some(name) = match_variant(&vocabulary.light_actions, lower) {
        return Ok(ActionExpr::Light(name.clone()));
    }
    if let Some(name) = match_variant(&vocabulary.special_keys, lower) {
        return Ok(ActionExpr::Special(name.clone()));
    }
    match get_key_with_alias(key, vocabulary) {
        Ok(name) => Ok(ActionExpr::Key(name)),
        Err(e) => Err(e),
    }
}

/// Parses a single action whose lower case is `lower`.
pub fn parse_lowered_action(key: &str, lower: &str, vocabulary: &Vocabulary) -> (r: Result<
    ActionExpr,
    String,
>)
    ensures
        viewed(r) == action_of(key@, lower@, *vocabulary),
{
    match classify(key, lower) {
        ActionForm::No => Ok(ActionExpr::No),
        ActionForm::Mod => match parse_modifier_argument(key, vocabulary) {
            Ok(m) => Ok(ActionExpr::Modifier(m)),
            Err(e) => Err(e),
        },
        ActionForm::Wm => parse_with_modifier(key, vocabulary),
        ActionForm::Osm => match parse_modifier_argument(key, vocabulary) {
            Ok(m) => Ok(ActionExpr::OneShotModifier(m)),
            Err(e) => Err(e),
        },
        ActionForm::Lm => parse_layer_modifier(key, vocabulary),
        ActionForm::Mo => match parse_layer(key) {
            Ok(n) => Ok(ActionExpr::LayerOn(n)),
            Err(e) => Err(e),
        },
        ActionForm::Osl => match parse_layer(key) {
            Ok(n) => Ok(ActionExpr::OneShotLayer(n)),
            Err(e) => Err(e),
        },
        ActionForm::Tg => match parse_layer(key) {
            Ok(n) => Ok(ActionExpr::LayerToggle(n)),
            Err(e) => Err(e),
        },
        ActionForm::To => match parse_layer(key) {
            Ok(n) => Ok(ActionExpr::LayerToggleOnly(n)),
            Err(e) => Err(e),
        },
        ActionForm::Pdf => match parse_layer(key) {
            Ok(n) => Ok(ActionExpr::PersistentDefaultLayer(n)),
            Err(e) => Err(e),
        },
        ActionForm::Df => match parse_layer(key) {
            Ok(n) => Ok(ActionExpr::DefaultLayer(n)),
            Err(e) => Err(e),
        },
        ActionForm::Macro => match parse_call_number(key, "macro") {
            Ok(n) => Ok(ActionExpr::TriggerMacro(n)),
            Err(e) => Err(e),
        },
        ActionForm::Shifted => parse_shifted(key, vocabulary),
        ActionForm::Stn => match strip_call(key) {
            Ok(inner) => Ok(ActionExpr::Steno(to_uppercase(trim(inner)))),
            Err(e) => Err(e),
        },
        ActionForm::UserCall => parse_user(key, true),
        ActionForm::User => parse_user(key, false),
        ActionForm::MacroNumber => {
            let n: usize = key.unicode_len();
            match parse_numeric_arg(key.substring_char(5, n), "macro") {
                Ok(index) => Ok(ActionExpr::TriggerMacro(index)),
                Err(e) => Err(e),
            }
        },
        ActionForm::Name => parse_named(key, lower, vocabulary),
    }
}

/// Parse a single "action expression".
///
/// These forms each map to exactly one action, so they may appear both at the top
/// level (wrapped in [`KeyActionExpr::Single`] by [`parse_key`]) and inside the
/// tap/hold slots of `MT`/`TH`/`LT`. Composite forms (`MT`/`TH`/`LT`/`TT`/`TD`)
/// and `Transparent` are *not* handled here: they only exist at the top level.
pub fn parse_action(key: &str, vocabulary: &Vocabulary) -> (r: Result<ActionExpr, String>)
    ensures
        viewed(r) == action_of(key@, unicode_lower(key@), *vocabulary),
{
    let lower = to_lowercase(key);
    parse_lowered_action(key, lower.as_str(), vocabulary)
}

// ---------------------------------------------------------------------------
// Keys
// ---------------------------------------------------------------------------

/// A single action, lower case and all.
pub open spec fn single_action(key: Seq<char>, v: Vocabulary) -> Result<ActionView, Seq<char>> {
    action_of(key, unicode_lower(key), v)
}

pub open spec fn third(keys: Seq<Seq<char>>) -> Option<Seq<char>> {
    if keys.len() > 2 {
        Some(keys[2])
    } else {
        None
    }
}

/// Puts a tap-hold key together, reporting the first of its parts that is wrong.
pub open spec fn tap_hold(
    first: Result<ActionView, Seq<char>>,
    second: Result<ActionView, Seq<char>>,
    profile: Result<u8, Seq<char>>,
    swap: bool,
) -> Result<KeyActionView, Seq<char>> {
    match (first, second, profile) {
        (Err(e), _, _) => Err(e),
        (Ok(_), Err(e), _) => Err(e),
        (Ok(_), Ok(_), Err(e)) => Err(e),
        (Ok(a), Ok(b), Ok(p)) => if swap {
            Ok(KeyActionView::TapHold(b, a, p))
        } else {
            Ok(KeyActionView::TapHold(a, b, p))
        },
    }
}

pub open spec fn as_modifier(m: Result<ModifierCombinationMacro, Seq<char>>) -> Result<
    ActionView,
    Seq<char>,
> {
    match m {
        Ok(m) => Ok(ActionView::Modifier(m)),
        Err(e) => Err(e),
    }
}

pub open spec fn as_layer(n: Result<u8, Seq<char>>) -> Result<ActionView, Seq<char>> {
    match n {
        Ok(n) => Ok(ActionView::LayerOn(n)),
        Err(e) => Err(e),
    }
}

/// `MT(key, modifier)`, `TH(key_tap, key_hold)` and `LT(layer, key)`, each with an
/// optional profile.
#[derive(Clone, Copy, Debug, PartialEq, Eq, Structural)]
pub enum TapHoldForm {
    Mt,
    Th,
    Lt,
}

pub open spec fn arity_message(form: TapHoldForm) -> Seq<char> {
    match form {
        TapHoldForm::Mt => message_start() + "MT(key, modifier) invalid"@,
        TapHoldForm::Th => message_start() + "TH(key_tap, key_hold) invalid"@,
        TapHoldForm::Lt => message_start() + "LT(layer, key) invalid"@,
    }
}

pub open spec fn tap_hold_key(
    form: TapHoldForm,
    key: Seq<char>,
    profiles: Profiles,
    v: Vocabulary,
) -> Result<KeyActionView, Seq<char>> {
    match call_arguments(key) {
        Err(e) => Err(e),
        Ok(inner) => {
            let keys = top_level_pieces(inner);
            if keys.len() < 2 || keys.len() > 3 {
                Err(arity_message(form))
            } else {
                let profile = profile_index(third(keys), profiles);
                match form {
                    TapHoldForm::Mt => tap_hold(
                        single_action(keys[0], v),
                        as_modifier(modifiers_of(keys[1], v.aliases@)),
                        profile,
                        false,
                    ),
                    TapHoldForm::Th => tap_hold(
                        single_action(keys[0], v),
                        single_action(keys[1], v),
                        profile,
                        false,
                    ),
                    TapHoldForm::Lt => tap_hold(
                        as_layer(numeric_argument(keys[0], "layer"@)),
                        single_action(keys[1], v),
                        profile,
                        true,
                    ),
                }
            }
        },
    }
}

pub open spec fn all_underscores(key: Seq<char>) -> bool {
    forall|i: int| 0 <= i < key.len() ==> key[i] == '_'
}

/// What a key of the keymap stands for; `lower` is its lower case.
pub open spec fn key_of(
    key: Seq<char>,
    lower: Seq<char>,
    profiles: Profiles,
    v: Vocabulary,
) -> Result<KeyActionView, Seq<char>> {
    if key.len() > 0 && (all_underscores(key) || lower == "trns"@) {
        Ok(KeyActionView::Transparent)
    } else if key == "No"@ {
        Ok(KeyActionView::No)
    } else if "mt("@.is_prefix_of(lower) {
        tap_hold_key(TapHoldForm::Mt, key, profiles, v)
    } else if "th("@.is_prefix_of(lower) {
        tap_hold_key(TapHoldForm::Th, key, profiles, v)
    } else if "lt("@.is_prefix_of(lower) {
        tap_hold_key(TapHoldForm::Lt, key, profiles, v)
    } else if "tt("@.is_prefix_of(lower) {
        match call_number(key, "layer"@) {
            Ok(n) => Ok(KeyActionView::TapToggle(n)),
            Err(e) => Err(e),
        }
    } else if "td("@.is_prefix_of(lower) || "morse("@.is_prefix_of(lower) {
        match call_number(key, "morse"@) {
            Ok(n) => Ok(KeyActionView::Morse(n)),
            Err(e) => Err(e),
        }
    } else {
        match action_of(key, lower, v) {
            Ok(a) => Ok(KeyActionView::Single(a)),
            Err(e) => Err(e),
        }
    }
}

fn is_underscores(key: &str) -> (r: bool)
    ensures
        r == all_underscores(key@),
{
    let n: usize = key.unicode_len();
    let mut i: usize = 0;
    while i < n
        invariant
            n == key@.len(),
            i <= n,
            forall|j: int| 0 <= j < i ==> key@[j] == '_',
        decreases n - i,
    {
        if key.get_char(i) != '_' {
            return false;
        }
        i = i + 1;
    }
    true
}

fn parse_tap_hold(
    form: TapHoldForm,
    key: &str,
    profiles: &Profiles,
    vocabulary: &Vocabulary,
) -> (r: Result<KeyActionExpr, String>)
    ensures
        viewed(r) == tap_hold_key(form, key@, *profiles, *vocabulary),
{
    let inner = match strip_call(key) {
        Ok(inner) => inner,
        Err(e) => return Err(e),
    };
    let keys = split_top_level(inner);
    let ghost all = texts(keys@);
    assert(all.len() == keys@.len());
    if keys.len() < 2 || keys.len() > 3 {
        let mut e = String::from_str("\n\u{274c} keyboard.toml: ");
        match form {
            TapHoldForm::Mt => e.append("MT(key, modifier) invalid"),
            TapHoldForm::Th => e.append("TH(key_tap, key_hold) invalid"),
            TapHoldForm::Lt => e.append("LT(layer, key) invalid"),
        }
        return Err(e);
    }
    assert(all[0] == keys@[0]@ && all[1] == keys@[1]@);
    let first = match form {
        TapHoldForm::Lt => match parse_numeric_arg(keys[0].as_str(), "layer") {
            Ok(n) => ActionExpr::LayerOn(n),
            Err(e) => return Err(e),
        },
        _ => match parse_action(keys[0].as_str(), vocabulary) {
            Ok(a) => a,
            Err(e) => return Err(e),
        },
    };
    let second = match form {
        TapHoldForm::Mt => match parse_modifiers(keys[1].as_str(), vocabulary) {
            Ok(m) => ActionExpr::Modifier(m),
            Err(e) => return Err(e),
        },
        _ => match parse_action(keys[1].as_str(), vocabulary) {
            Ok(a) => a,
            Err(e) => return Err(e),
        },
    };
    let name = if keys.len() > 2 {
        assert(all[2] == keys@[2]@);
        Some(&keys[2])
    } else {
        None
    };
    let profile = match morse_profile(name, profiles) {
        Ok(p) => p,
        Err(e) => return Err(e),
    };
    match form {
        TapHoldForm::Lt => Ok(KeyActionExpr::TapHold(second, first, profile)),
        _ => Ok(KeyActionExpr::TapHold(first, second, profile)),
    }
}

/// Parses a key of the keymap whose lower case is `lower`.
pub fn parse_lowered_key(
    key: &str,
    lower: &str,
    profiles: &Profiles,
    vocabulary: &Vocabulary,
) -> (r: Result<KeyActionExpr, String>)
    ensures
        viewed(r) == key_of(key@, lower@, *profiles, *vocabulary),
{
    if key.unicode_len() > 0 && (is_underscores(key) || same(lower, "trns")) {
        return Ok(KeyActionExpr::Transparent);
    }
    if same(key, "No") {
        return Ok(KeyActionExpr::No);
    }
    if starts_with(lower, "mt(") {
        parse_tap_hold(TapHoldForm::Mt, key, profiles, vocabulary)
    } else if starts_with(lower, "th(") {
        parse_tap_hold(TapHoldForm::Th, key, profiles, vocabulary)
    } else if starts_with(lower, "lt(") {
        parse_tap_hold(TapHoldForm::Lt, key, profiles, vocabulary)
    } else if starts_with(lower, "tt(") {
        match parse_layer(key) {
            Ok(n) => Ok(KeyActionExpr::TapToggle(n)),
            Err(e) => Err(e),
        }
    } else if starts_with(lower, "td(") || starts_with(lower, "morse(") {
        match parse_call_number(key, "morse") {
            Ok(n) => Ok(KeyActionExpr::Morse(n)),
            Err(e) => Err(e),
        }
    } else {
        match parse_lowered_action(key, lower, vocabulary) {
            Ok(a) => Ok(KeyActionExpr::Single(a)),
            Err(e) => Err(e),
        }
    }
}

/// Parse the key string at a single position.
///
/// Composite tap/hold/morse forms (`MT`/`TH`/`LT`/`TT`/`TD`) and the
/// `Transparent`/`No` variants are handled here; every other form is a single
/// action parsed by [`parse_action`]. The tap/hold slots of `MT`/`TH`/`LT` accept
/// any single-action form, so e.g. `MT(WM(P, RAlt), LShift, HRM)` is valid.
pub fn parse_key(key: &str, profiles: &Profiles, vocabulary: &Vocabulary) -> (r: Result<
    KeyActionExpr,
    String,
>)
    ensures
        viewed(r) == key_of(key@, unicode_lower(key@), *profiles, *vocabulary),
{
    let lower = to_lowercase(key);
    parse_lowered_key(key, lower.as_str(), profiles, vocabulary)
}

// ---------------------------------------------------------------------------
// Laws
// ---------------------------------------------------------------------------

/// An argument as it stands by itself: not empty, no white space at its ends, its
/// parentheses closed and its commas inside them.
pub open spec fn is_argument(a: Seq<char>) -> bool {
    &&& a.len() > 0
    &&& trimmed(a) == a
    &&& depth_at(a, a.len() as int) == 0
    &&& forall|i: int| 0 <= i < a.len() && a[i] == ',' ==> #[trigger] depth_at(a, i) > 0
}

proof fn lemma_depth_prefix(s: Seq<char>, t: Seq<char>, i: int)
    requires
        0 <= i <= s.len(),
        i <= t.len(),
        forall|j: int| 0 <= j < i ==> s[j] == t[j],
    ensures
        depth_at(s, i) == depth_at(t, i),
    decreases i,
{
    if i > 0 {
        lemma_depth_prefix(s, t, i - 1);
    }
}

/// Depth restarts where it is zero.
proof fn lemma_depth_shift(s: Seq<char>, start: int, b: Seq<char>, i: int)
    requires
        0 <= start,
        0 <= i <= b.len(),
        start + i <= s.len(),
        depth_at(s, start) == 0,
        forall|j: int| 0 <= j < i ==> s[start + j] == b[j],
    ensures
        depth_at(s, start + i) == depth_at(b, i),
    decreases i,
{
    if i > 0 {
        lemma_depth_shift(s, start, b, i - 1);
        assert(s[start + (i - 1)] == b[i - 1]);
    }
}

proof fn lemma_pieces_skip(s: Seq<char>, start: int, i: int, k: int)
    requires
        0 <= start <= i <= k <= s.len(),
        forall|j: int| i <= j < k ==> !(s[j] == ',' && #[trigger] depth_at(s, j) == 0),
    ensures
        pieces_from(s, start, i) == pieces_from(s, start, k),
    decreases k - i,
{
    if i < k {
        assert(!(s[i] == ',' && depth_at(s, i) == 0));
        lemma_pieces_skip(s, start, i + 1, k);
    }
}

proof fn lemma_space_before(b: Seq<char>)
    requires
        is_argument(b),
    ensures
        trimmed(seq![' '] + b) == b,
{
    let t = seq![' '] + b;
    assert(t.drop_first() =~= b);
    assert(crate::text::is_space(' '));
    assert(crate::text::trimmed_start(t) == crate::text::trimmed_start(b));
}

/// White space opens and closes nothing.
proof fn lemma_depth_of_space(s: Seq<char>, start: int, a: int)
    requires
        0 <= start <= a <= s.len(),
        depth_at(s, start) == 0,
        forall|j: int| start <= j < a ==> crate::text::is_space(#[trigger] s[j]),
    ensures
        depth_at(s, a) == 0,
    decreases a - start,
{
    if start < a {
        lemma_depth_of_space(s, start, a - 1);
        assert(crate::text::is_space(s[a - 1]));
    }
}

/// Whether a position of a text lies in one of some spans.
pub open spec fn within(spans: Seq<(int, int)>, j: int) -> bool {
    exists|k: int| 0 <= k < spans.len() && (#[trigger] spans[k]).0 <= j < spans[k].1
}

/// Whether `pieces` stand at `spans` in `s`, one after the other from `from` on, and what
/// lies around them is white space and commas outside parentheses.
pub open spec fn laid_out(
    s: Seq<char>,
    from: int,
    spans: Seq<(int, int)>,
    pieces: Seq<Seq<char>>,
) -> bool {
    &&& spans.len() == pieces.len()
    &&& forall|k: int|
        0 <= k < spans.len() ==> from <= (#[trigger] spans[k]).0 < spans[k].1 <= s.len()
            && pieces[k] == s.subrange(spans[k].0, spans[k].1)
    &&& forall|k: int, l: int|
        0 <= k < l < spans.len() ==> (#[trigger] spans[k]).1 <= (#[trigger] spans[l]).0
    &&& forall|j: int|
        from <= j < s.len() ==> #[trigger] within(spans, j) || crate::text::is_space(s[j]) || (s[j]
            == ',' && depth_at(s, j) == 0)
}

/// Whether a text is a single argument, as it stands.
pub open spec fn splits_into_itself(p: Seq<char>) -> bool {
    p.len() > 0 && trimmed(p) == p && top_level_pieces(p) == seq![p]
}

/// The segment of `s` from `start` up to `end` gives one piece that splits into itself, or
/// none where it holds nothing but white space.
proof fn lemma_segment(s: Seq<char>, start: int, end: int) -> (span: (int, int))
    requires
        0 <= start <= end <= s.len(),
        depth_at(s, start) == 0,
        forall|j: int| start <= j < end ==> !(s[j] == ',' && #[trigger] depth_at(s, j) == 0),
    ensures
        start <= span.0 <= span.1 <= end,
        piece(s.subrange(start, end)) == if span.0 < span.1 {
            seq![s.subrange(span.0, span.1)]
        } else {
            Seq::empty()
        },
        span.0 < span.1 ==> splits_into_itself(s.subrange(span.0, span.1)),
        forall|j: int|
            start <= j < end && !(span.0 <= j < span.1) ==> crate::text::is_space(#[trigger] s[j]),
{
    let seg = s.subrange(start, end);
    let (a, b) = crate::text::lemma_trimmed_place(seg);
    let span = (start + a, start + b);
    let p = s.subrange(span.0, span.1);
    assert(seg.subrange(a, b) =~= p);
    assert forall|j: int| start <= j < end && !(span.0 <= j < span.1) implies crate::text::is_space(
        #[trigger] s[j],
    ) by {
        assert(seg[j - start] == s[j]);
    }
    if a < b {
        lemma_depth_of_space(s, start, span.0);
        assert(p[0] == seg[a] && p.last() == seg[b - 1]);
        assert forall|j: int| 0 <= j < p.len() implies !(p[j] == ',' && #[trigger] depth_at(p, j)
            == 0) by {
            lemma_depth_shift(s, span.0, p, j);
            assert(p[j] == s[span.0 + j]);
            assert(!(s[span.0 + j] == ',' && depth_at(s, span.0 + j) == 0));
        }
        lemma_pieces_skip(p, 0, 0, p.len() as int);
        assert(p.subrange(0, p.len() as int) =~= p);
        assert(trimmed(p) == p);
    }
    span
}

proof fn lemma_layout(s: Seq<char>, start: int, i: int) -> (spans: Seq<(int, int)>)
    requires
        0 <= start <= i <= s.len(),
        depth_at(s, start) == 0,
        forall|j: int| start <= j < i ==> !(s[j] == ',' && #[trigger] depth_at(s, j) == 0),
    ensures
        laid_out(s, start, spans, pieces_from(s, start, i)),
        forall|k: int|
            0 <= k < spans.len() ==> splits_into_itself(
                #[trigger] pieces_from(s, start, i)[k],
            ),
    decreases s.len() - i,
{
    let all = pieces_from(s, start, i);
    if i >= s.len() {
        let span = lemma_segment(s, start, i);
        if span.0 < span.1 {
            let spans = seq![span];
            assert forall|j: int| start <= j < s.len() implies #[trigger] within(spans, j)
                || crate::text::is_space(s[j]) by {
                if span.0 <= j < span.1 {
                    assert(spans[0].0 <= j < spans[0].1);
                }
            }
            spans
        } else {
            Seq::empty()
        }
    } else if s[i] == ',' && depth_at(s, i) == 0 {
        let span = lemma_segment(s, start, i);
        assert(depth_at(s, i + 1) == 0);
        let later = lemma_layout(s, i + 1, i + 1);
        let rest = pieces_from(s, i + 1, i + 1);
        let head = piece(s.subrange(start, i));
        assert(all == head + rest);
        let front = if span.0 < span.1 {
            seq![span]
        } else {
            Seq::<(int, int)>::empty()
        };
        let spans = front + later;
        let n = front.len() as int;
        assert(head.len() == n);
        assert forall|k: int| 0 <= k < spans.len() implies start <= (#[trigger] spans[k]).0
            < spans[k].1 <= s.len() && all[k] == s.subrange(spans[k].0, spans[k].1)
            && splits_into_itself(all[k]) by {
            if k < n {
                assert(spans[k] == span);
                assert(all[k] == head[k]);
            } else {
                assert(spans[k] == later[k - n]);
                assert(all[k] == rest[k - n]);
            }
        }
        assert forall|k: int, l: int| 0 <= k < l < spans.len() implies (#[trigger] spans[k]).1 <= (
        #[trigger] spans[l]).0 by {
            assert(spans[l] == later[l - n]);
            if k >= n {
                assert(spans[k] == later[k - n]);
            } else {
                assert(spans[k] == span);
            }
        }
        assert forall|j: int| start <= j < s.len() implies #[trigger] within(spans, j)
            || crate::text::is_space(s[j]) || (s[j] == ',' && depth_at(s, j) == 0) by {
            if span.0 <= j < span.1 {
                assert(spans[0].0 <= j < spans[0].1);
            } else if j > i && within(later, j) {
                let k = choose|k: int|
                    0 <= k < later.len() && (#[trigger] later[k]).0 <= j < later[k].1;
                assert(spans[n + k] == later[k]);
            }
        }
        assert forall|k: int| 0 <= k < spans.len() implies splits_into_itself(
            #[trigger] all[k],
        ) by {
            assert(start <= spans[k].0);
        }
        spans
    } else {
        lemma_layout(s, start, i + 1)
    }
}

/// Splitting loses nothing: the pieces stand in the text one after the other, and what lies
/// around them is white space and commas outside parentheses. Each piece is trimmed, holds
/// something and splits into itself. This holds of any text, whatever its parentheses.
pub proof fn law_pieces_are_laid_out_in_the_text(s: Seq<char>) -> (spans: Seq<(int, int)>)
    ensures
        laid_out(s, 0, spans, top_level_pieces(s)),
        forall|k: int|
            0 <= k < top_level_pieces(s).len() ==> splits_into_itself(
                #[trigger] top_level_pieces(s)[k],
            ),
{
    lemma_layout(s, 0, 0)
}

/// The modifiers of either of two combinations.
pub open spec fn either(
    a: ModifierCombinationMacro,
    b: ModifierCombinationMacro,
) -> ModifierCombinationMacro {
    ModifierCombinationMacro {
        right: a.right || b.right,
        gui: a.gui || b.gui,
        alt: a.alt || b.alt,
        shift: a.shift || b.shift,
        ctrl: a.ctrl || b.ctrl,
    }
}

/// Two modifier combinations with a bar between them stand for the modifiers of either: order
/// and repetition do not matter.
pub proof fn law_joined_modifiers_are_the_union(
    a: Seq<char>,
    b: Seq<char>,
    aliases: Seq<(String, String)>,
)
    requires
        modifiers_of(a, aliases) is Ok,
        modifiers_of(b, aliases) is Ok,
    ensures
        modifiers_of(a + seq!['|'] + b, aliases) == Ok::<ModifierCombinationMacro, Seq<char>>(
            either(modifiers_of(a, aliases)->Ok_0, modifiers_of(b, aliases)->Ok_0),
        ),
{
    let sa = crate::text::split_on(a, '|');
    let sb = crate::text::split_on(b, '|');
    crate::text::lemma_split_on_joined(a, '|', b);
    crate::codegen::names::lemma_tokens_joined(modifier_table(), aliases, sa, sb);
    let p = crate::codegen::names::known_tokens(modifier_table(), aliases, sa);
    let q = crate::codegen::names::known_tokens(modifier_table(), aliases, sb);
    let all = p + q;
    assert(crate::codegen::names::unknown_tokens(modifier_table(), aliases, sa + sb).len() == 0);
    assert forall|x: int| #[trigger] all.contains(x) == (p.contains(x) || q.contains(x)) by {
        if p.contains(x) {
            let k = choose|k: int| 0 <= k < p.len() && p[k] == x;
            assert(all[k] == x);
        }
        if q.contains(x) {
            let k = choose|k: int| 0 <= k < q.len() && q[k] == x;
            assert(all[p.len() + k] == x);
        }
        if all.contains(x) {
            let k = choose|k: int| 0 <= k < all.len() && all[k] == x;
            if k < p.len() {
                assert(p[k] == x);
            } else {
                assert(q[k - p.len()] == x);
            }
        }
    }
    if modifiers_at(p).right {
        let k = choose|k: int| 0 <= k < p.len() && #[trigger] p[k] >= 4;
        assert(all[k] >= 4);
    }
    if modifiers_at(q).right {
        let k = choose|k: int| 0 <= k < q.len() && #[trigger] q[k] >= 4;
        assert(all[p.len() + k] >= 4);
    }
    if modifiers_at(all).right {
        let k = choose|k: int| 0 <= k < all.len() && #[trigger] all[k] >= 4;
        if k < p.len() {
            assert(p[k] >= 4);
        } else {
            assert(q[k - p.len()] >= 4);
        }
    }
    assert(modifiers_at(all) == either(modifiers_at(p), modifiers_at(q)));
}

/// Each of the eight names on its own stands for exactly its modifier, and a right-hand name
/// for the right-hand one; white space around it does not matter. No other name stands for a
/// combination.
pub proof fn law_each_modifier_name_stands_for_its_modifier(
    input: Seq<char>,
    aliases: Seq<(String, String)>,
)
    requires
        forall|i: int| 0 <= i < input.len() ==> input[i] != '|',
        trimmed(input).len() > 0,
    ensures
        ({
            let name = crate::codegen::names::resolved_alias(aliases, trimmed(input));
            let none = ModifierCombinationMacro {
                right: false,
                gui: false,
                alt: false,
                shift: false,
                ctrl: false,
            };
            let m = modifiers_of(input, aliases);
            &&& name == "LShift"@ ==> m == Ok::<_, Seq<char>>(
                ModifierCombinationMacro {
                    shift: true,
                    ..none
                },
            )
            &&& name == "LCtrl"@ ==> m == Ok::<_, Seq<char>>(
                ModifierCombinationMacro {
                    ctrl: true,
                    ..none
                },
            )
            &&& name == "LAlt"@ ==> m == Ok::<_, Seq<char>>(
                ModifierCombinationMacro {
                    alt: true,
                    ..none
                },
            )
            &&& name == "LGui"@ ==> m == Ok::<_, Seq<char>>(
                ModifierCombinationMacro {
                    gui: true,
                    ..none
                },
            )
            &&& name == "RShift"@ ==> m == Ok::<_, Seq<char>>(
                ModifierCombinationMacro {
                    shift: true,
                    right: true,
                    ..none
                },
            )
            &&& name == "RCtrl"@ ==> m == Ok::<_, Seq<char>>(
                ModifierCombinationMacro {
                    ctrl: true,
                    right: true,
                    ..none
                },
            )
            &&& name == "RAlt"@ ==> m == Ok::<_, Seq<char>>(
                ModifierCombinationMacro {
                    alt: true,
                    right: true,
                    ..none
                },
            )
            &&& name == "RGui"@ ==> m == Ok::<_, Seq<char>>(
                ModifierCombinationMacro {
                    gui: true,
                    right: true,
                    ..none
                },
            )
            &&& m is Ok ==> name == "LShift"@ || name == "LCtrl"@ || name == "LAlt"@ || name
                == "LGui"@ || name == "RShift"@ || name == "RCtrl"@ || name == "RAlt"@ || name
                == "RGui"@
        }),
{
    let name = crate::codegen::names::resolved_alias(aliases, trimmed(input));
    let table = modifier_table();
    lemma_modifier_names_differ();
    let k: int = if name == table[0] {
        0
    } else if name == table[1] {
        1
    } else if name == table[2] {
        2
    } else if name == table[3] {
        3
    } else if name == table[4] {
        4
    } else if name == table[5] {
        5
    } else if name == table[6] {
        6
    } else if name == table[7] {
        7
    } else {
        8
    };
    crate::codegen::names::lemma_one_name(
        input,
        "modifier"@,
        "modifier combination"@,
        table,
        aliases,
        k,
    );
    if k < 8 {
        let places = seq![k];
        assert(places[0] == k);
        assert forall|x: int| #[trigger] places.contains(x) == (x == k) by {
            if x == k {
                assert(places[0] == x);
            }
        }
    }
}

proof fn lemma_modifier_names_differ()
    ensures
        forall|i: int, j: int|
            0 <= i < j < 8 ==> #[trigger] modifier_table()[i] != #[trigger] modifier_table()[j],
{
    reveal_strlit("LShift");
    reveal_strlit("LCtrl");
    reveal_strlit("LAlt");
    reveal_strlit("LGui");
    reveal_strlit("RShift");
    reveal_strlit("RCtrl");
    reveal_strlit("RAlt");
    reveal_strlit("RGui");
    assert forall|i: int, j: int| 0 <= i < j < 8 implies #[trigger] modifier_table()[i]
        != #[trigger] modifier_table()[j] by {
        let a = modifier_table()[i];
        let b = modifier_table()[j];
        assert(a[0] != b[0] || a[1] != b[1]);
    }
}

/// Two arguments, separated by a comma and a space, are split again, whatever
/// commas they hold inside parentheses.
pub proof fn law_arguments_are_split_apart(a: Seq<char>, b: Seq<char>)
    requires
        is_argument(a),
        is_argument(b),
    ensures
        top_level_pieces(a + seq![',', ' '] + b) == seq![a, b],
{
    let s = a + seq![',', ' '] + b;
    let n = a.len() as int;
    assert forall|j: int| 0 <= j < n implies !(s[j] == ',' && #[trigger] depth_at(s, j) == 0) by {
        lemma_depth_prefix(s, a, j);
        if a[j] == ',' {
            assert(depth_at(a, j) > 0);
        }
    }
    lemma_pieces_skip(s, 0, 0, n);
    lemma_depth_prefix(s, a, n);
    assert(s[n] == ',');
    assert(s.subrange(0, n) =~= a);
    assert(depth_at(s, n + 1) == 0);
    assert(s[n + 1] == ' ');
    assert(depth_at(s, n + 2) == 0);
    assert forall|j: int| n + 1 <= j < s.len() implies !(s[j] == ',' && #[trigger] depth_at(s, j)
        == 0) by {
        if j >= n + 2 {
            lemma_depth_shift(s, n + 2, b, j - n - 2);
            assert(s[j] == b[j - n - 2]);
            if b[j - n - 2] == ',' {
                assert(depth_at(b, j - n - 2) > 0);
            }
        }
    }
    lemma_pieces_skip(s, n + 1, n + 1, s.len() as int);
    let tail = s.subrange(n + 1, s.len() as int);
    assert(tail =~= seq![' '] + b);
    lemma_space_before(b);
    assert(pieces_from(s, n + 1, n + 1) == piece(tail));
    assert(pieces_from(s, 0, n) == piece(a) + piece(tail));
    assert(piece(a) + piece(tail) =~= seq![a, b]);
}

/// The tap and hold slots of `TH` take any single action: the key is what its two
/// actions are, with the default profile.
pub proof fn law_tap_hold_slots_take_any_single_action(
    a: Seq<char>,
    b: Seq<char>,
    key: Seq<char>,
    lower: Seq<char>,
    profiles: Profiles,
    v: Vocabulary,
)
    requires
        is_argument(a),
        is_argument(b),
        key == seq!['T', 'H', '('] + (a + seq![',', ' '] + b) + seq![')'],
        "th("@.is_prefix_of(lower),
    ensures
        key_of(key, lower, profiles, v) == tap_hold(
            single_action(a, v),
            single_action(b, v),
            Ok(u8::MAX),
            false,
        ),
{
    lemma_th_dispatch(a + seq![',', ' '] + b, key, lower, profiles, v);
    lemma_th_arguments(a + seq![',', ' '] + b, key);
    law_arguments_are_split_apart(a, b);
    lemma_th_of_two(a, b, key, profiles, v);
}

proof fn lemma_th_of_two(
    a: Seq<char>,
    b: Seq<char>,
    key: Seq<char>,
    profiles: Profiles,
    v: Vocabulary,
)
    requires
        call_arguments(key) is Ok,
        top_level_pieces(call_arguments(key)->Ok_0) == seq![a, b],
    ensures
        tap_hold_key(TapHoldForm::Th, key, profiles, v) == tap_hold(
            single_action(a, v),
            single_action(b, v),
            Ok(u8::MAX),
            false,
        ),
{
    let keys = seq![a, b];
    assert(keys.len() == 2);
    assert(third(keys) is None);
}

proof fn lemma_th_arguments(inner: Seq<char>, key: Seq<char>)
    requires
        key == seq!['T', 'H', '('] + inner + seq![')'],
    ensures
        call_arguments(key) == Ok::<Seq<char>, Seq<char>>(inner),
{
    assert(key[2] == '(');
    crate::text::lemma_index_of_char(key, '(', 2);
    let rest = key.subrange(3, key.len() as int);
    assert(rest.drop_last() =~= inner);
    assert(rest.last() == ')');
}

proof fn lemma_th_dispatch(
    inner: Seq<char>,
    key: Seq<char>,
    lower: Seq<char>,
    profiles: Profiles,
    v: Vocabulary,
)
    requires
        key == seq!['T', 'H', '('] + inner + seq![')'],
        "th("@.is_prefix_of(lower),
    ensures
        key_of(key, lower, profiles, v) == tap_hold_key(TapHoldForm::Th, key, profiles, v),
{
    assert(key[0] == 'T');
    assert(!all_underscores(key));
    assert(lower != "trns"@ && !"mt("@.is_prefix_of(lower) && key != "No"@) by {
        reveal_strlit("th(");
        reveal_strlit("trns");
        reveal_strlit("No");
        reveal_strlit("mt(");
        assert(lower[0] == "th("@[0]);
        assert(lower[1] == "th("@[1]);
        assert("trns"@[1] == 'r');
        assert("mt("@[0] == 'm');
        assert("No"@.len() == 2);
    }
}

proof fn lemma_prefix(p: Seq<char>, s: Seq<char>)
    requires
        p.is_prefix_of(s),
    ensures
        p.len() <= s.len(),
        forall|i: int| 0 <= i < p.len() ==> #[trigger] s[i] == p[i],
{
    assert forall|i: int| 0 <= i < p.len() implies #[trigger] s[i] == p[i] by {
        assert(s.subrange(0, p.len() as int)[i] == s[i]);
    }
}

/// Each call form is told by its name, whatever follows.
proof fn lemma_forms(key: Seq<char>, lower: Seq<char>)
    ensures
        "mod("@.is_prefix_of(lower) ==> form_of(key, lower) == ActionForm::Mod,
        "wm("@.is_prefix_of(lower) ==> form_of(key, lower) == ActionForm::Wm,
        "osm("@.is_prefix_of(lower) ==> form_of(key, lower) == ActionForm::Osm,
        "lm("@.is_prefix_of(lower) ==> form_of(key, lower) == ActionForm::Lm,
        "mo("@.is_prefix_of(lower) ==> form_of(key, lower) == ActionForm::Mo,
        "osl("@.is_prefix_of(lower) ==> form_of(key, lower) == ActionForm::Osl,
        "tg("@.is_prefix_of(lower) ==> form_of(key, lower) == ActionForm::Tg,
        "to("@.is_prefix_of(lower) ==> form_of(key, lower) == ActionForm::To,
        "pdf("@.is_prefix_of(lower) ==> form_of(key, lower) == ActionForm::Pdf,
        "df("@.is_prefix_of(lower) ==> form_of(key, lower) == ActionForm::Df,
        "macro("@.is_prefix_of(lower) ==> form_of(key, lower) == ActionForm::Macro,
        "shifted("@.is_prefix_of(lower) ==> form_of(key, lower) == ActionForm::Shifted,
        "stn("@.is_prefix_of(lower) ==> form_of(key, lower) == ActionForm::Stn,
        "user("@.is_prefix_of(lower) ==> form_of(key, lower) == ActionForm::UserCall,
{
    reveal_strlit("no");
    reveal_strlit("mod(");
    reveal_strlit("wm(");
    reveal_strlit("osm(");
    reveal_strlit("lm(");
    reveal_strlit("mo(");
    reveal_strlit("osl(");
    reveal_strlit("tg(");
    reveal_strlit("to(");
    reveal_strlit("pdf(");
    reveal_strlit("df(");
    reveal_strlit("macro(");
    reveal_strlit("shifted(");
    reveal_strlit("stn(");
    reveal_strlit("user(");
    if "mod("@.is_prefix_of(lower) {
        lemma_prefix("mod("@, lower);
        assert(lower[0] == 'm');
        assert(lower[1] == 'o');
        assert(lower[2] == 'd');
        assert(lower[3] == '(');
    }
    if "wm("@.is_prefix_of(lower) {
        lemma_prefix("wm("@, lower);
        assert(lower[0] == 'w');
        assert(lower[1] == 'm');
        assert(lower[2] == '(');
    }
    if "osm("@.is_prefix_of(lower) {
        lemma_prefix("osm("@, lower);
        assert(lower[0] == 'o');
        assert(lower[1] == 's');
        assert(lower[2] == 'm');
        assert(lower[3] == '(');
    }
    if "lm("@.is_prefix_of(lower) {
        lemma_prefix("lm("@, lower);
        assert(lower[0] == 'l');
        assert(lower[1] == 'm');
        assert(lower[2] == '(');
    }
    if "mo("@.is_prefix_of(lower) {
        lemma_prefix("mo("@, lower);
        assert(lower[0] == 'm');
        assert(lower[1] == 'o');
        assert(lower[2] == '(');
    }
    if "osl("@.is_prefix_of(lower) {
        lemma_prefix("osl("@, lower);
        assert(lower[0] == 'o');
        assert(lower[1] == 's');
        assert(lower[2] == 'l');
        assert(lower[3] == '(');
    }
    if "tg("@.is_prefix_of(lower) {
        lemma_prefix("tg("@, lower);
        assert(lower[0] == 't');
        assert(lower[1] == 'g');
        assert(lower[2] == '(');
    }
    if "to("@.is_prefix_of(lower) {
        lemma_prefix("to("@, lower);
        assert(lower[0] == 't');
        assert(lower[1] == 'o');
        assert(lower[2] == '(');
    }
    if "pdf("@.is_prefix_of(lower) {
        lemma_prefix("pdf("@, lower);
        assert(lower[0] == 'p');
        assert(lower[1] == 'd');
        assert(lower[2] == 'f');
        assert(lower[3] == '(');
    }
    if "df("@.is_prefix_of(lower) {
        lemma_prefix("df("@, lower);
        assert(lower[0] == 'd');
        assert(lower[1] == 'f');
        assert(lower[2] == '(');
    }
    if "macro("@.is_prefix_of(lower) {
        lemma_prefix("macro("@, lower);
        assert(lower[0] == 'm');
        assert(lower[1] == 'a');
        assert(lower[2] == 'c');
        assert(lower[3] == 'r');
        assert(lower[4] == 'o');
        assert(lower[5] == '(');
    }
    if "shifted("@.is_prefix_of(lower) {
        lemma_prefix("shifted("@, lower);
        assert(lower[0] == 's');
        assert(lower[1] == 'h');
        assert(lower[2] == 'i');
        assert(lower[3] == 'f');
        assert(lower[4] == 't');
        assert(lower[5] == 'e');
        assert(lower[6] == 'd');
        assert(lower[7] == '(');
    }
    if "stn("@.is_prefix_of(lower) {
        lemma_prefix("stn("@, lower);
        assert(lower[0] == 's');
        assert(lower[1] == 't');
        assert(lower[2] == 'n');
        assert(lower[3] == '(');
    }
    if "user("@.is_prefix_of(lower) {
        lemma_prefix("user("@, lower);
        assert(lower[0] == 'u');
        assert(lower[1] == 's');
        assert(lower[2] == 'e');
        assert(lower[3] == 'r');
        assert(lower[4] == '(');
    }
}

/// None of the forms of a whole key is one of a single action.
proof fn lemma_key_forms(key: Seq<char>, lower: Seq<char>)
    ensures
        "mt("@.is_prefix_of(lower) ==> lower != "trns"@ && lower.len() >= 3 && !"th("@.is_prefix_of(lower) && !"lt("@.is_prefix_of(lower) && !"tt("@.is_prefix_of(lower) && !"td("@.is_prefix_of(lower) && !"morse("@.is_prefix_of(lower),
        "th("@.is_prefix_of(lower) ==> lower != "trns"@ && lower.len() >= 3 && !"mt("@.is_prefix_of(lower) && !"lt("@.is_prefix_of(lower) && !"tt("@.is_prefix_of(lower) && !"td("@.is_prefix_of(lower) && !"morse("@.is_prefix_of(lower),
        "lt("@.is_prefix_of(lower) ==> lower != "trns"@ && lower.len() >= 3 && !"mt("@.is_prefix_of(lower) && !"th("@.is_prefix_of(lower) && !"tt("@.is_prefix_of(lower) && !"td("@.is_prefix_of(lower) && !"morse("@.is_prefix_of(lower),
        "tt("@.is_prefix_of(lower) ==> lower != "trns"@ && lower.len() >= 3 && !"mt("@.is_prefix_of(lower) && !"th("@.is_prefix_of(lower) && !"lt("@.is_prefix_of(lower) && !"td("@.is_prefix_of(lower) && !"morse("@.is_prefix_of(lower),
        "td("@.is_prefix_of(lower) ==> lower != "trns"@ && lower.len() >= 3 && !"mt("@.is_prefix_of(lower) && !"th("@.is_prefix_of(lower) && !"lt("@.is_prefix_of(lower) && !"tt("@.is_prefix_of(lower) && !"morse("@.is_prefix_of(lower),
        "morse("@.is_prefix_of(lower) ==> lower != "trns"@ && lower.len() >= 6 && !"mt("@.is_prefix_of(lower) && !"th("@.is_prefix_of(lower) && !"lt("@.is_prefix_of(lower) && !"tt("@.is_prefix_of(lower) && !"td("@.is_prefix_of(lower),
{
    reveal_strlit("trns");
    reveal_strlit("mt(");
    reveal_strlit("th(");
    reveal_strlit("lt(");
    reveal_strlit("tt(");
    reveal_strlit("td(");
    reveal_strlit("morse(");
    if "mt("@.is_prefix_of(lower) {
        lemma_prefix("mt("@, lower);
        assert(lower[0] == 'm');
        assert(lower[1] == 't');
        assert(lower[2] == '(');
    }
    if "th("@.is_prefix_of(lower) {
        lemma_prefix("th("@, lower);
        assert(lower[0] == 't');
        assert(lower[1] == 'h');
        assert(lower[2] == '(');
    }
    if "lt("@.is_prefix_of(lower) {
        lemma_prefix("lt("@, lower);
        assert(lower[0] == 'l');
        assert(lower[1] == 't');
        assert(lower[2] == '(');
    }
    if "tt("@.is_prefix_of(lower) {
        lemma_prefix("tt("@, lower);
        assert(lower[0] == 't');
        assert(lower[1] == 't');
        assert(lower[2] == '(');
    }
    if "td("@.is_prefix_of(lower) {
        lemma_prefix("td("@, lower);
        assert(lower[0] == 't');
        assert(lower[1] == 'd');
        assert(lower[2] == '(');
    }
    if "morse("@.is_prefix_of(lower) {
        lemma_prefix("morse("@, lower);
        assert(lower[0] == 'm');
        assert(lower[1] == 'o');
        assert(lower[2] == 'r');
        assert(lower[3] == 's');
        assert(lower[4] == 'e');
        assert(lower[5] == '(');
    }
}

/// The arguments of a call form are what stands between its first parenthesis and its last
/// character, which closes it.
pub proof fn law_arguments_stand_between_the_parentheses(head: Seq<char>, inner: Seq<char>)
    requires
        !head.contains('('),
    ensures
        call_arguments(head + seq!['('] + inner + seq![')']) == Ok::<Seq<char>, Seq<char>>(inner),
        call_arguments(head) is Err,
        call_arguments(head + seq!['(']) is Err,
        inner.len() > 0 && inner.last() != ')' ==> call_arguments(head + seq!['('] + inner) is Err,
{
    let key = head + seq!['('] + inner + seq![')'];
    let n = head.len() as int;
    assert forall|j: int| 0 <= j < n implies key[j] != '(' by {
        assert(key[j] == head[j]);
        assert(head.contains(head[j]));
    }
    assert(key[n] == '(');
    crate::text::lemma_index_of_char(key, '(', n);
    let rest = key.subrange(n + 1, key.len() as int);
    assert(rest.drop_last() =~= inner);
    assert(rest.last() == ')');
    assert forall|j: int| 0 <= j < n implies head[j] != '(' by {
        assert(head.contains(head[j]));
    }
    crate::text::lemma_index_of_char(head, '(', n);
    let bare = head + seq!['('];
    assert forall|j: int| 0 <= j < n implies bare[j] != '(' by {
        assert(bare[j] == head[j]);
    }
    assert(bare[n] == '(');
    crate::text::lemma_index_of_char(bare, '(', n);
    let open = head + seq!['('] + inner;
    if inner.len() > 0 && inner.last() != ')' {
        assert forall|j: int| 0 <= j < n implies open[j] != '(' by {
            assert(open[j] == head[j]);
        }
        assert(open[n] == '(');
        crate::text::lemma_index_of_char(open, '(', n);
        assert(open.subrange(n + 1, open.len() as int).last() == inner.last());
    }
}

/// Each layer and macro form stands for its own action, with the number that its argument
/// names; an argument that names none is refused.
pub proof fn law_each_numbered_form_is_its_own_action(
    head: Seq<char>,
    inner: Seq<char>,
    key: Seq<char>,
    lower: Seq<char>,
    v: Vocabulary,
)
    requires
        !head.contains('('),
        key == head + seq!['('] + inner + seq![')'],
    ensures
        ({
            let action = action_of(key, lower, v);
            let numbered = "mo("@.is_prefix_of(lower) || "osl("@.is_prefix_of(lower)
                || "tg("@.is_prefix_of(lower) || "to("@.is_prefix_of(lower) || "pdf("@.is_prefix_of(
                lower,
            ) || "df("@.is_prefix_of(lower) || "macro("@.is_prefix_of(lower);
            match byte_value(trimmed(inner)) {
                Some(n) => {
                    &&& "mo("@.is_prefix_of(lower) ==> action == Ok::<_, Seq<char>>(
                        ActionView::LayerOn(n),
                    )
                    &&& "osl("@.is_prefix_of(lower) ==> action == Ok::<_, Seq<char>>(
                        ActionView::OneShotLayer(n),
                    )
                    &&& "tg("@.is_prefix_of(lower) ==> action == Ok::<_, Seq<char>>(
                        ActionView::LayerToggle(n),
                    )
                    &&& "to("@.is_prefix_of(lower) ==> action == Ok::<_, Seq<char>>(
                        ActionView::LayerToggleOnly(n),
                    )
                    &&& "pdf("@.is_prefix_of(lower) ==> action == Ok::<_, Seq<char>>(
                        ActionView::PersistentDefaultLayer(n),
                    )
                    &&& "df("@.is_prefix_of(lower) ==> action == Ok::<_, Seq<char>>(
                        ActionView::DefaultLayer(n),
                    )
                    &&& "macro("@.is_prefix_of(lower) ==> action == Ok::<_, Seq<char>>(
                        ActionView::TriggerMacro(n),
                    )
                },
                None => numbered ==> action is Err,
            }
        }),
{
    lemma_forms(key, lower);
    law_arguments_stand_between_the_parentheses(head, inner);
}

/// Each form of a modifier combination stands for its own action with exactly the modifiers that
/// its argument names, and is refused where that names none.
pub proof fn law_each_modifier_form_is_its_own_action(
    head: Seq<char>,
    inner: Seq<char>,
    key: Seq<char>,
    lower: Seq<char>,
    v: Vocabulary,
)
    requires
        !head.contains('('),
        key == head + seq!['('] + inner + seq![')'],
    ensures
        match modifiers_of(inner, v.aliases@) {
            Ok(m) => ("mod("@.is_prefix_of(lower) ==> action_of(key, lower, v) == Ok::<_, Seq<char>>(
                ActionView::Modifier(m),
            )) && ("osm("@.is_prefix_of(lower) ==> action_of(key, lower, v) == Ok::<_, Seq<char>>(
                ActionView::OneShotModifier(m),
            )),
            Err(_) => "mod("@.is_prefix_of(lower) || "osm("@.is_prefix_of(lower) ==> action_of(
                key,
                lower,
                v,
            ) is Err,
        },
{
    lemma_forms(key, lower);
    law_arguments_stand_between_the_parentheses(head, inner);
}

/// `WM` is a key with modifiers and `LM` a layer with modifiers: the first argument is the key or
/// the layer, the second the modifiers, and both have to be right.
pub proof fn law_a_key_or_layer_takes_its_modifiers(
    head: Seq<char>,
    inner: Seq<char>,
    key: Seq<char>,
    lower: Seq<char>,
    v: Vocabulary,
    a: Seq<char>,
    b: Seq<char>,
)
    requires
        !head.contains('('),
        key == head + seq!['('] + inner + seq![')'],
    ensures
        "wm("@.is_prefix_of(lower) && top_level_pieces(inner) == seq![a, b] ==> (match (
            hid_keycode(v, a),
            modifiers_of(b, v.aliases@),
        ) {
            (Some(name), Ok(m)) => action_of(key, lower, v) == Ok::<_, Seq<char>>(
                ActionView::KeyWithModifier(name, m),
            ),
            _ => action_of(key, lower, v) is Err,
        }),
        "lm("@.is_prefix_of(lower) && top_level_pieces(inner) == seq![a, b] ==> (match (
            byte_value(trimmed(a)),
            modifiers_of(b, v.aliases@),
        ) {
            (Some(n), Ok(m)) => action_of(key, lower, v) == Ok::<_, Seq<char>>(
                ActionView::LayerOnWithModifier(n, m),
            ),
            _ => action_of(key, lower, v) is Err,
        }),
        ("wm("@.is_prefix_of(lower) || "lm("@.is_prefix_of(lower)) && top_level_pieces(inner).len()
            != 2 ==> action_of(key, lower, v) is Err,
        "shifted("@.is_prefix_of(lower) ==> (match hid_keycode(v, inner) {
            Some(name) => inner.len() > 0 ==> (action_of(key, lower, v) matches Ok(
                ActionView::KeyWithModifier(k, m),
            ) && k == name && m.shift && !m.ctrl && !m.alt && !m.gui && !m.right),
            None => action_of(key, lower, v) is Err,
        }),
        "stn("@.is_prefix_of(lower) ==> action_of(key, lower, v) == Ok::<_, Seq<char>>(
            ActionView::Steno(unicode_upper(trimmed(inner))),
        ),
{
    lemma_forms(key, lower);
    law_arguments_stand_between_the_parentheses(head, inner);
    let keys = seq![a, b];
    assert(keys.len() == 2 && keys[0] == a && keys[1] == b);
}

/// The tap-hold forms: `MT` taps its first argument and holds the modifiers of its second, `TH`
/// taps its first and holds its second, and `LT` taps its second and holds the layer of its
/// first. A third argument names the profile; without it the key has the default.
pub proof fn law_tap_hold_forms_have_their_tap_and_hold(
    head: Seq<char>,
    inner: Seq<char>,
    key: Seq<char>,
    lower: Seq<char>,
    profiles: Profiles,
    v: Vocabulary,
    a: Seq<char>,
    b: Seq<char>,
    c: Seq<char>,
    named: bool,
)
    requires
        !head.contains('('),
        head.len() > 0 && head[0] != '_',
        key == head + seq!['('] + inner + seq![')'],
        top_level_pieces(inner) == (if named {
            seq![a, b, c]
        } else {
            seq![a, b]
        }),
    ensures
        ({
            let profile = profile_index(
                if named {
                    Some(c)
                } else {
                    None
                },
                profiles,
            );
            let k = key_of(key, lower, profiles, v);
            &&& "mt("@.is_prefix_of(lower) ==> (match (
                single_action(a, v),
                modifiers_of(b, v.aliases@),
                profile,
            ) {
                (Ok(tap), Ok(m), Ok(p)) => k == Ok::<_, Seq<char>>(
                    KeyActionView::TapHold(tap, ActionView::Modifier(m), p),
                ),
                _ => k is Err,
            })
            &&& "th("@.is_prefix_of(lower) ==> (match (
                single_action(a, v),
                single_action(b, v),
                profile,
            ) {
                (Ok(tap), Ok(hold), Ok(p)) => k == Ok::<_, Seq<char>>(
                    KeyActionView::TapHold(tap, hold, p),
                ),
                _ => k is Err,
            })
            &&& "lt("@.is_prefix_of(lower) ==> (match (
                byte_value(trimmed(a)),
                single_action(b, v),
                profile,
            ) {
                (Some(n), Ok(tap), Ok(p)) => k == Ok::<_, Seq<char>>(
                    KeyActionView::TapHold(tap, ActionView::LayerOn(n), p),
                ),
                _ => k is Err,
            })
        }),
{
    assert(key_of(key, lower, profiles, v) == (if "mt("@.is_prefix_of(lower) {
        tap_hold_key(TapHoldForm::Mt, key, profiles, v)
    } else if "th("@.is_prefix_of(lower) {
        tap_hold_key(TapHoldForm::Th, key, profiles, v)
    } else if "lt("@.is_prefix_of(lower) {
        tap_hold_key(TapHoldForm::Lt, key, profiles, v)
    } else {
        key_of(key, lower, profiles, v)
    })) by {
        lemma_key_forms(key, lower);
        lemma_call_is_no_plain_key(head, inner, key);
    }
    assert("mt("@.is_prefix_of(lower) ==> !"th("@.is_prefix_of(lower) && !"lt("@.is_prefix_of(
        lower,
    )) by {
        lemma_key_forms(key, lower);
    }
    assert("th("@.is_prefix_of(lower) ==> !"lt("@.is_prefix_of(lower)) by {
        lemma_key_forms(key, lower);
    }
    assert(call_arguments(key) == Ok::<Seq<char>, Seq<char>>(inner)) by {
        law_arguments_stand_between_the_parentheses(head, inner);
    }
    lemma_tap_hold_arguments(inner, a, b, c, named);
}

proof fn lemma_tap_hold_arguments(
    inner: Seq<char>,
    a: Seq<char>,
    b: Seq<char>,
    c: Seq<char>,
    named: bool,
)
    requires
        top_level_pieces(inner) == (if named {
            seq![a, b, c]
        } else {
            seq![a, b]
        }),
    ensures
        2 <= top_level_pieces(inner).len() <= 3,
        top_level_pieces(inner)[0] == a,
        top_level_pieces(inner)[1] == b,
        third(top_level_pieces(inner)) == (if named {
            Some(c)
        } else {
            None
        }),
{
    if named {
        let wanted = seq![a, b, c];
        assert(wanted[0] == a && wanted[1] == b && wanted[2] == c && wanted.len() == 3);
    } else {
        let wanted = seq![a, b];
        assert(wanted[0] == a && wanted[1] == b && wanted.len() == 2);
    }
}

proof fn lemma_call_is_no_plain_key(head: Seq<char>, inner: Seq<char>, key: Seq<char>)
    requires
        key == head + seq!['('] + inner + seq![')'],
        head.len() > 0 && head[0] != '_',
    ensures
        !all_underscores(key),
        key != "No"@,
{
    reveal_strlit("No");
    assert(key[0] == head[0]);
    assert(key[head.len() as int] == '(');
    assert(key.last() == ')');
    if key == "No"@ {
        assert(key.last() == "No"@[1]);
    }
}

/// A tap-hold key takes two arguments or three.
pub proof fn law_tap_hold_forms_take_two_or_three_arguments(
    form: TapHoldForm,
    key: Seq<char>,
    inner: Seq<char>,
    profiles: Profiles,
    v: Vocabulary,
)
    requires
        call_arguments(key) == Ok::<Seq<char>, Seq<char>>(inner),
        top_level_pieces(inner).len() < 2 || top_level_pieces(inner).len() > 3,
    ensures
        tap_hold_key(form, key, profiles, v) is Err,
{
}

/// The other forms of a key: `TT` toggles its layer, `TD` and `MORSE` are the morse key of their
/// number, underscores alone are transparent, and anything that is none of these is a single
/// action.
pub proof fn law_the_other_keys_are_what_they_are_written_as(
    head: Seq<char>,
    inner: Seq<char>,
    key: Seq<char>,
    lower: Seq<char>,
    profiles: Profiles,
    v: Vocabulary,
    n: nat,
)
    requires
        !head.contains('('),
        head.len() > 0 && head[0] != '_',
        key == head + seq!['('] + inner + seq![')'],
    ensures
        "tt("@.is_prefix_of(lower) ==> (match byte_value(trimmed(inner)) {
            Some(layer) => key_of(key, lower, profiles, v) == Ok::<_, Seq<char>>(
                KeyActionView::TapToggle(layer),
            ),
            None => key_of(key, lower, profiles, v) is Err,
        }),
        "td("@.is_prefix_of(lower) || "morse("@.is_prefix_of(lower) ==> (match byte_value(
            trimmed(inner),
        ) {
            Some(index) => key_of(key, lower, profiles, v) == Ok::<_, Seq<char>>(
                KeyActionView::Morse(index),
            ),
            None => key_of(key, lower, profiles, v) is Err,
        }),
        n > 0 ==> key_of(Seq::new(n, |i: int| '_'), lower, profiles, v) == Ok::<_, Seq<char>>(
            KeyActionView::Transparent,
        ),
        key_of(key, "trns"@, profiles, v) == Ok::<_, Seq<char>>(KeyActionView::Transparent),
        "mo("@.is_prefix_of(lower) || "wm("@.is_prefix_of(lower) || "osm("@.is_prefix_of(lower)
            ==> (match action_of(key, lower, v) {
            Ok(a) => key_of(key, lower, profiles, v) == Ok::<_, Seq<char>>(
                KeyActionView::Single(a),
            ),
            Err(_) => key_of(key, lower, profiles, v) is Err,
        }),
{
    lemma_key_forms(key, lower);
    law_arguments_stand_between_the_parentheses(head, inner);
    lemma_call_is_no_plain_key(head, inner, key);
    lemma_single_forms(lower);
}

proof fn lemma_single_forms(lower: Seq<char>)
    ensures
        "mo("@.is_prefix_of(lower) || "wm("@.is_prefix_of(lower) || "osm("@.is_prefix_of(lower)
            ==> lower != "trns"@ && !"mt("@.is_prefix_of(lower) && !"th("@.is_prefix_of(lower)
            && !"lt("@.is_prefix_of(lower) && !"tt("@.is_prefix_of(lower) && !"td("@.is_prefix_of(
            lower,
        ) && !"morse("@.is_prefix_of(lower),
{
    reveal_strlit("trns");
    reveal_strlit("mo(");
    reveal_strlit("wm(");
    reveal_strlit("osm(");
    reveal_strlit("mt(");
    reveal_strlit("th(");
    reveal_strlit("lt(");
    reveal_strlit("tt(");
    reveal_strlit("td(");
    reveal_strlit("morse(");
    if "mo("@.is_prefix_of(lower) {
        lemma_prefix("mo("@, lower);
        assert(lower[0] == 'm');
        assert(lower[1] == 'o');
        assert(lower[2] == '(');
    }
    if "wm("@.is_prefix_of(lower) {
        lemma_prefix("wm("@, lower);
        assert(lower[0] == 'w');
        assert(lower[1] == 'm');
        assert(lower[2] == '(');
    }
    if "osm("@.is_prefix_of(lower) {
        lemma_prefix("osm("@, lower);
        assert(lower[0] == 'o');
        assert(lower[1] == 's');
        assert(lower[2] == 'm');
        assert(lower[3] == '(');
    }
    if "mt("@.is_prefix_of(lower) {
        lemma_prefix("mt("@, lower);
        assert(lower[0] == 'm');
        assert(lower[1] == 't');
        assert(lower[2] == '(');
    }
    if "th("@.is_prefix_of(lower) {
        lemma_prefix("th("@, lower);
        assert(lower[0] == 't');
        assert(lower[1] == 'h');
        assert(lower[2] == '(');
    }
    if "lt("@.is_prefix_of(lower) {
        lemma_prefix("lt("@, lower);
        assert(lower[0] == 'l');
        assert(lower[1] == 't');
        assert(lower[2] == '(');
    }
    if "tt("@.is_prefix_of(lower) {
        lemma_prefix("tt("@, lower);
        assert(lower[0] == 't');
        assert(lower[1] == 't');
        assert(lower[2] == '(');
    }
    if "td("@.is_prefix_of(lower) {
        lemma_prefix("td("@, lower);
        assert(lower[0] == 't');
        assert(lower[1] == 'd');
        assert(lower[2] == '(');
    }
    if "morse("@.is_prefix_of(lower) {
        lemma_prefix("morse("@, lower);
        assert(lower[0] == 'm');
        assert(lower[1] == 'o');
        assert(lower[2] == 'r');
        assert(lower[3] == 's');
        assert(lower[4] == 'e');
        assert(lower[5] == '(');
    }
}

proof fn lemma_from_first_digit(head: Seq<char>, digits: Seq<char>)
    requires
        forall|i: int| 0 <= i < head.len() ==> !is_digit(head[i]),
        digits.len() > 0 && is_digit(digits[0]),
    ensures
        from_first_digit(head + digits) == digits,
    decreases head.len(),
{
    let s = head + digits;
    if head.len() == 0 {
        assert(s =~= digits);
    } else {
        assert(s[0] == head[0]);
        let t = head.drop_first();
        assert forall|i: int| 0 <= i < t.len() implies !is_digit(t[i]) by {
            assert(t[i] == head[i + 1]);
        }
        lemma_from_first_digit(t, digits);
        assert(s.drop_first() =~= t + digits);
    }
}

proof fn lemma_decimal_ends(n: nat)
    ensures
        crate::text::decimal(n).len() > 0,
        is_digit(crate::text::decimal(n)[0]),
        crate::text::decimal(n).last() != ')',
        trimmed(crate::text::decimal(n)) == crate::text::decimal(n),
        without_closing(crate::text::decimal(n)) == crate::text::decimal(n),
        without_closing(crate::text::decimal(n) + seq![')']) == crate::text::decimal(n),
{
    let d = crate::text::decimal(n);
    crate::text::law_a_number_is_read_back_from_its_digits(n);
    let none = Seq::<char>::empty();
    assert('0' as u32 <= d[0] as u32 <= '9' as u32);
    assert('0' as u32 <= d[d.len() - 1] as u32 <= '9' as u32);
    crate::text::law_trimming_takes_white_space_off_both_ends(none, d, none);
    assert(none + d + none =~= d);
    let closed = d + seq![')'];
    assert(closed.drop_last() =~= d);
    assert(closed.last() == ')');
    assert(d.last() != ')');
    assert(without_closing(d) == d);
    assert(without_closing(closed) == without_closing(closed.drop_last()));
}

/// A user key is told by its number, written behind its name or as its argument: those from 0 to
/// 31 are user keys and no others.
pub proof fn law_user_keys_are_numbered_to_31(head: Seq<char>, name: Seq<char>, n: nat)
    requires
        forall|i: int| 0 <= i < head.len() ==> !is_digit(head[i]),
        name.len() == 4,
    ensures
        ({
            let plain = user_action(name + crate::text::decimal(n), false);
            let called = user_action(head + (crate::text::decimal(n) + seq![')']), true);
            if n <= 31 {
                &&& plain == Ok::<_, Seq<char>>(ActionView::User(n as u8))
                &&& called == Ok::<_, Seq<char>>(ActionView::User(n as u8))
            } else {
                plain is Err && called is Err
            }
        }),
{
    let d = crate::text::decimal(n);
    lemma_decimal_ends(n);
    let plain = name + d;
    assert(plain.subrange(4, plain.len() as int) =~= d);
    assert(plain[4] == d[0]);
    let tail = d + seq![')'];
    assert(tail[0] == d[0]);
    lemma_from_first_digit(head, tail);
    crate::text::law_a_number_is_read_back_from_its_digits(n);
}

/// A macro is told by the number behind its name, up to 255.
pub proof fn law_macros_are_told_by_their_number(
    letters: Seq<char>,
    n: nat,
    lower: Seq<char>,
    v: Vocabulary,
)
    requires
        letters.len() == 5,
        form_of(letters + crate::text::decimal(n), lower) == ActionForm::MacroNumber,
    ensures
        if n <= 255 {
            action_of(letters + crate::text::decimal(n), lower, v) == Ok::<_, Seq<char>>(
                ActionView::TriggerMacro(n as u8),
            )
        } else {
            action_of(letters + crate::text::decimal(n), lower, v) is Err
        },
{
    let d = crate::text::decimal(n);
    lemma_decimal_ends(n);
    let numbered = letters + d;
    assert(numbered.subrange(5, numbered.len() as int) =~= d);
    crate::text::law_a_number_is_read_back_from_its_digits(n);
}

proof fn lemma_variant_of(names: Seq<Seq<char>>, lower: Seq<char>)
    ensures
        match variant_of(names, lower) {
            Some(name) => names.contains(name) && unicode_lower(name) == lower,
            None => forall|i: int| 0 <= i < names.len() ==> unicode_lower(#[trigger] names[i]) != lower,
        },
    decreases names.len(),
{
    if names.len() > 0 {
        if unicode_lower(names[0]) == lower {
            assert(names.contains(names[0]));
        } else {
            let t = names.drop_first();
            lemma_variant_of(t, lower);
            match variant_of(t, lower) {
                Some(name) => {
                    let k = choose|k: int| 0 <= k < t.len() && t[k] == name;
                    assert(names[k + 1] == name);
                },
                None => {
                    assert forall|i: int| 0 <= i < names.len() implies unicode_lower(
                        #[trigger] names[i],
                    ) != lower by {
                        if i > 0 {
                            assert(t[i - 1] == names[i]);
                        }
                    }
                },
            }
        }
    }
}

/// A plain name is looked up without regard to its case among the control, light and special
/// names, in this order, and stands for what was found; any other is a keycode of the vocabulary,
/// by its name or its alias, or refused.
pub proof fn law_a_plain_name_is_looked_up_in_order(key: Seq<char>, lower: Seq<char>, v: Vocabulary)
    ensures
        ({
            let a = named_action(key, lower, v);
            let controls = texts(v.keyboard_actions@);
            let lights = texts(v.light_actions@);
            let specials = texts(v.special_keys@);
            let control = exists|i: int|
                0 <= i < controls.len() && unicode_lower(#[trigger] controls[i]) == lower;
            let light = exists|i: int|
                0 <= i < lights.len() && unicode_lower(#[trigger] lights[i]) == lower;
            let special = exists|i: int|
                0 <= i < specials.len() && unicode_lower(#[trigger] specials[i]) == lower;
            &&& control ==> (a matches Ok(ActionView::KeyboardControl(name)) && controls.contains(
                name,
            ) && unicode_lower(name) == lower)
            &&& !control && light ==> (a matches Ok(ActionView::Light(name)) && lights.contains(name)
                && unicode_lower(name) == lower)
            &&& !control && !light && special ==> (a matches Ok(ActionView::Special(name))
                && specials.contains(name) && unicode_lower(name) == lower)
            &&& !control && !light && !special ==> {
                let name = resolved_alias(v.aliases@, key);
                if texts(v.hid_keycodes@).contains(name) {
                    a == Ok::<_, Seq<char>>(ActionView::Key(name))
                } else {
                    a is Err
                }
            }
        }),
{
    lemma_variant_of(texts(v.keyboard_actions@), lower);
    lemma_variant_of(texts(v.light_actions@), lower);
    lemma_variant_of(texts(v.special_keys@), lower);
    crate::codegen::names::lemma_index_in_place(
        texts(v.hid_keycodes@),
        resolved_alias(v.aliases@, key),
    );
    if let Some(name) = variant_of(texts(v.keyboard_actions@), lower) {
        let k = choose|k: int|
            0 <= k < texts(v.keyboard_actions@).len() && texts(v.keyboard_actions@)[k] == name;
        assert(unicode_lower(texts(v.keyboard_actions@)[k]) == lower);
    }
    if let Some(name) = variant_of(texts(v.light_actions@), lower) {
        let k = choose|k: int|
            0 <= k < texts(v.light_actions@).len() && texts(v.light_actions@)[k] == name;
        assert(unicode_lower(texts(v.light_actions@)[k]) == lower);
    }
    if let Some(name) = variant_of(texts(v.special_keys@), lower) {
        let k = choose|k: int|
            0 <= k < texts(v.special_keys@).len() && texts(v.special_keys@)[k] == name;
        assert(unicode_lower(texts(v.special_keys@)[k]) == lower);
    }
}

} // verus!
