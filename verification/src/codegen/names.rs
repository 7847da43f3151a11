//! The vocabulary of key names, name lists, and suggestions for mistyped names.

use vstd::prelude::*;
use crate::text::{
    same, split_at_char, split_on, texts, to_lowercase, trim, trimmed, unicode_lower,
};

verus! {

/// The names that a keymap may use.
#[derive(Debug)]
pub struct Vocabulary {
    /// Keyboard control actions.
    pub keyboard_actions: Vec<String>,
    /// Light control actions.
    pub light_actions: Vec<String>,
    /// Special keys.
    pub special_keys: Vec<String>,
    /// HID keycodes.
    pub hid_keycodes: Vec<String>,
    /// Other names of keycodes, in lower case, with the keycode each stands for.
    pub aliases: Vec<(String, String)>,
}

/// What every message starts with.
pub open spec fn message_start() -> Seq<char> {
    "\n\u{274c} keyboard.toml: "@
}

// ---------------------------------------------------------------------------
// Aliases
// ---------------------------------------------------------------------------

/// The keycode that a lower-cased name is an alias of.
pub open spec fn alias_of(aliases: Seq<(String, String)>, lowered: Seq<char>) -> Option<Seq<char>>
    decreases aliases.len(),
{
    if aliases.len() == 0 {
        None
    } else if aliases[0].0@ == lowered {
        Some(aliases[0].1@)
    } else {
        alias_of(aliases.drop_first(), lowered)
    }
}

/// The name itself, or the keycode it is an alias of.
pub open spec fn resolved_alias(aliases: Seq<(String, String)>, name: Seq<char>) -> Seq<char> {
    match alias_of(aliases, unicode_lower(name)) {
        Some(keycode) => keycode,
        None => name,
    }
}

fn find_alias<'a>(aliases: &'a Vec<(String, String)>, lowered: &str) -> (r: Option<&'a str>)
    ensures
        match r {
            Some(keycode) => alias_of(aliases@, lowered@) == Some(keycode@),
            None => alias_of(aliases@, lowered@) is None,
        },
{
    let mut i: usize = 0;
    assert(aliases@.subrange(0, aliases@.len() as int) =~= aliases@);
    while i < aliases.len()
        invariant
            i <= aliases@.len(),
            alias_of(aliases@, lowered@) == alias_of(
                aliases@.subrange(i as int, aliases@.len() as int),
                lowered@,
            ),
        decreases aliases@.len() - i,
    {
        proof {
            let tail = aliases@.subrange(i as int, aliases@.len() as int);
            assert(tail[0] == aliases@[i as int]);
            assert(tail.drop_first() =~= aliases@.subrange(i + 1, aliases@.len() as int));
        }
        if same(aliases[i].0.as_str(), lowered) {
            return Some(aliases[i].1.as_str());
        }
        i = i + 1;
    }
    None
}

/// The name itself, or the keycode it is an alias of, whatever its case.
pub fn resolve_alias<'a>(aliases: &'a Vec<(String, String)>, key: &'a str) -> (r: &'a str)
    ensures
        r@ == resolved_alias(aliases@, key@),
{
    let lowered = to_lowercase(key);
    match find_alias(aliases, lowered.as_str()) {
        Some(keycode) => keycode,
        None => key,
    }
}

// ---------------------------------------------------------------------------
// Suggestions
// ---------------------------------------------------------------------------

pub open spec fn least(a: nat, b: nat, c: nat) -> nat {
    if a <= b && a <= c {
        a
    } else if b <= c {
        b
    } else {
        c
    }
}

/// The least number of insertions, deletions and substitutions that make `b` of
/// `a`.
pub open spec fn edit_distance(a: Seq<char>, b: Seq<char>) -> nat
    decreases a.len() + b.len(),
{
    if a.len() == 0 {
        b.len()
    } else if b.len() == 0 {
        a.len()
    } else {
        let cost = if a.last() == b.last() {
            0nat
        } else {
            1nat
        };
        least(
            edit_distance(a.drop_last(), b) + 1,
            edit_distance(a, b.drop_last()) + 1,
            edit_distance(a.drop_last(), b.drop_last()) + cost,
        )
    }
}

/// `strsim::levenshtein`: the edit distance of two texts, counted in characters.
#[verifier::external_body]
fn levenshtein(a: &str, b: &str) -> (r: usize)
    ensures
        r == edit_distance(a@, b@),
{
    strsim::levenshtein(a, b)
}

/// How far a name is from the lower-cased input.
pub open spec fn distance_to(lowered: Seq<char>, name: Seq<char>) -> nat {
    edit_distance(lowered, unicode_lower(name))
}

/// The first of the names closest to the lower-cased input.
pub open spec fn nearest(lowered: Seq<char>, names: Seq<Seq<char>>) -> int
    decreases names.len(),
{
    if names.len() <= 1 {
        0
    } else {
        let k = nearest(lowered, names.drop_last());
        if distance_to(lowered, names.last()) < distance_to(lowered, names[k]) {
            names.len() - 1
        } else {
            k
        }
    }
}

/// The edits that a suggestion for `input` may take: roughly one per three bytes.
pub open spec fn edits_allowed(input: Seq<char>) -> nat {
    1 + vstd::utf8::encode_utf8(input).len() / 3
}

/// The most similar name, where it is close enough to be meant.
pub open spec fn closest(input: Seq<char>, names: Seq<Seq<char>>) -> Option<Seq<char>> {
    let k = nearest(unicode_lower(input), names);
    if names.len() > 0 && distance_to(unicode_lower(input), names[k]) <= edits_allowed(input) {
        Some(names[k])
    } else {
        None
    }
}

/// Suggest the most similar valid name for an unrecognized token, or `None` when
/// nothing is close enough to be a plausible typo of it.
pub fn closest_name<'a>(input: &str, names: &'a Vec<String>) -> (r: Option<&'a str>)
    ensures
        match r {
            Some(name) => closest(input@, texts(names@)) == Some(name@),
            None => closest(input@, texts(names@)) is None,
        },
{
    if names.len() == 0 {
        return None;
    }
    let lowered = to_lowercase(input);
    let mut best: usize = 0;
    let mut distance: usize = levenshtein(
        lowered.as_str(),
        to_lowercase(names[0].as_str()).as_str(),
    );
    let ghost all = texts(names@);
    let mut i: usize = 1;
    assert(all.subrange(0, 1).len() == 1);
    while i < names.len()
        invariant
            1 <= i <= names@.len(),
            best < i,
            all == texts(names@),
            lowered@ == unicode_lower(input@),
            best == nearest(lowered@, all.subrange(0, i as int)),
            distance == distance_to(lowered@, all[best as int]),
        decreases names@.len() - i,
    {
        let d: usize = levenshtein(lowered.as_str(), to_lowercase(names[i].as_str()).as_str());
        proof {
            let p = all.subrange(0, i + 1);
            assert(p.drop_last() =~= all.subrange(0, i as int));
            assert(p.last() == all[i as int]);
            assert(all[i as int] == names@[i as int]@);
        }
        if d < distance {
            best = i;
            distance = d;
        }
        i = i + 1;
    }
    assert(all.subrange(0, i as int) =~= all);
    let allowed: usize = 1 + input.as_bytes().len() / 3;
    assert(all[best as int] == names@[best as int]@);
    if distance <= allowed {
        Some(names[best].as_str())
    } else {
        None
    }
}

/// A suggestion as it stands behind a name in a message; nothing where there is
/// none.
pub open spec fn hint(input: Seq<char>, names: Seq<Seq<char>>) -> Seq<char> {
    match closest(input, names) {
        Some(name) => " (did you mean "@ + name + "?)"@,
        None => ""@,
    }
}

pub fn hint_for(input: &str, names: &Vec<String>) -> (r: String)
    ensures
        r@ == hint(input@, texts(names@)),
{
    match closest_name(input, names) {
        Some(name) => {
            let mut s = String::from_str(" (did you mean ");
            s.append(name);
            s.append("?)");
            s
        },
        None => String::from_str(""),
    }
}

// ---------------------------------------------------------------------------
// Lists of names
// ---------------------------------------------------------------------------

/// Where a name stands in a table; the table's length where it does not.
pub open spec fn index_in(table: Seq<Seq<char>>, name: Seq<char>) -> int
    decreases table.len(),
{
    if table.len() == 0 || table[0] == name {
        0
    } else {
        1 + index_in(table.drop_first(), name)
    }
}

pub proof fn lemma_index_in(table: Seq<Seq<char>>, name: Seq<char>, k: int)
    requires
        0 <= k <= table.len(),
        forall|j: int| 0 <= j < k ==> table[j] != name,
        k < table.len() ==> table[k] == name,
    ensures
        index_in(table, name) == k,
    decreases k,
{
    if k > 0 {
        let t = table.drop_first();
        assert forall|j: int| 0 <= j < k - 1 implies t[j] != name by {
            assert(table[j + 1] != name);
        }
        lemma_index_in(t, name, k - 1);
    }
}

pub fn position_in(table: &Vec<String>, name: &str) -> (r: Option<usize>)
    ensures
        match r {
            Some(k) => k < table@.len() && k == index_in(texts(table@), name@) && table@[k as int]@
                == name@,
            None => index_in(texts(table@), name@) == table@.len(),
        },
{
    let mut i: usize = 0;
    while i < table.len()
        invariant
            i <= table@.len(),
            forall|j: int| 0 <= j < i ==> texts(table@)[j] != name@,
        decreases table@.len() - i,
    {
        assert(texts(table@)[i as int] == table@[i as int]@);
        if same(table[i].as_str(), name) {
            proof {
                lemma_index_in(texts(table@), name@, i as int);
            }
            return Some(i);
        }
        i = i + 1;
    }
    proof {
        lemma_index_in(texts(table@), name@, i as int);
    }
    None
}

/// Where the table has the token of a segment, aliases resolved.
pub open spec fn token_index(
    table: Seq<Seq<char>>,
    aliases: Seq<(String, String)>,
    segment: Seq<char>,
) -> int {
    index_in(table, resolved_alias(aliases, trimmed(segment)))
}

/// The table's places of the tokens that it knows, in their order.
pub open spec fn known_tokens(
    table: Seq<Seq<char>>,
    aliases: Seq<(String, String)>,
    segments: Seq<Seq<char>>,
) -> Seq<int>
    decreases segments.len(),
{
    if segments.len() == 0 {
        Seq::empty()
    } else {
        let rest = known_tokens(table, aliases, segments.drop_last());
        let i = token_index(table, aliases, segments.last());
        if trimmed(segments.last()).len() > 0 && i < table.len() {
            rest.push(i)
        } else {
            rest
        }
    }
}

/// The tokens that the table does not know, in their order.
pub open spec fn unknown_tokens(
    table: Seq<Seq<char>>,
    aliases: Seq<(String, String)>,
    segments: Seq<Seq<char>>,
) -> Seq<Seq<char>>
    decreases segments.len(),
{
    if segments.len() == 0 {
        Seq::empty()
    } else {
        let rest = unknown_tokens(table, aliases, segments.drop_last());
        let token = trimmed(segments.last());
        if token.len() > 0 && token_index(table, aliases, segments.last()) >= table.len() {
            rest.push(token)
        } else {
            rest
        }
    }
}

/// Whether nothing stands between two separators, or before the first or after
/// the last.
pub open spec fn has_empty_segment(segments: Seq<Seq<char>>) -> bool {
    exists|i: int| 0 <= i < segments.len() && trimmed(#[trigger] segments[i]).len() == 0
}

/// Unknown tokens with their suggestions, separated by commas.
pub open spec fn listed(tokens: Seq<Seq<char>>, table: Seq<Seq<char>>) -> Seq<char>
    decreases tokens.len(),
{
    if tokens.len() == 0 {
        Seq::empty()
    } else {
        let rest = listed(tokens.drop_last(), table);
        let shown = tokens.last() + hint(tokens.last(), table);
        if tokens.len() == 1 {
            rest + shown
        } else {
            rest + ", "@ + shown
        }
    }
}

pub open spec fn unknown_names_message(
    input: Seq<char>,
    item: Seq<char>,
    kind: Seq<char>,
    unknown: Seq<Seq<char>>,
    table: Seq<Seq<char>>,
) -> Seq<char> {
    message_start() + "unknown "@ + item + "(s) ["@ + listed(unknown, table) + "] in "@ + kind
        + " '"@ + trimmed(input) + "'"@
}

pub open spec fn empty_segment_message(input: Seq<char>, kind: Seq<char>) -> Seq<char> {
    message_start() + kind + " '"@ + trimmed(input)
        + "' contains empty segments between '|' separators"@
}

/// What a list of names stands for: the places of its names in the table, or a
/// message. Unknown names are reported before empty segments.
pub open spec fn name_list(
    input: Seq<char>,
    item: Seq<char>,
    kind: Seq<char>,
    table: Seq<Seq<char>>,
    aliases: Seq<(String, String)>,
) -> Result<Seq<int>, Seq<char>> {
    let segments = split_on(input, '|');
    let unknown = unknown_tokens(table, aliases, segments);
    if unknown.len() > 0 {
        Err(unknown_names_message(input, item, kind, unknown, table))
    } else if has_empty_segment(segments) {
        Err(empty_segment_message(input, kind))
    } else {
        Ok(known_tokens(table, aliases, segments))
    }
}

/// The tokens of two lists, one after the other, are those of the one and then those of the
/// other.
pub proof fn lemma_tokens_joined(
    table: Seq<Seq<char>>,
    aliases: Seq<(String, String)>,
    a: Seq<Seq<char>>,
    b: Seq<Seq<char>>,
)
    ensures
        known_tokens(table, aliases, a + b) == known_tokens(table, aliases, a) + known_tokens(
            table,
            aliases,
            b,
        ),
        unknown_tokens(table, aliases, a + b) == unknown_tokens(table, aliases, a)
            + unknown_tokens(table, aliases, b),
        has_empty_segment(a + b) == (has_empty_segment(a) || has_empty_segment(b)),
    decreases b.len(),
{
    let all = a + b;
    if b.len() == 0 {
        assert(all =~= a);
        assert(known_tokens(table, aliases, a) + Seq::<int>::empty() =~= known_tokens(
            table,
            aliases,
            a,
        ));
        assert(unknown_tokens(table, aliases, a) + Seq::<Seq<char>>::empty() =~= unknown_tokens(
            table,
            aliases,
            a,
        ));
    } else {
        lemma_tokens_joined(table, aliases, a, b.drop_last());
        assert(all.drop_last() =~= a + b.drop_last());
        assert(all.last() == b.last());
        assert(known_tokens(table, aliases, all) =~= known_tokens(table, aliases, a)
            + known_tokens(table, aliases, b));
        assert(unknown_tokens(table, aliases, all) =~= unknown_tokens(table, aliases, a)
            + unknown_tokens(table, aliases, b));
    }
    if has_empty_segment(a) {
        let k = choose|k: int| 0 <= k < a.len() && trimmed(#[trigger] a[k]).len() == 0;
        assert(all[k] == a[k]);
    }
    if has_empty_segment(b) {
        let k = choose|k: int| 0 <= k < b.len() && trimmed(#[trigger] b[k]).len() == 0;
        assert(all[a.len() + k] == b[k]);
    }
    if has_empty_segment(all) {
        let k = choose|k: int| 0 <= k < all.len() && trimmed(#[trigger] all[k]).len() == 0;
        if k < a.len() {
            assert(a[k] == all[k]);
        } else {
            assert(b[k - a.len()] == all[k]);
        }
    }
}

pub open spec fn as_ints(v: Seq<usize>) -> Seq<int> {
    v.map_values(|k: usize| k as int)
}

fn list_unknown(tokens: &Vec<String>, table: &Vec<String>) -> (r: String)
    ensures
        r@ == listed(texts(tokens@), texts(table@)),
{
    let mut s = String::new();
    let mut i: usize = 0;
    let ghost all = texts(tokens@);
    assert(all.subrange(0, 0) =~= Seq::<Seq<char>>::empty());
    while i < tokens.len()
        invariant
            i <= tokens@.len(),
            all == texts(tokens@),
            s@ == listed(all.subrange(0, i as int), texts(table@)),
        decreases tokens@.len() - i,
    {
        let ghost before = s@;
        if i > 0 {
            s.append(", ");
        }
        s.append(tokens[i].as_str());
        let suggestion = hint_for(tokens[i].as_str(), table);
        s.append(suggestion.as_str());
        proof {
            let p = all.subrange(0, i + 1);
            assert(p.drop_last() =~= all.subrange(0, i as int));
            assert(p.last() == tokens@[i as int]@);
            let shown = p.last() + hint(p.last(), texts(table@));
            if i > 0 {
                assert(s@ =~= before + ", "@ + shown);
            } else {
                assert(s@ =~= before + shown);
            }
        }
        i = i + 1;
    }
    assert(all.subrange(0, i as int) =~= all);
    s
}

/// Resolve each `|`-separated token of `input` against a table of names: the
/// places of the tokens in the table, in their order. Unknown tokens (with
/// closest-name hints) and empty segments between separators are errors.
pub fn parse_name_list(
    input: &str,
    item: &str,
    kind: &str,
    table: &Vec<String>,
    aliases: &Vec<(String, String)>,
) -> (r: Result<Vec<usize>, String>)
    ensures
        match r {
            Ok(places) => name_list(input@, item@, kind@, texts(table@), aliases@) == Ok::<
                Seq<int>,
                Seq<char>,
            >(as_ints(places@)),
            Err(e) => name_list(input@, item@, kind@, texts(table@), aliases@) == Err::<
                Seq<int>,
                Seq<char>,
            >(e@),
        },
{
    let segments = split_at_char(input, '|');
    let ghost all = texts(segments@);
    let ghost names = texts(table@);
    let mut places: Vec<usize> = Vec::new();
    let mut unknown: Vec<String> = Vec::new();
    let mut empty: bool = false;
    let mut i: usize = 0;
    proof {
        assert(all.subrange(0, 0) =~= Seq::<Seq<char>>::empty());
        assert(as_ints(places@) =~= Seq::<int>::empty());
        assert(texts(unknown@) =~= Seq::<Seq<char>>::empty());
    }
    while i < segments.len()
        invariant
            i <= segments@.len(),
            all == texts(segments@),
            names == texts(table@),
            as_ints(places@) == known_tokens(names, aliases@, all.subrange(0, i as int)),
            texts(unknown@) == unknown_tokens(names, aliases@, all.subrange(0, i as int)),
            empty == has_empty_segment(all.subrange(0, i as int)),
        decreases segments@.len() - i,
    {
        let ghost before = all.subrange(0, i as int);
        let ghost after = all.subrange(0, i + 1);
        proof {
            assert(after.drop_last() =~= before);
            assert(after.last() == segments@[i as int]@);
            if has_empty_segment(before) {
                let k = choose|k: int|
                    0 <= k < before.len() && trimmed(#[trigger] before[k]).len() == 0;
                assert(after[k] == before[k]);
                assert(has_empty_segment(after));
            }
            if has_empty_segment(after) && !has_empty_segment(before) {
                let k = choose|k: int|
                    0 <= k < after.len() && trimmed(#[trigger] after[k]).len() == 0;
                if k < i {
                    assert(before[k] == after[k]);
                }
            }
        }
        let token = trim(segments[i].as_str());
        if token.unicode_len() == 0 {
            empty = true;
            assert(trimmed(after[i as int]).len() == 0);
        } else {
            match position_in(table, resolve_alias(aliases, token)) {
                Some(k) => {
                    let ghost now = as_ints(places@);
                    places.push(k);
                    assert(as_ints(places@) =~= now.push(k as int));
                },
                None => {
                    let ghost now = texts(unknown@);
                    unknown.push(String::from_str(token));
                    assert(texts(unknown@) =~= now.push(token@));
                },
            }
        }
        i = i + 1;
    }
    assert(all.subrange(0, i as int) =~= all);
    if unknown.len() > 0 {
        assert(texts(unknown@).len() > 0);
        let list = list_unknown(&unknown, table);
        let mut s = String::from_str("\n\u{274c} keyboard.toml: ");
        s.append("unknown ");
        s.append(item);
        s.append("(s) [");
        s.append(list.as_str());
        s.append("] in ");
        s.append(kind);
        s.append(" '");
        s.append(trim(input));
        s.append("'");
        return Err(s);
    }
    if empty {
        let mut s = String::from_str("\n\u{274c} keyboard.toml: ");
        s.append(kind);
        s.append(" '");
        s.append(trim(input));
        s.append("' contains empty segments between '|' separators");
        return Err(s);
    }
    Ok(places)
}

// ---------------------------------------------------------------------------
// Laws
// ---------------------------------------------------------------------------

proof fn lemma_nearest(lowered: Seq<char>, names: Seq<Seq<char>>)
    requires
        names.len() > 0,
    ensures
        0 <= nearest(lowered, names) < names.len(),
        forall|i: int|
            0 <= i < names.len() ==> distance_to(lowered, names[nearest(lowered, names)])
                <= distance_to(lowered, #[trigger] names[i]),
    decreases names.len(),
{
    if names.len() > 1 {
        let p = names.drop_last();
        lemma_nearest(lowered, p);
        assert forall|i: int| 0 <= i < names.len() implies distance_to(
            lowered,
            names[nearest(lowered, names)],
        ) <= distance_to(lowered, #[trigger] names[i]) by {
            if i < p.len() {
                assert(p[i] == names[i]);
            }
        }
    }
}

/// A suggestion is one of the names, none of the others is closer, and it is
/// within the allowed number of edits. Where there is none, no name is.
pub proof fn law_a_suggestion_is_the_closest_name(input: Seq<char>, names: Seq<Seq<char>>)
    ensures
        match closest(input, names) {
            Some(name) => {
                &&& names.contains(name)
                &&& distance_to(unicode_lower(input), name) <= edits_allowed(input)
                &&& forall|i: int|
                    0 <= i < names.len() ==> distance_to(unicode_lower(input), name)
                        <= distance_to(unicode_lower(input), #[trigger] names[i])
            },
            None => forall|i: int|
                0 <= i < names.len() ==> distance_to(
                    unicode_lower(input),
                    #[trigger] names[i],
                ) > edits_allowed(input),
        },
{
    if names.len() > 0 {
        lemma_nearest(unicode_lower(input), names);
    }
}

pub proof fn lemma_index_in_place(table: Seq<Seq<char>>, name: Seq<char>)
    ensures
        0 <= index_in(table, name) <= table.len(),
        index_in(table, name) < table.len() ==> table[index_in(table, name)] == name,
        index_in(table, name) == table.len() <==> !table.contains(name),
        forall|j: int| 0 <= j < index_in(table, name) ==> #[trigger] table[j] != name,
    decreases table.len(),
{
    if table.len() > 0 && table[0] != name {
        let t = table.drop_first();
        lemma_index_in_place(t, name);
        assert forall|j: int| 0 <= j < index_in(table, name) implies #[trigger] table[j] != name by {
            if j > 0 {
                assert(t[j - 1] == table[j]);
            }
        }
        if table.contains(name) {
            let k = choose|k: int| 0 <= k < table.len() && table[k] == name;
            assert(t[k - 1] == name);
        }
        if t.contains(name) {
            let k = choose|k: int| 0 <= k < t.len() && t[k] == name;
            assert(table[k + 1] == name);
        }
    }
}

proof fn lemma_name_tokens(
    table: Seq<Seq<char>>,
    aliases: Seq<(String, String)>,
    segments: Seq<Seq<char>>,
)
    ensures
        unknown_tokens(table, aliases, segments).len() == 0 && !has_empty_segment(segments) <==> (
        forall|i: int|
            0 <= i < segments.len() ==> trimmed(#[trigger] segments[i]).len() > 0
                && table.contains(resolved_alias(aliases, trimmed(segments[i])))),
        unknown_tokens(table, aliases, segments).len() == 0 && !has_empty_segment(segments) ==> {
            let places = known_tokens(table, aliases, segments);
            &&& places.len() == segments.len()
            &&& forall|i: int|
                0 <= i < segments.len() ==> 0 <= #[trigger] places[i] < table.len()
                    && table[places[i]] == resolved_alias(aliases, trimmed(segments[i]))
        },
    decreases segments.len(),
{
    if segments.len() > 0 {
        let p = segments.drop_last();
        let last = segments.last();
        lemma_name_tokens(table, aliases, p);
        lemma_index_in_place(table, resolved_alias(aliases, trimmed(last)));
        assert(segments =~= p.push(last));
        if has_empty_segment(p) {
            let k = choose|k: int| 0 <= k < p.len() && trimmed(#[trigger] p[k]).len() == 0;
            assert(segments[k] == p[k]);
        }
        if has_empty_segment(segments) {
            let k = choose|k: int|
                0 <= k < segments.len() && trimmed(#[trigger] segments[k]).len() == 0;
            if k < p.len() {
                assert(p[k] == segments[k]);
            }
        } else {
            assert(trimmed(segments[segments.len() - 1]).len() > 0);
        }
        if forall|i: int|
            0 <= i < segments.len() ==> trimmed(#[trigger] segments[i]).len() > 0
                && table.contains(resolved_alias(aliases, trimmed(segments[i]))) {
            assert forall|i: int| 0 <= i < p.len() implies trimmed(#[trigger] p[i]).len() > 0
                && table.contains(resolved_alias(aliases, trimmed(p[i]))) by {
                assert(segments[i] == p[i]);
            }
            assert(segments[segments.len() - 1] == last);
        }
        if unknown_tokens(table, aliases, segments).len() == 0 && !has_empty_segment(segments) {
            let before = known_tokens(table, aliases, p);
            let places = known_tokens(table, aliases, segments);
            assert(places =~= before.push(token_index(table, aliases, last)));
            assert forall|i: int| 0 <= i < segments.len() implies 0 <= #[trigger] places[i]
                < table.len() && table[places[i]] == resolved_alias(
                aliases,
                trimmed(segments[i]),
            ) by {
                if i < p.len() {
                    assert(places[i] == before[i]);
                    assert(p[i] == segments[i]);
                }
            }
            assert forall|i: int| 0 <= i < segments.len() implies trimmed(
                #[trigger] segments[i],
            ).len() > 0 && table.contains(resolved_alias(aliases, trimmed(segments[i]))) by {
                assert(table[places[i]] == resolved_alias(aliases, trimmed(segments[i])));
            }
        }
    } else {
        assert(!has_empty_segment(segments));
    }
}

/// A list of names is accepted exactly where each of its segments is a name of the table, after
/// trimming and with its alias resolved. It then stands for as many places as it has segments,
/// each of them the place of its name.
pub proof fn law_a_name_list_gives_each_name_its_place(
    input: Seq<char>,
    item: Seq<char>,
    kind: Seq<char>,
    table: Seq<Seq<char>>,
    aliases: Seq<(String, String)>,
)
    ensures
        ({
            let segments = split_on(input, '|');
            match name_list(input, item, kind, table, aliases) {
                Ok(places) => {
                    &&& places.len() == segments.len()
                    &&& forall|i: int|
                        0 <= i < segments.len() ==> trimmed(#[trigger] segments[i]).len() > 0
                    &&& forall|i: int|
                        0 <= i < segments.len() ==> 0 <= #[trigger] places[i] < table.len()
                            && table[places[i]] == resolved_alias(aliases, trimmed(segments[i]))
                },
                Err(_) => exists|i: int|
                    0 <= i < segments.len() && (trimmed(#[trigger] segments[i]).len() == 0
                        || !table.contains(resolved_alias(aliases, trimmed(segments[i])))),
            }
        }),
{
    lemma_name_tokens(table, aliases, split_on(input, '|'));
}

/// A text without a bar is a list of one name.
pub proof fn lemma_one_name(
    input: Seq<char>,
    item: Seq<char>,
    kind: Seq<char>,
    table: Seq<Seq<char>>,
    aliases: Seq<(String, String)>,
    k: int,
)
    requires
        forall|i: int| 0 <= i < input.len() ==> input[i] != '|',
        trimmed(input).len() > 0,
        0 <= k <= table.len(),
        forall|j: int|
            0 <= j < k ==> #[trigger] table[j] != resolved_alias(aliases, trimmed(input)),
        k < table.len() ==> table[k] == resolved_alias(aliases, trimmed(input)),
    ensures
        match name_list(input, item, kind, table, aliases) {
            Ok(places) => k < table.len() && places == seq![k],
            Err(_) => k == table.len(),
        },
{
    crate::text::lemma_index_of_char(input, '|', input.len() as int);
    let segments = split_on(input, '|');
    assert(segments == seq![input]);
    lemma_index_in(table, resolved_alias(aliases, trimmed(input)), k);
    let none = segments.drop_last();
    assert(none =~= Seq::<Seq<char>>::empty());
    assert(known_tokens(table, aliases, none) =~= Seq::<int>::empty());
    assert(unknown_tokens(table, aliases, none).len() == 0);
    assert(segments.last() == input);
    if k < table.len() {
        assert(known_tokens(table, aliases, segments) =~= seq![k]);
        assert(!has_empty_segment(segments)) by {
            if has_empty_segment(segments) {
                let i = choose|i: int|
                    0 <= i < segments.len() && trimmed(#[trigger] segments[i]).len() == 0;
                assert(segments[i] == input);
            }
        }
    }
}

proof fn lemma_alias_place(aliases: Seq<(String, String)>, lowered: Seq<char>)
    ensures
        match alias_of(aliases, lowered) {
            Some(keycode) => exists|k: int|
                0 <= k < aliases.len() && #[trigger] aliases[k].0@ == lowered && aliases[k].1@
                    == keycode && forall|j: int|
                    0 <= j < k ==> #[trigger] aliases[j].0@ != lowered,
            None => forall|j: int| 0 <= j < aliases.len() ==> #[trigger] aliases[j].0@ != lowered,
        },
    decreases aliases.len(),
{
    if aliases.len() > 0 {
        if aliases[0].0@ == lowered {
            assert(aliases[0].1@ == alias_of(aliases, lowered)->0);
        } else {
            let t = aliases.drop_first();
            lemma_alias_place(t, lowered);
            match alias_of(t, lowered) {
                Some(keycode) => {
                    let k = choose|k: int|
                        0 <= k < t.len() && #[trigger] t[k].0@ == lowered && t[k].1@ == keycode
                            && forall|j: int| 0 <= j < k ==> #[trigger] t[j].0@ != lowered;
                    assert(aliases[k + 1] == t[k]);
                    assert forall|j: int| 0 <= j < k + 1 implies #[trigger] aliases[j].0@
                        != lowered by {
                        if j > 0 {
                            assert(t[j - 1] == aliases[j]);
                        }
                    }
                },
                None => {
                    assert forall|j: int| 0 <= j < aliases.len() implies #[trigger] aliases[j].0@
                        != lowered by {
                        if j > 0 {
                            assert(t[j - 1] == aliases[j]);
                        }
                    }
                },
            }
        }
    }
}

/// An alias stands for the keycode of the first entry that holds it, whatever its case: two
/// names with the same lower case stand for the same keycode. A name that is no alias stands
/// for itself.
pub proof fn law_an_alias_is_looked_up_in_lower_case(
    aliases: Seq<(String, String)>,
    name: Seq<char>,
    other: Seq<char>,
    k: int,
)
    requires
        unicode_lower(name) == unicode_lower(other),
    ensures
        0 <= k < aliases.len() && aliases[k].0@ == unicode_lower(name) && (forall|j: int|
            0 <= j < k ==> #[trigger] aliases[j].0@ != unicode_lower(name)) ==> resolved_alias(
            aliases,
            name,
        ) == aliases[k].1@ && resolved_alias(aliases, other) == aliases[k].1@,
        (forall|j: int| 0 <= j < aliases.len() ==> #[trigger] aliases[j].0@ != unicode_lower(name))
            ==> resolved_alias(aliases, name) == name,
{
    lemma_alias_place(aliases, unicode_lower(name));
}

proof fn lemma_nearest_first(lowered: Seq<char>, names: Seq<Seq<char>>)
    requires
        names.len() > 0,
    ensures
        forall|i: int|
            0 <= i < nearest(lowered, names) ==> distance_to(lowered, #[trigger] names[i])
                > distance_to(lowered, names[nearest(lowered, names)]),
    decreases names.len(),
{
    if names.len() > 1 {
        let p = names.drop_last();
        lemma_nearest(lowered, p);
        lemma_nearest_first(lowered, p);
        assert forall|i: int| 0 <= i < nearest(lowered, names) implies distance_to(
            lowered,
            #[trigger] names[i],
        ) > distance_to(lowered, names[nearest(lowered, names)]) by {
            assert(p[i] == names[i]);
        }
    }
}

/// Of names that are equally close the first is suggested, and a name that differs from the
/// input in nothing but its case is as close as can be. A suggestion for an input of `n` bytes
/// takes at most one edit more than a third of them.
pub proof fn law_the_first_of_the_closest_names_is_suggested(
    input: Seq<char>,
    names: Seq<Seq<char>>,
    k: int,
)
    requires
        0 <= k < names.len(),
        forall|i: int|
            0 <= i < names.len() ==> edit_distance(
                unicode_lower(input),
                unicode_lower(names[k]),
            ) <= edit_distance(unicode_lower(input), unicode_lower(#[trigger] names[i])),
        forall|i: int|
            0 <= i < k ==> edit_distance(unicode_lower(input), unicode_lower(names[k]))
                < edit_distance(unicode_lower(input), unicode_lower(#[trigger] names[i])),
    ensures
        closest(input, names) == (if 3 * edit_distance(
            unicode_lower(input),
            unicode_lower(names[k]),
        ) <= vstd::utf8::encode_utf8(input).len() + 3 {
            Some(names[k])
        } else {
            None
        }),
{
    let lowered = unicode_lower(input);
    lemma_nearest(lowered, names);
    lemma_nearest_first(lowered, names);
    let n = nearest(lowered, names);
    assert(distance_to(lowered, names[n]) <= distance_to(lowered, names[k]));
    assert(distance_to(lowered, names[k]) <= distance_to(lowered, names[n]));
    if n < k {
        assert(distance_to(lowered, names[k]) < distance_to(lowered, names[n]));
    }
    if k < n {
        assert(distance_to(lowered, names[k]) > distance_to(lowered, names[n]));
    }
}

/// The edit distance is a distance: nothing separates a text from itself alone, it is the same in
/// both directions, and one character more or other changes it by one at most.
pub proof fn law_the_edit_distance_is_a_distance(a: Seq<char>, b: Seq<char>, c: char, d: char)
    ensures
        edit_distance(a, b) == 0 <==> a == b,
        edit_distance(a, b) == edit_distance(b, a),
        edit_distance(a.push(c), b) <= edit_distance(a, b) + 1,
        edit_distance(a.push(c), b.push(d)) <= edit_distance(a, b) + 1,
        edit_distance(a.push(c), b.push(c)) <= edit_distance(a, b),
        edit_distance(a, Seq::empty()) == a.len(),
    decreases a.len() + b.len(),
{
    if a.len() > 0 && b.len() > 0 {
        law_the_edit_distance_is_a_distance(a.drop_last(), b, c, d);
        law_the_edit_distance_is_a_distance(a, b.drop_last(), c, d);
        law_the_edit_distance_is_a_distance(a.drop_last(), b.drop_last(), c, d);
        if a.last() == b.last() && a.drop_last() == b.drop_last() {
            assert(a =~= a.drop_last().push(a.last()));
            assert(b =~= b.drop_last().push(b.last()));
        }
    } else if a.len() == 0 && b.len() == 0 {
        assert(a =~= b);
    }
    assert(a.push(c).drop_last() =~= a);
    assert(b.push(d).drop_last() =~= b);
    assert(b.push(c).drop_last() =~= b);
}

} // verus!
