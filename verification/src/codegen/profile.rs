//! Morse profiles: their packed form, and their places in the profile table.

use vstd::prelude::*;
use crate::codegen::names::{closest_name, hint, hint_for, message_start, position_in, index_in};
use crate::config::behavior::MorseProfile;
use crate::config::toml::names_differ;
use crate::text::{debug_form, debug_text, decimal, decimal_text, same, texts};

verus! {

/// Bits of a packed timeout.
pub const TIMEOUT_BITS: u8 = 13;

/// When a tap-hold key decides for hold.
#[derive(Clone, Copy, Debug, PartialEq, Eq, Structural)]
pub enum MorseMode {
    PermissiveHold,
    HoldOnOtherPress,
    Normal,
}

/// A profile as the firmware builds it.
#[derive(Clone, Copy, Debug, PartialEq, Eq, Structural)]
pub struct ProfileExpr {
    pub unilateral_tap: Option<bool>,
    pub mode: Option<MorseMode>,
    pub hold_timeout_ms: Option<u16>,
    pub gap_timeout_ms: Option<u16>,
    pub enable_flow_tap: Option<bool>,
    pub quick_tap_timeout_ms: Option<u16>,
}

// ---------------------------------------------------------------------------
// Packed profiles
// ---------------------------------------------------------------------------

/// The mode of a profile: the first one that is switched on.
pub open spec fn mode_of(p: MorseProfile) -> Option<MorseMode> {
    if p.permissive_hold == Some(true) {
        Some(MorseMode::PermissiveHold)
    } else if p.hold_on_other_press == Some(true) {
        Some(MorseMode::HoldOnOtherPress)
    } else if p.normal_mode == Some(true) {
        Some(MorseMode::Normal)
    } else {
        None
    }
}

/// The longest timeout that a field of so many bits can hold.
pub open spec fn longest_timeout(bits: u8) -> nat {
    (vstd::arithmetic::power2::pow2(bits as nat) - 1) as nat
}

pub open spec fn timeout_message(field: Seq<char>, t: u64, bits: u8) -> Seq<char> {
    message_start() + "behavior.morse."@ + field + " = "@ + decimal(t as nat)
        + "ms exceeds the maximum of "@ + decimal(longest_timeout(bits)) + "ms ("@ + decimal(
        bits as nat,
    ) + "-bit field)."@
}

/// A timeout in a field of so many bits, or a message where it does not fit.
pub open spec fn packed_timeout(field: Seq<char>, value: Option<u64>, bits: u8) -> Result<
    Option<u16>,
    Seq<char>,
> {
    match value {
        Some(t) => if t > longest_timeout(bits) {
            Err(timeout_message(field, t, bits))
        } else {
            Ok(Some(t as u16))
        },
        None => Ok(None),
    }
}

/// A profile in its packed form, or the message of the first timeout that does
/// not fit.
pub open spec fn packed_profile(p: MorseProfile) -> Result<ProfileExpr, Seq<char>> {
    match (
        packed_timeout("hold_timeout"@, p.hold_timeout_ms, TIMEOUT_BITS),
        packed_timeout("gap_timeout"@, p.gap_timeout_ms, TIMEOUT_BITS),
        packed_timeout("quick_tap_timeout"@, p.quick_tap_timeout_ms, TIMEOUT_BITS),
    ) {
        (Err(e), _, _) => Err(e),
        (Ok(_), Err(e), _) => Err(e),
        (Ok(_), Ok(_), Err(e)) => Err(e),
        (Ok(hold), Ok(gap), Ok(quick)) => Ok(
            ProfileExpr {
                unilateral_tap: p.unilateral_tap,
                mode: mode_of(p),
                hold_timeout_ms: hold,
                gap_timeout_ms: gap,
                enable_flow_tap: p.enable_flow_tap,
                quick_tap_timeout_ms: quick,
            },
        ),
    }
}

/// Packs an optional timeout in ms, failing when the value exceeds the capacity of a field
/// of so many bits.
pub fn expand_timeout(field: &str, value: Option<u64>, bits: u8) -> (r: Result<
    Option<u16>,
    String,
>)
    requires
        bits <= 16,
    ensures
        match r {
            Ok(t) => packed_timeout(field@, value, bits) == Ok::<Option<u16>, Seq<char>>(t),
            Err(e) => packed_timeout(field@, value, bits) == Err::<Option<u16>, Seq<char>>(e@),
        },
{
    proof {
        vstd::arithmetic::power2::lemma2_to64();
        if bits < 16 {
            vstd::arithmetic::power2::lemma_pow2_strictly_increases(bits as nat, 16);
        }
        vstd::bits::lemma_u64_shl_is_mul(1, bits as u64);
        vstd::arithmetic::power2::lemma_pow2_pos(bits as nat);
    }
    let max_ms: u64 = (1u64 << bits as u64) - 1;
    match value {
        Some(t) => {
            if t > max_ms {
                let mut s = String::from_str("\n\u{274c} keyboard.toml: ");
                s.append("behavior.morse.");
                s.append(field);
                s.append(" = ");
                s.append(decimal_text(t).as_str());
                s.append("ms exceeds the maximum of ");
                s.append(decimal_text(max_ms).as_str());
                s.append("ms (");
                s.append(decimal_text(bits as u64).as_str());
                s.append("-bit field).");
                Err(s)
            } else {
                Ok(Some(t as u16))
            }
        },
        None => Ok(None),
    }
}

fn is_on(switch: Option<bool>) -> (r: bool)
    ensures
        r == (switch == Some(true)),
{
    match switch {
        Some(on) => on,
        None => false,
    }
}

/// Packs a profile.
pub fn expand_profile(profile: &MorseProfile) -> (r: Result<ProfileExpr, String>)
    ensures
        match r {
            Ok(p) => packed_profile(*profile) == Ok::<ProfileExpr, Seq<char>>(p),
            Err(e) => packed_profile(*profile) == Err::<ProfileExpr, Seq<char>>(e@),
        },
{
    let mode = if is_on(profile.permissive_hold) {
        Some(MorseMode::PermissiveHold)
    } else if is_on(profile.hold_on_other_press) {
        Some(MorseMode::HoldOnOtherPress)
    } else if is_on(profile.normal_mode) {
        Some(MorseMode::Normal)
    } else {
        None
    };
    let hold_timeout_ms = match expand_timeout(
        "hold_timeout",
        profile.hold_timeout_ms,
        TIMEOUT_BITS,
    ) {
        Ok(t) => t,
        Err(e) => return Err(e),
    };
    let gap_timeout_ms = match expand_timeout("gap_timeout", profile.gap_timeout_ms, TIMEOUT_BITS) {
        Ok(t) => t,
        Err(e) => return Err(e),
    };
    let quick_tap_timeout_ms = match expand_timeout(
        "quick_tap_timeout",
        profile.quick_tap_timeout_ms,
        TIMEOUT_BITS,
    ) {
        Ok(t) => t,
        Err(e) => return Err(e),
    };
    Ok(
        ProfileExpr {
            unilateral_tap: profile.unilateral_tap,
            mode,
            hold_timeout_ms,
            gap_timeout_ms,
            enable_flow_tap: profile.enable_flow_tap,
            quick_tap_timeout_ms,
        },
    )
}

// ---------------------------------------------------------------------------
// Named profiles
// ---------------------------------------------------------------------------

/// Named profiles, which a configuration may leave out. No name occurs twice.
pub type Profiles = Option<Vec<(String, MorseProfile)>>;

/// Whether no name occurs twice.
pub open spec fn profiles_wf(profiles: Profiles) -> bool {
    profiles matches Some(named) ==> names_differ(named@)
}

/// The names of some profiles.
pub open spec fn profile_names(profiles: Seq<(String, MorseProfile)>) -> Seq<Seq<char>> {
    profiles.map_values(|p: (String, MorseProfile)| p.0@)
}

pub open spec fn names_of(profiles: Profiles) -> Seq<Seq<char>> {
    match profiles {
        Some(p) => profile_names(p@),
        None => Seq::empty(),
    }
}

/// Whether one text comes before another: by the first character in which they
/// differ, or because it is the start of the other.
pub open spec fn before(a: Seq<char>, b: Seq<char>) -> bool
    decreases a.len(),
{
    if b.len() == 0 {
        false
    } else if a.len() == 0 {
        true
    } else if a[0] != b[0] {
        (a[0] as u32) < (b[0] as u32)
    } else {
        before(a.drop_first(), b.drop_first())
    }
}

/// Where a name goes in a sorted list: before the first that comes after it.
pub open spec fn insert_at(sorted: Seq<Seq<char>>, name: Seq<char>) -> int
    decreases sorted.len(),
{
    if sorted.len() == 0 || before(name, sorted[0]) {
        0
    } else {
        1 + insert_at(sorted.drop_first(), name)
    }
}

/// Names sorted.
pub open spec fn sorted_names(names: Seq<Seq<char>>) -> Seq<Seq<char>>
    decreases names.len(),
{
    if names.len() == 0 {
        Seq::empty()
    } else {
        let rest = sorted_names(names.drop_last());
        rest.insert(insert_at(rest, names.last()), names.last())
    }
}

proof fn lemma_insert_at(sorted: Seq<Seq<char>>, name: Seq<char>, k: int)
    requires
        0 <= k <= sorted.len(),
        forall|j: int| 0 <= j < k ==> !before(name, #[trigger] sorted[j]),
        k < sorted.len() ==> before(name, sorted[k]),
    ensures
        insert_at(sorted, name) == k,
    decreases k,
{
    if k > 0 {
        let t = sorted.drop_first();
        assert(!before(name, sorted[0]));
        assert forall|j: int| 0 <= j < k - 1 implies !before(name, #[trigger] t[j]) by {
            assert(!before(name, sorted[j + 1]));
        }
        lemma_insert_at(t, name, k - 1);
    }
}

proof fn lemma_before_from(a: Seq<char>, b: Seq<char>, k: int)
    requires
        0 <= k <= a.len(),
        k <= b.len(),
        forall|j: int| 0 <= j < k ==> a[j] == b[j],
    ensures
        before(a, b) == before(
            a.subrange(k, a.len() as int),
            b.subrange(k, b.len() as int),
        ),
    decreases k,
{
    if k == 0 {
        assert(a.subrange(0, a.len() as int) =~= a);
        assert(b.subrange(0, b.len() as int) =~= b);
    } else {
        let x = a.drop_first();
        let y = b.drop_first();
        assert(a[0] == b[0]);
        assert forall|j: int| 0 <= j < k - 1 implies x[j] == y[j] by {
            assert(a[j + 1] == b[j + 1]);
        }
        lemma_before_from(x, y, k - 1);
        assert(x.subrange(k - 1, x.len() as int) =~= a.subrange(k, a.len() as int));
        assert(y.subrange(k - 1, y.len() as int) =~= b.subrange(k, b.len() as int));
    }
}

fn comes_before(a: &str, b: &str) -> (r: bool)
    ensures
        r == before(a@, b@),
{
    let n: usize = a.unicode_len();
    let m: usize = b.unicode_len();
    let mut k: usize = 0;
    while k < n && k < m
        invariant
            n == a@.len(),
            m == b@.len(),
            k <= n,
            k <= m,
            forall|j: int| 0 <= j < k ==> a@[j] == b@[j],
        decreases n - k,
    {
        let x = a.get_char(k);
        let y = b.get_char(k);
        if x != y {
            proof {
                lemma_before_from(a@, b@, k as int);
                assert(a@.subrange(k as int, n as int)[0] == x);
                assert(b@.subrange(k as int, m as int)[0] == y);
            }
            return (x as u32) < (y as u32);
        }
        k = k + 1;
    }
    proof {
        lemma_before_from(a@, b@, k as int);
    }
    k < m
}

/// Named profiles sorted by name, giving each a stable index into the runtime
/// morse profile table: a name at sorted position `i` is table index `i`.
pub fn sorted_profile_names(profiles: &Profiles) -> (r: Vec<String>)
    ensures
        texts(r@) == sorted_names(names_of(*profiles)),
{
    let mut out: Vec<String> = Vec::new();
    assert(texts(out@) =~= Seq::<Seq<char>>::empty());
    if let Some(p) = profiles {
        let ghost all = profile_names(p@);
        let mut i: usize = 0;
        assert(all.subrange(0, 0) =~= Seq::<Seq<char>>::empty());
        while i < p.len()
            invariant
                i <= p@.len(),
                all == profile_names(p@),
                texts(out@) == sorted_names(all.subrange(0, i as int)),
            decreases p@.len() - i,
        {
            let name = &p[i].0;
            let ghost sorted = texts(out@);
            let mut k: usize = 0;
            while k < out.len() && !comes_before(name.as_str(), out[k].as_str())
                invariant
                    k <= out@.len(),
                    sorted == texts(out@),
                    forall|j: int| 0 <= j < k ==> !before(name@, #[trigger] sorted[j]),
                decreases out@.len() - k,
            {
                assert(sorted[k as int] == out@[k as int]@);
                k = k + 1;
            }
            proof {
                if k < out@.len() {
                    assert(sorted[k as int] == out@[k as int]@);
                }
                lemma_insert_at(sorted, name@, k as int);
                let q = all.subrange(0, i + 1);
                assert(q.drop_last() =~= all.subrange(0, i as int));
                assert(q.last() == name@);
            }
            out.insert(k, name.clone());
            assert(texts(out@) =~= sorted.insert(k as int, name@));
            i = i + 1;
        }
        assert(all.subrange(0, i as int) =~= all);
    }
    out
}

pub open spec fn unknown_profile_message(name: Seq<char>, known: Seq<Seq<char>>) -> Seq<char> {
    message_start() + "`"@ + debug_form(name)
        + "` profile name is not found in behavior.morse.profiles"@ + hint(name, known)
}

/// The message for a failed morse-profile lookup, suggesting the nearest defined
/// name when one plausibly matches.
pub fn unknown_profile(name: &str, known: &Vec<String>) -> (r: String)
    ensures
        r@ == unknown_profile_message(name@, texts(known@)),
{
    let shown = debug_text(name);
    let suggestion = hint_for(name, known);
    let mut s = String::from_str("\n\u{274c} keyboard.toml: ");
    s.append("`");
    s.append(shown.as_str());
    s.append("` profile name is not found in behavior.morse.profiles");
    s.append(suggestion.as_str());
    s
}

/// The table index of an optional profile name: 255 without one, which has no
/// table entry and so falls back to the default profile.
pub open spec fn profile_index(name: Option<Seq<char>>, profiles: Profiles) -> Result<
    u8,
    Seq<char>,
> {
    let sorted = sorted_names(names_of(profiles));
    match name {
        None => Ok(u8::MAX),
        Some(n) => if index_in(sorted, n) < sorted.len() {
            Ok(index_in(sorted, n) as u8)
        } else {
            Err(unknown_profile_message(n, sorted))
        },
    }
}

/// The table index of the optional trailing profile argument of a tap-hold
/// action. The table capacity is validated to be at most 255, so 255 is always
/// vacant.
pub fn morse_profile(profile_name: Option<&String>, profiles: &Profiles) -> (r: Result<u8, String>)
    ensures
        ({
            let name = match profile_name {
                Some(n) => Some(n@),
                None => None,
            };
            match r {
                Ok(i) => profile_index(name, *profiles) == Ok::<u8, Seq<char>>(i),
                Err(e) => profile_index(name, *profiles) == Err::<u8, Seq<char>>(e@),
            }
        }),
{
    match profile_name {
        None => Ok(u8::MAX),
        Some(name) => {
            let sorted = sorted_profile_names(profiles);
            assert(texts(sorted@).len() == sorted@.len());
            match position_in(&sorted, name.as_str()) {
                Some(k) => {
                    #[verifier::truncate]
                    let index: u8 = k as u8;
                    Ok(index)
                },
                None => Err(unknown_profile(name.as_str(), &sorted)),
            }
        },
    }
}

pub open spec fn missing_profiles_message(name: Seq<char>) -> Seq<char> {
    "\n\u{274c} behavior.morse.profiles is missing, so `"@ + debug_form(name)
        + "` profile name is not found"@
}

/// The profile of that name, packed.
pub open spec fn named_profile(name: Seq<char>, profiles: Profiles) -> Result<
    ProfileExpr,
    Seq<char>,
> {
    match profiles {
        None => Err(missing_profiles_message(name)),
        Some(p) => {
            let k = index_in(profile_names(p@), name);
            if k < p@.len() {
                packed_profile(p@[k].1)
            } else {
                Err(unknown_profile_message(name, profile_names(p@)))
            }
        },
    }
}

fn list_names(p: &Vec<(String, MorseProfile)>) -> (r: Vec<String>)
    ensures
        texts(r@) == profile_names(p@),
        r@.len() == p@.len(),
{
    let mut out: Vec<String> = Vec::new();
    let mut i: usize = 0;
    while i < p.len()
        invariant
            i <= p@.len(),
            out@.len() == i,
            forall|j: int| 0 <= j < i ==> (#[trigger] out@[j])@ == p@[j].0@,
        decreases p@.len() - i,
    {
        out.push(p[i].0.clone());
        i = i + 1;
    }
    assert(texts(out@) =~= profile_names(p@));
    out
}

/// Packs the profile of that name.
pub fn expand_profile_name(profile_name: &str, profiles: &Profiles) -> (r: Result<
    ProfileExpr,
    String,
>)
    ensures
        match r {
            Ok(p) => named_profile(profile_name@, *profiles) == Ok::<ProfileExpr, Seq<char>>(p),
            Err(e) => named_profile(profile_name@, *profiles) == Err::<ProfileExpr, Seq<char>>(e@),
        },
{
    match profiles {
        None => {
            let shown = debug_text(profile_name);
            let mut s = String::from_str(
                "\n\u{274c} behavior.morse.profiles is missing, so `",
            );
            s.append(shown.as_str());
            s.append("` profile name is not found");
            Err(s)
        },
        Some(p) => {
            let names = list_names(p);
            match position_in(&names, profile_name) {
                Some(k) => expand_profile(&p[k].1),
                None => Err(unknown_profile(profile_name, &names)),
            }
        },
    }
}

// ---------------------------------------------------------------------------
// Laws
// ---------------------------------------------------------------------------

/// `before` is a strict order of which any two different texts have one side.
pub proof fn law_before_is_an_order(a: Seq<char>, b: Seq<char>, c: Seq<char>)
    ensures
        !before(a, a),
        before(a, b) && before(b, c) ==> before(a, c),
        a != b ==> before(a, b) || before(b, a),
        before(a, b) ==> !before(b, a),
    decreases a.len() + b.len() + c.len(),
{
    if a.len() > 0 && b.len() > 0 && a[0] == b[0] {
        if c.len() > 0 {
            law_before_is_an_order(a.drop_first(), b.drop_first(), c.drop_first());
        } else {
            law_before_is_an_order(a.drop_first(), b.drop_first(), c);
        }
        if a != b {
            if a.drop_first() == b.drop_first() {
                assert(a =~= seq![a[0]] + a.drop_first());
                assert(b =~= seq![b[0]] + b.drop_first());
            }
        }
    } else {
        if a.len() > 0 {
            law_before_is_an_order(a.drop_first(), Seq::empty(), Seq::empty());
        }
        if a.len() == 0 && b.len() == 0 {
            assert(a =~= b);
        } else if a.len() > 0 && b.len() > 0 {
            lemma_char_code(a[0], b[0]);
        }
    }
    if a.len() > 0 {
        lemma_before_self(a);
    }
}

proof fn lemma_char_code(x: char, y: char)
    ensures
        x as u32 == y as u32 ==> x == y,
{
}

proof fn lemma_before_self(a: Seq<char>)
    ensures
        !before(a, a),
    decreases a.len(),
{
    if a.len() > 0 {
        lemma_before_self(a.drop_first());
    }
}

pub open spec fn is_sorted(names: Seq<Seq<char>>) -> bool {
    forall|i: int, j: int|
        0 <= i < j < names.len() ==> !before(#[trigger] names[j], #[trigger] names[i])
}

proof fn lemma_insert_at_bounds(sorted: Seq<Seq<char>>, name: Seq<char>)
    ensures
        0 <= insert_at(sorted, name) <= sorted.len(),
        forall|j: int|
            0 <= j < insert_at(sorted, name) ==> !before(name, #[trigger] sorted[j]),
        insert_at(sorted, name) < sorted.len() ==> before(name, sorted[insert_at(sorted, name)]),
    decreases sorted.len(),
{
    if sorted.len() > 0 && !before(name, sorted[0]) {
        let t = sorted.drop_first();
        lemma_insert_at_bounds(t, name);
        assert forall|j: int| 0 <= j < insert_at(sorted, name) implies !before(
            name,
            #[trigger] sorted[j],
        ) by {
            if j > 0 {
                assert(!before(name, t[j - 1]));
            }
        }
    }
}

/// The profile table holds every name once, in order: sorting keeps the names and
/// puts none before one that comes before it.
pub proof fn law_the_table_is_the_names_in_order(names: Seq<Seq<char>>)
    ensures
        is_sorted(sorted_names(names)),
        sorted_names(names).len() == names.len(),
        sorted_names(names).to_multiset() == names.to_multiset(),
        names.no_duplicates() ==> sorted_names(names).no_duplicates(),
    decreases names.len(),
{
    if names.len() > 0 {
        let p = names.drop_last();
        law_the_table_is_the_names_in_order(p);
        let rest = sorted_names(p);
        let name = names.last();
        let k = insert_at(rest, name);
        lemma_insert_at_bounds(rest, name);
        let s = rest.insert(k, name);
        assert forall|i: int, j: int| 0 <= i < j < s.len() implies !before(
            #[trigger] s[j],
            #[trigger] s[i],
        ) by {
            if i < k && j > k {
                assert(s[i] == rest[i] && s[j] == rest[j - 1]);
                assert(!before(rest[j - 1], rest[i]));
            } else if i < k && j < k {
                assert(s[i] == rest[i] && s[j] == rest[j]);
                assert(!before(rest[j], rest[i]));
            } else if i > k {
                assert(s[i] == rest[i - 1] && s[j] == rest[j - 1]);
                assert(!before(rest[j - 1], rest[i - 1]));
            } else if i < k && j == k {
                assert(s[i] == rest[i] && s[j] == name);
            } else {
                // The name stands at `i`; `rest[k]` comes after it.
                assert(s[i] == name && s[j] == rest[j - 1]);
                assert(before(name, rest[k]));
                if j - 1 > k {
                    assert(!before(rest[j - 1], rest[k]));
                }
                if before(rest[j - 1], name) {
                    law_before_is_an_order(rest[j - 1], name, rest[k]);
                    lemma_before_self(rest[k]);
                }
            }
        }
        vstd::seq_lib::to_multiset_insert(rest, k, name);
        vstd::seq_lib::to_multiset_build(p, name);
        assert(names =~= p.push(name));
    } else {
        assert(sorted_names(names) =~= names);
    }
    if names.no_duplicates() {
        names.lemma_multiset_has_no_duplicates();
        sorted_names(names).lemma_multiset_has_no_duplicates_conv();
    }
}

/// Every profile has a place of its own in the table, and its name alone leads there: a table
/// with room for all holds, at the index of a profile's name, that name and no other.
pub proof fn law_a_profile_is_found_by_its_name(profiles: Profiles, i: int)
    requires
        profiles_wf(profiles),
        names_of(profiles).len() <= 255,
        0 <= i < names_of(profiles).len(),
    ensures
        ({
            let name = names_of(profiles)[i];
            let table = sorted_names(names_of(profiles));
            &&& profile_index(Some(name), profiles) matches Ok(k) && k < table.len() && table[k as int]
                == name
            &&& forall|k: int, l: int| 0 <= k < l < table.len() ==> table[k] != table[l]
        }),
{
    let names = names_of(profiles);
    let table = sorted_names(names);
    law_the_table_is_the_names_in_order(names);
    assert forall|a: int, b: int| 0 <= a < b < names.len() implies names[a] != names[b] by {
        assert(profiles->Some_0@[a].0@ != profiles->Some_0@[b].0@);
    }
    broadcast use vstd::seq_lib::group_to_multiset_ensures;
    assert(names.contains(names[i]));
    assert(names.to_multiset().count(names[i]) > 0);
    assert(table.contains(names[i]));
    lemma_index_in_hits(table, names[i]);
}

/// Two profiles never share a table index, as long as the table has room for all.
pub proof fn law_profiles_have_indices_of_their_own(
    a: Seq<char>,
    b: Seq<char>,
    profiles: Profiles,
)
    requires
        names_of(profiles).len() <= 255,
        profile_index(Some(a), profiles) is Ok,
        profile_index(Some(a), profiles) == profile_index(Some(b), profiles),
    ensures
        a == b,
        profile_index(Some(a), profiles) != Ok::<u8, Seq<char>>(u8::MAX),
{
    let sorted = sorted_names(names_of(profiles));
    law_the_table_is_the_names_in_order(names_of(profiles));
    lemma_index_in_hits(sorted, a);
    lemma_index_in_hits(sorted, b);
}

proof fn lemma_index_in_hits(table: Seq<Seq<char>>, name: Seq<char>)
    ensures
        0 <= index_in(table, name) <= table.len(),
        index_in(table, name) < table.len() ==> table[index_in(table, name)] == name,
        table.contains(name) ==> index_in(table, name) < table.len(),
    decreases table.len(),
{
    if table.len() > 0 && table[0] != name {
        let rest = table.drop_first();
        lemma_index_in_hits(rest, name);
        if table.contains(name) {
            let k = choose|k: int| 0 <= k < table.len() && table[k] == name;
            assert(rest[k - 1] == name);
        }
    }
}

/// The mode of a profile is the first that it switches on, in the order of permissive hold, hold
/// on other press and normal mode; a switch that is off or left out counts for nothing.
pub proof fn law_the_first_mode_switched_on_counts(p: MorseProfile)
    ensures
        mode_of(p) == Some(MorseMode::PermissiveHold) <==> p.permissive_hold is Some
            && p.permissive_hold->0,
        mode_of(p) == Some(MorseMode::HoldOnOtherPress) <==> !(p.permissive_hold is Some
            && p.permissive_hold->0) && p.hold_on_other_press is Some && p.hold_on_other_press->0,
        mode_of(p) == Some(MorseMode::Normal) <==> !(p.permissive_hold is Some
            && p.permissive_hold->0) && !(p.hold_on_other_press is Some
            && p.hold_on_other_press->0) && p.normal_mode is Some && p.normal_mode->0,
{
}

/// A profile can be packed exactly where each of its timeouts fits thirteen bits: it is then
/// packed as it is, each timeout in its own field.
pub proof fn law_a_profile_is_packed_as_it_is(p: MorseProfile)
    ensures
        packed_profile(p) is Ok <==> (p.hold_timeout_ms matches Some(t) ==> t <= 8191) && (
        p.gap_timeout_ms matches Some(t) ==> t <= 8191) && (p.quick_tap_timeout_ms matches Some(t)
            ==> t <= 8191),
        packed_profile(p) matches Ok(e) ==> {
            &&& e.unilateral_tap == p.unilateral_tap
            &&& e.enable_flow_tap == p.enable_flow_tap
            &&& e.mode == mode_of(p)
            &&& e.hold_timeout_ms is Some <==> p.hold_timeout_ms is Some
            &&& e.hold_timeout_ms matches Some(t) ==> t == p.hold_timeout_ms->0
            &&& e.gap_timeout_ms is Some <==> p.gap_timeout_ms is Some
            &&& e.gap_timeout_ms matches Some(t) ==> t == p.gap_timeout_ms->0
            &&& e.quick_tap_timeout_ms is Some <==> p.quick_tap_timeout_ms is Some
            &&& e.quick_tap_timeout_ms matches Some(t) ==> t == p.quick_tap_timeout_ms->0
        },
{
    vstd::arithmetic::power2::lemma2_to64();
}

/// A key without a profile goes by the index that no profile has. One whose profile the
/// configuration does not have is refused.
pub proof fn law_a_key_without_profile_has_the_default(profiles: Profiles, name: Seq<char>)
    ensures
        profile_index(None, profiles) == Ok::<u8, Seq<char>>(255),
        profile_index(Some(name), profiles) is Ok <==> names_of(profiles).contains(name),
{
    let names = names_of(profiles);
    let sorted = sorted_names(names);
    law_the_table_is_the_names_in_order(names);
    broadcast use vstd::seq_lib::group_to_multiset_ensures;

    assert(sorted.contains(name) <==> names.contains(name)) by {
        assert(sorted.contains(name) <==> sorted.to_multiset().count(name) > 0);
        assert(names.contains(name) <==> names.to_multiset().count(name) > 0);
    }
    crate::codegen::names::lemma_index_in_place(sorted, name);
}

/// A named profile is packed from the configuration's own profile of that name; a name that it
/// does not have is refused.
pub proof fn law_a_named_profile_is_the_one_of_that_name(
    name: Seq<char>,
    profiles: Profiles,
    i: int,
)
    requires
        profiles_wf(profiles),
        profiles is Some,
    ensures
        0 <= i < profiles->0@.len() && profiles->0@[i].0@ == name ==> named_profile(name, profiles)
            == packed_profile(profiles->0@[i].1),
        (forall|k: int| 0 <= k < profiles->0@.len() ==> (#[trigger] profiles->0@[k]).0@ != name)
            ==> named_profile(name, profiles) is Err,
        named_profile(name, None) is Err,
{
    let p = profiles->0@;
    let names = profile_names(p);
    crate::codegen::names::lemma_index_in_place(names, name);
    let k = index_in(names, name);
    if 0 <= i < p.len() && p[i].0@ == name {
        assert(names[i] == name);
        assert(k < p.len());
        assert(names[k] == p[k].0@);
        if k < i {
            assert(p[k].0@ != p[i].0@);
        }
        if i < k {
            assert(names[i] != name);
        }
    }
    if forall|j: int| 0 <= j < p.len() ==> (#[trigger] p[j]).0@ != name {
        if k < p.len() {
            assert(names[k] == p[k].0@);
        }
    }
}

} // verus!
