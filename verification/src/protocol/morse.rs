//! Morse requests.

use vstd::prelude::*;
use crate::protocol::action::{
    action_bytes, decode_action, encode_action, law_action_round_trip, take_action, ACTION_MAX_SIZE,
};
use crate::protocol::wire::{
    encode_u32, law_number_round_trip, law_short_round_trip, law_size_round_trip, lemma_varint_len,
    pow128, push_all, take_number, take_short, take_size, take_u16, take_u32, take_usize, varint,
};
use crate::types::Action;

verus! {

/// Hold-trigger positions that the firmware keeps.
pub const HOLD_TRIGGER_KEY_POSITION_MAX_NUM: usize = 32;

/// Actions of one morse key.
pub const MORSE_SIZE: usize = 8;

/// Morse keys in one bulk transfer.
pub const MAX_BULK_ITEMS: usize = 8;

/// Taps and holds of a morse key, one bit each below a leading one.
#[derive(Debug, Clone, Copy, PartialEq, Eq, Structural)]
pub struct MorsePattern(pub u16);

/// The packed settings of a tap-hold key.
#[derive(Debug, Clone, Copy, PartialEq, Eq, Structural)]
pub struct MorseProfile(pub u32);

/// A morse key: its settings, and an action for each pattern, at most
/// [`MORSE_SIZE`] of them.
#[derive(Debug, PartialEq, Eq)]
pub struct Morse {
    pub profile: MorseProfile,
    pub actions: MorseActions,
}

/// Actions by the number of their pattern, in a `heapless::LinearMap` of [`MORSE_SIZE`]
/// entries.
#[verifier::external_body]
#[derive(Debug, PartialEq, Eq)]
pub struct MorseActions {
    inner: heapless::LinearMap<u16, Action, MORSE_SIZE>,
}

/// The entries of a map, in the order in which their patterns were first put in.
pub uninterp spec fn morse_entries(actions: MorseActions) -> Seq<(u16, Action)>;

/// `heapless::LinearMap::new`: no entries.
#[verifier::external_body]
fn actions_new() -> (r: MorseActions)
    ensures
        morse_entries(r) == Seq::<(u16, Action)>::empty(),
{
    MorseActions { inner: heapless::LinearMap::new() }
}

/// `heapless::LinearMap::insert`: a pattern that is there already keeps its place and gets
/// the new action, a new one goes to the end; or an error and no change where there is no
/// room for a new one.
#[verifier::external_body]
fn actions_insert(actions: &mut MorseActions, pattern: u16, action: Action) -> (r: Result<(), ()>)
    ensures
        match entry_put(morse_entries(*old(actions)), pattern, action) {
            Some(entries) => r is Ok && morse_entries(*final(actions)) == entries,
            None => r is Err && morse_entries(*final(actions)) == morse_entries(*old(actions)),
        },
{
    match actions.inner.insert(pattern, action) {
        Ok(_) => Ok(()),
        Err(_) => Err(()),
    }
}

/// `heapless::LinearMap::iter`: the entries in their order, never more than the capacity.
#[verifier::external_body]
fn actions_iter(actions: &MorseActions) -> (r: Vec<(u16, Action)>)
    ensures
        r@ == morse_entries(*actions),
        r@.len() <= MORSE_SIZE,
{
    actions.inner.iter().map(|entry| (*entry.0, *entry.1)).collect()
}

impl View for MorseActions {
    type V = Seq<(u16, Action)>;

    open spec fn view(&self) -> Seq<(u16, Action)> {
        morse_entries(*self)
    }
}

impl MorseActions {
    /// The entries: the number of each pattern, and its action.
    pub fn entries(&self) -> (r: Vec<(u16, Action)>)
        ensures
            r@ == self@,
            r@.len() <= MORSE_SIZE,
    {
        actions_iter(self)
    }
}

/// One key position allowed to trigger a tap-hold profile's hold action.
///
/// `profile == u8::MAX` addresses the keyboard-wide default profile. Every other
/// value is a runtime morse-profile slot.
#[derive(Debug, Clone, Copy, PartialEq, Eq, Structural)]
pub struct MorseHoldTriggerPosition {
    pub profile: u8,
    pub row: u8,
    pub col: u8,
}

/// A table of hold-trigger positions, in a `heapless::Vec` of
/// [`HOLD_TRIGGER_KEY_POSITION_MAX_NUM`] places.
#[verifier::external_body]
#[derive(Debug, PartialEq, Eq)]
pub struct MorseHoldTriggerPositions {
    inner: heapless::Vec<MorseHoldTriggerPosition, HOLD_TRIGGER_KEY_POSITION_MAX_NUM>,
}

/// The positions of a table, in order.
pub uninterp spec fn table_positions(table: MorseHoldTriggerPositions) -> Seq<
    MorseHoldTriggerPosition,
>;

/// `heapless::Vec::new`: no positions.
#[verifier::external_body]
fn positions_new() -> (r: MorseHoldTriggerPositions)
    ensures
        table_positions(r) == Seq::<MorseHoldTriggerPosition>::empty(),
{
    MorseHoldTriggerPositions { inner: heapless::Vec::new() }
}

/// `heapless::Vec::push`: one more at the end, or an error and no change where the table is
/// full.
#[verifier::external_body]
fn positions_push(table: &mut MorseHoldTriggerPositions, position: MorseHoldTriggerPosition) -> (r:
    Result<(), ()>)
    ensures
        match r {
            Ok(()) => table_positions(*old(table)).len() < HOLD_TRIGGER_KEY_POSITION_MAX_NUM
                && table_positions(*final(table)) == table_positions(*old(table)).push(position),
            Err(()) => table_positions(*old(table)).len() >= HOLD_TRIGGER_KEY_POSITION_MAX_NUM
                && table_positions(*final(table)) == table_positions(*old(table)),
        },
{
    match table.inner.push(position) {
        Ok(()) => Ok(()),
        Err(_) => Err(()),
    }
}

/// `heapless::Vec::as_slice`: the positions, never more than the capacity.
#[verifier::external_body]
fn positions_as_slice(table: &MorseHoldTriggerPositions) -> (r: &[MorseHoldTriggerPosition])
    ensures
        r@ == table_positions(*table),
        r@.len() <= HOLD_TRIGGER_KEY_POSITION_MAX_NUM,
{
    table.inner.as_slice()
}

impl View for MorseHoldTriggerPositions {
    type V = Seq<MorseHoldTriggerPosition>;

    open spec fn view(&self) -> Seq<MorseHoldTriggerPosition> {
        table_positions(*self)
    }
}

impl MorseHoldTriggerPositions {
    pub fn new() -> (r: Self)
        ensures
            r@ == Seq::<MorseHoldTriggerPosition>::empty(),
    {
        positions_new()
    }

    /// One more position, or an error where the table is full.
    pub fn push(&mut self, position: MorseHoldTriggerPosition) -> (r: Result<(), ()>)
        ensures
            match r {
                Ok(()) => old(self)@.len() < HOLD_TRIGGER_KEY_POSITION_MAX_NUM && final(self)@
                    == old(self)@.push(position),
                Err(()) => old(self)@.len() >= HOLD_TRIGGER_KEY_POSITION_MAX_NUM && final(self)@
                    == old(self)@,
            },
    {
        positions_push(self, position)
    }

    pub fn as_slice(&self) -> (r: &[MorseHoldTriggerPosition])
        ensures
            r@ == self@,
            r@.len() <= HOLD_TRIGGER_KEY_POSITION_MAX_NUM,
    {
        positions_as_slice(self)
    }
}

/// Current runtime hold-trigger table and the firmware's compiled capacity.
#[derive(Debug, PartialEq, Eq)]
pub struct MorseHoldTriggerPositionState {
    pub capacity: u8,
    pub positions: MorseHoldTriggerPositions,
}

/// Atomic replacement payload for the runtime hold-trigger table.
#[derive(Debug, PartialEq, Eq)]
pub struct SetMorseHoldTriggerPositionsRequest {
    pub positions: MorseHoldTriggerPositions,
}

/// Request payload for `SetMorse`.
#[derive(Debug, PartialEq, Eq)]
pub struct SetMorseRequest {
    pub index: u8,
    pub config: Morse,
}

/// Request payload for `GetMorseBulk`: read a page of morses starting at slot
/// `start_index`. The firmware returns as many as fit, or an empty page once
/// `start_index` reaches the slot count.
#[derive(Debug, Clone, Copy, PartialEq, Eq, Structural)]
pub struct GetMorseBulkRequest {
    pub start_index: u8,
}

/// A page of morse keys, in a `heapless::Vec` of [`MAX_BULK_ITEMS`] places.
#[verifier::external_body]
#[derive(Debug, PartialEq, Eq)]
pub struct BulkMorses {
    inner: heapless::Vec<Morse, MAX_BULK_ITEMS>,
}

/// The morse keys of a page, in order.
pub uninterp spec fn page_morses(page: BulkMorses) -> Seq<Morse>;

/// `heapless::Vec::new`: no morse keys.
#[verifier::external_body]
fn page_new() -> (r: BulkMorses)
    ensures
        page_morses(r) == Seq::<Morse>::empty(),
{
    BulkMorses { inner: heapless::Vec::new() }
}

/// `heapless::Vec::push`: one more at the end, or an error and no change where the page is
/// full.
#[verifier::external_body]
fn page_push(page: &mut BulkMorses, morse: Morse) -> (r: Result<(), ()>)
    ensures
        match r {
            Ok(()) => page_morses(*old(page)).len() < MAX_BULK_ITEMS && page_morses(*final(page))
                == page_morses(*old(page)).push(morse),
            Err(()) => page_morses(*old(page)).len() >= MAX_BULK_ITEMS && page_morses(*final(page))
                == page_morses(*old(page)),
        },
{
    match page.inner.push(morse) {
        Ok(()) => Ok(()),
        Err(_) => Err(()),
    }
}

/// `heapless::Vec::as_slice`: the morse keys, never more than the capacity.
#[verifier::external_body]
fn page_as_slice(page: &BulkMorses) -> (r: &[Morse])
    ensures
        r@ == page_morses(*page),
        r@.len() <= MAX_BULK_ITEMS,
{
    page.inner.as_slice()
}

impl View for BulkMorses {
    type V = Seq<MorseView>;

    open spec fn view(&self) -> Seq<MorseView> {
        page_morses(*self).map_values(|m: Morse| m@)
    }
}

impl BulkMorses {
    pub fn new() -> (r: Self)
        ensures
            r@ == Seq::<MorseView>::empty(),
    {
        let r = page_new();
        assert(r@ =~= Seq::<MorseView>::empty());
        r
    }

    /// One more morse key, or an error where the page is full.
    pub fn push(&mut self, morse: Morse) -> (r: Result<(), ()>)
        ensures
            match r {
                Ok(()) => old(self)@.len() < MAX_BULK_ITEMS && final(self)@ == old(self)@.push(
                    morse@,
                ),
                Err(()) => old(self)@.len() >= MAX_BULK_ITEMS && final(self)@ == old(self)@,
            },
    {
        let r = page_push(self, morse);
        proof {
            if r is Ok {
                assert(self@ =~= old(self)@.push(morse@));
            }
        }
        r
    }

    pub fn as_slice(&self) -> (r: &[Morse])
        ensures
            r@.map_values(|m: Morse| m@) == self@,
            r@.len() <= MAX_BULK_ITEMS,
    {
        page_as_slice(self)
    }
}

/// Bulk request payload for `SetMorseBulk`: write `configs` starting at slot
/// `start_index`.
#[derive(Debug, PartialEq, Eq)]
pub struct SetMorseBulkRequest {
    pub start_index: u8,
    pub configs: BulkMorses,
}

/// Bulk response for getting multiple morse configs at once.
#[derive(Debug, PartialEq, Eq)]
pub struct GetMorseBulkResponse {
    pub configs: BulkMorses,
}

/// Most bytes of an encoded table of positions: its length and three bytes each.
pub const POSITIONS_MAX_SIZE: usize = 1 + 3 * HOLD_TRIGGER_KEY_POSITION_MAX_NUM;

/// Most bytes of an encoded [`MorseHoldTriggerPositionState`].
pub const POSITION_STATE_MAX_SIZE: usize = 1 + POSITIONS_MAX_SIZE;

/// The bytes of some positions, three each.
pub open spec fn position_bytes(positions: Seq<MorseHoldTriggerPosition>) -> Seq<u8>
    decreases positions.len(),
{
    if positions.len() == 0 {
        Seq::empty()
    } else {
        let p = positions[0];
        seq![p.profile, p.row, p.col] + position_bytes(positions.drop_first())
    }
}

/// The bytes of a table of positions.
pub open spec fn table_bytes(positions: Seq<MorseHoldTriggerPosition>) -> Seq<u8> {
    varint(positions.len()) + position_bytes(positions)
}

/// The first `n` positions in `bytes`.
pub open spec fn positions_in(bytes: Seq<u8>, n: nat) -> Seq<MorseHoldTriggerPosition> {
    Seq::new(
        n,
        |i: int|
            MorseHoldTriggerPosition {
                profile: bytes[3 * i],
                row: bytes[3 * i + 1],
                col: bytes[3 * i + 2],
            },
    )
}

/// The table that a payload starts with. More positions than the firmware keeps
/// are refused.
pub open spec fn table_in(payload: Seq<u8>) -> Option<Seq<MorseHoldTriggerPosition>> {
    match take_size(payload) {
        Some((n, rest)) => if n <= HOLD_TRIGGER_KEY_POSITION_MAX_NUM && 3 * n <= rest.len() {
            Some(positions_in(rest, n as nat))
        } else {
            None
        },
        None => None,
    }
}

proof fn lemma_position_bytes_len(positions: Seq<MorseHoldTriggerPosition>)
    ensures
        position_bytes(positions).len() == 3 * positions.len(),
    decreases positions.len(),
{
    if positions.len() > 0 {
        lemma_position_bytes_len(positions.drop_first());
    }
}

proof fn lemma_position_bytes_push(
    positions: Seq<MorseHoldTriggerPosition>,
    p: MorseHoldTriggerPosition,
)
    ensures
        position_bytes(positions.push(p)) == position_bytes(positions) + seq![
            p.profile,
            p.row,
            p.col,
        ],
    decreases positions.len(),
{
    if positions.len() == 0 {
        assert(positions.push(p).drop_first() =~= positions);
        assert(position_bytes(positions.push(p)) =~= position_bytes(positions) + seq![
            p.profile,
            p.row,
            p.col,
        ]);
    } else {
        lemma_position_bytes_push(positions.drop_first(), p);
        assert(positions.push(p).drop_first() =~= positions.drop_first().push(p));
        assert(position_bytes(positions.push(p)) =~= position_bytes(positions) + seq![
            p.profile,
            p.row,
            p.col,
        ]);
    }
}

proof fn lemma_position_bytes_index(positions: Seq<MorseHoldTriggerPosition>, i: int)
    requires
        0 <= i < positions.len(),
    ensures
        position_bytes(positions).len() == 3 * positions.len(),
        position_bytes(positions)[3 * i] == positions[i].profile,
        position_bytes(positions)[3 * i + 1] == positions[i].row,
        position_bytes(positions)[3 * i + 2] == positions[i].col,
    decreases positions.len(),
{
    lemma_position_bytes_len(positions);
    if i > 0 {
        let t = positions.drop_first();
        lemma_position_bytes_index(t, i - 1);
        assert(t[i - 1] == positions[i]);
        assert(position_bytes(positions)[3 * i] == position_bytes(t)[3 * (i - 1)]);
        assert(position_bytes(positions)[3 * i + 1] == position_bytes(t)[3 * (i - 1) + 1]);
        assert(position_bytes(positions)[3 * i + 2] == position_bytes(t)[3 * (i - 1) + 2]);
    }
}

fn encode_table(out: &mut Vec<u8>, table: &MorseHoldTriggerPositions)
    ensures
        final(out)@ == old(out)@ + table_bytes(table@),
        table_bytes(table@).len() <= POSITIONS_MAX_SIZE,
{
    let positions = table.as_slice();
    let n: usize = positions.len();
    proof {
        reveal_with_fuel(pow128, 2);
        lemma_varint_len(n as nat, 1);
        lemma_position_bytes_len(positions@);
    }
    let head = encode_u32(n as u32);
    push_all(out, head.as_slice());
    let mut k: usize = 0;
    assert(positions@.subrange(0, 0) =~= Seq::<MorseHoldTriggerPosition>::empty());
    assert(out@ =~= old(out)@ + (head@ + position_bytes(positions@.subrange(0, 0))));
    while k < n
        invariant
            n == positions@.len(),
            k <= n,
            out@ == old(out)@ + (head@ + position_bytes(positions@.subrange(0, k as int))),
        decreases n - k,
    {
        let p = positions[k];
        out.push(p.profile);
        out.push(p.row);
        out.push(p.col);
        proof {
            lemma_position_bytes_push(positions@.subrange(0, k as int), p);
            assert(positions@.subrange(0, k + 1) =~= positions@.subrange(0, k as int).push(p));
        }
        k = k + 1;
        assert(out@ =~= old(out)@ + (head@ + position_bytes(positions@.subrange(0, k as int))));
    }
    assert(positions@.subrange(0, k as int) =~= positions@);
}

fn decode_table(payload: &[u8]) -> (r: Option<MorseHoldTriggerPositions>)
    ensures
        match r {
            Some(positions) => table_in(payload@) == Some(positions@),
            None => table_in(payload@) is None,
        },
{
    match take_usize(payload) {
        None => None,
        Some((n, rest)) => {
            if n > HOLD_TRIGGER_KEY_POSITION_MAX_NUM || 3 * n > rest.len() {
                return None;
            }
            let mut positions = MorseHoldTriggerPositions::new();
            assert(positions@ =~= positions_in(rest@, 0));
            let mut i: usize = 0;
            while i < n
                invariant
                    i <= n,
                    n <= HOLD_TRIGGER_KEY_POSITION_MAX_NUM,
                    3 * n <= rest@.len(),
                    positions@ == positions_in(rest@, i as nat),
                decreases n - i,
            {
                let p = MorseHoldTriggerPosition {
                    profile: rest[3 * i],
                    row: rest[3 * i + 1],
                    col: rest[3 * i + 2],
                };
                let _ = positions.push(p);
                i = i + 1;
                assert(positions@ =~= positions_in(rest@, i as nat));
            }
            Some(positions)
        },
    }
}

impl SetMorseHoldTriggerPositionsRequest {
    pub fn encode(&self) -> (r: Vec<u8>)
        ensures
            r@ == table_bytes(self.positions@),
            r@.len() <= POSITIONS_MAX_SIZE,
    {
        let mut out: Vec<u8> = Vec::new();
        encode_table(&mut out, &self.positions);
        assert(out@ =~= table_bytes(self.positions@));
        out
    }

    /// Reads a request from the start of a payload.
    pub fn decode(payload: &[u8]) -> (r: Option<Self>)
        ensures
            match r {
                Some(req) => table_in(payload@) == Some(req.positions@),
                None => table_in(payload@) is None,
            },
    {
        match decode_table(payload) {
            Some(positions) => Some(SetMorseHoldTriggerPositionsRequest { positions }),
            None => None,
        }
    }
}

impl MorseHoldTriggerPositionState {
    pub fn encode(&self) -> (r: Vec<u8>)
        ensures
            r@ == seq![self.capacity] + table_bytes(self.positions@),
            r@.len() <= POSITION_STATE_MAX_SIZE,
    {
        let mut out: Vec<u8> = Vec::new();
        out.push(self.capacity);
        encode_table(&mut out, &self.positions);
        assert(out@ =~= seq![self.capacity] + table_bytes(self.positions@));
        out
    }

    /// Reads a state from the start of a payload.
    pub fn decode(payload: &[u8]) -> (r: Option<Self>)
        ensures
            match r {
                Some(state) => payload@.len() > 0 && state.capacity == payload@[0] && table_in(
                    payload@.drop_first(),
                ) == Some(state.positions@),
                None => payload@.len() == 0 || table_in(payload@.drop_first()) is None,
            },
    {
        if payload.len() == 0 {
            return None;
        }
        let rest = vstd::slice::slice_subrange(payload, 1, payload.len());
        assert(rest@ =~= payload@.drop_first());
        match decode_table(rest) {
            Some(positions) => Some(
                MorseHoldTriggerPositionState { capacity: payload[0], positions },
            ),
            None => None,
        }
    }
}

impl GetMorseBulkRequest {
    /// One byte.
    pub fn encode(&self) -> (r: Vec<u8>)
        ensures
            r@ == seq![self.start_index],
    {
        let mut out: Vec<u8> = Vec::new();
        out.push(self.start_index);
        assert(out@ =~= seq![self.start_index]);
        out
    }

    /// Reads a request from the start of a payload.
    pub fn decode(payload: &[u8]) -> (r: Option<Self>)
        ensures
            match r {
                Some(req) => payload@.len() > 0 && req.start_index == payload@[0],
                None => payload@.len() == 0,
            },
    {
        if payload.len() == 0 {
            None
        } else {
            Some(GetMorseBulkRequest { start_index: payload[0] })
        }
    }
}

/// A table of positions reads back as it was written.
pub proof fn law_table_round_trip(positions: Seq<MorseHoldTriggerPosition>)
    requires
        positions.len() <= HOLD_TRIGGER_KEY_POSITION_MAX_NUM,
    ensures
        table_in(table_bytes(positions)) == Some(positions),
{
    let n = positions.len();
    let body = position_bytes(positions);
    law_size_round_trip(n as u32, body);
    lemma_position_bytes_len(positions);
    assert forall|i: int| 0 <= i < n implies #[trigger] positions_in(body, n)[i]
        == positions[i] by {
        lemma_position_bytes_index(positions, i);
    }
    assert(positions_in(body, n) =~= positions);
}

// ---------------------------------------------------------------------------
// Morse keys
// ---------------------------------------------------------------------------

/// Most bytes of one pattern with its action.
pub const MORSE_ENTRY_MAX_SIZE: usize = 3 + ACTION_MAX_SIZE;

/// Most bytes of an encoded [`Morse`].
pub const MORSE_MAX_SIZE: usize = 5 + 1 + MORSE_SIZE * MORSE_ENTRY_MAX_SIZE;

/// Most bytes of an encoded [`SetMorseRequest`].
pub const SET_MORSE_MAX_SIZE: usize = 1 + MORSE_MAX_SIZE;

/// Most bytes of an encoded [`GetMorseBulkResponse`].
pub const MORSE_BULK_RESPONSE_MAX_SIZE: usize = 1 + MAX_BULK_ITEMS * MORSE_MAX_SIZE;

/// Most bytes of an encoded [`SetMorseBulkRequest`].
pub const SET_MORSE_BULK_MAX_SIZE: usize = 1 + MORSE_BULK_RESPONSE_MAX_SIZE;

/// What a morse key is set to.
#[verifier::ext_equal]
pub struct MorseView {
    pub profile: MorseProfile,
    pub actions: Seq<(u16, Action)>,
}

impl View for Morse {
    type V = MorseView;

    open spec fn view(&self) -> MorseView {
        MorseView { profile: self.profile, actions: self.actions@ }
    }
}

/// The index of a pattern among some entries from `from` on.
pub open spec fn pattern_index(
    entries: Seq<(u16, Action)>,
    pattern: u16,
    from: int,
) -> Option<int>
    decreases entries.len() - from,
{
    if from < 0 || from >= entries.len() {
        None
    } else if entries[from].0 == pattern {
        Some(from)
    } else {
        pattern_index(entries, pattern, from + 1)
    }
}

/// Some entries with one more: a pattern that is there already gets the new
/// action, and a new one needs room.
pub open spec fn entry_put(
    entries: Seq<(u16, Action)>,
    pattern: u16,
    action: Action,
) -> Option<Seq<(u16, Action)>> {
    match pattern_index(entries, pattern, 0) {
        Some(i) => Some(entries.update(i, (pattern, action))),
        None => if entries.len() < MORSE_SIZE {
            Some(entries.push((pattern, action)))
        } else {
            None
        },
    }
}

impl MorseView {
    /// No two entries share a pattern, and there are no more than fit.
    pub open spec fn wf(self) -> bool {
        &&& self.actions.len() <= MORSE_SIZE
        &&& forall|i: int, j: int|
            0 <= i < j < self.actions.len() ==> (#[trigger] self.actions[i]).0 != (
            #[trigger] self.actions[j]).0
    }
}

/// The bytes of some entries.
pub open spec fn entries_bytes(entries: Seq<(u16, Action)>) -> Seq<u8>
    decreases entries.len(),
{
    if entries.len() == 0 {
        Seq::empty()
    } else {
        entries_bytes(entries.drop_last()) + (varint(entries.last().0 as nat) + action_bytes(
            entries.last().1,
        ))
    }
}

/// The bytes of a morse key.
pub open spec fn morse_bytes(m: MorseView) -> Seq<u8> {
    varint(m.profile.0 as nat) + (varint(m.actions.len()) + entries_bytes(m.actions))
}

/// The bytes of some morse keys.
pub open spec fn morses_bytes(ms: Seq<MorseView>) -> Seq<u8>
    decreases ms.len(),
{
    if ms.len() == 0 {
        Seq::empty()
    } else {
        morses_bytes(ms.drop_last()) + morse_bytes(ms.last())
    }
}

/// Some entries with the `n` that `s` starts with, and what follows them.
pub open spec fn take_entries(s: Seq<u8>, n: nat, entries: Seq<(u16, Action)>) -> Option<
    (Seq<(u16, Action)>, Seq<u8>),
>
    decreases n,
{
    if n == 0 {
        Some((entries, s))
    } else {
        match take_short(s) {
            Some((pattern, tail)) => match take_action(tail) {
                Some((action, rest)) => match entry_put(entries, pattern, action) {
                    Some(more) => take_entries(rest, (n - 1) as nat, more),
                    None => None,
                },
                None => None,
            },
            None => None,
        }
    }
}

/// The morse key at the start of `s`, and what follows it.
pub open spec fn take_morse(s: Seq<u8>) -> Option<(MorseView, Seq<u8>)> {
    match take_number(s) {
        Some((profile, tail)) => match take_size(tail) {
            Some((n, body)) => match take_entries(body, n as nat, Seq::empty()) {
                Some((actions, rest)) => Some(
                    (MorseView { profile: MorseProfile(profile), actions }, rest),
                ),
                None => None,
            },
            None => None,
        },
        None => None,
    }
}

/// Some morse keys with the `n` that `s` starts with, and what follows them. More
/// than one transfer takes are refused.
pub open spec fn take_morses(s: Seq<u8>, n: nat, ms: Seq<MorseView>) -> Option<
    (Seq<MorseView>, Seq<u8>),
>
    decreases n,
{
    if n == 0 {
        Some((ms, s))
    } else if ms.len() >= MAX_BULK_ITEMS {
        None
    } else {
        match take_morse(s) {
            Some((m, rest)) => take_morses(rest, (n - 1) as nat, ms.push(m)),
            None => None,
        }
    }
}

/// The page of morse keys that a payload starts with.
pub open spec fn page_in(s: Seq<u8>) -> Option<Seq<MorseView>> {
    match take_size(s) {
        Some((n, rest)) => match take_morses(rest, n as nat, Seq::empty()) {
            Some((ms, _)) => Some(ms),
            None => None,
        },
        None => None,
    }
}

/// The bytes of a page of morse keys.
pub open spec fn page_bytes(ms: Seq<MorseView>) -> Seq<u8> {
    varint(ms.len()) + morses_bytes(ms)
}

proof fn lemma_entries_len(entries: Seq<(u16, Action)>)
    ensures
        entries_bytes(entries).len() <= entries.len() * MORSE_ENTRY_MAX_SIZE,
    decreases entries.len(),
{
    if entries.len() > 0 {
        lemma_entries_len(entries.drop_last());
        law_short_round_trip(entries.last().0, Seq::empty());
        law_action_round_trip(entries.last().1, Seq::empty());
    }
}

proof fn lemma_morse_len(m: MorseView)
    requires
        m.actions.len() <= MORSE_SIZE,
    ensures
        morse_bytes(m).len() <= MORSE_MAX_SIZE,
{
    law_number_round_trip(m.profile.0, Seq::empty());
    reveal_with_fuel(pow128, 2);
    lemma_varint_len(m.actions.len(), 1);
    lemma_entries_len(m.actions);
}

proof fn lemma_morses_len(ms: Seq<MorseView>)
    requires
        forall|i: int| 0 <= i < ms.len() ==> (#[trigger] ms[i]).actions.len() <= MORSE_SIZE,
    ensures
        morses_bytes(ms).len() <= ms.len() * MORSE_MAX_SIZE,
    decreases ms.len(),
{
    if ms.len() > 0 {
        lemma_morses_len(ms.drop_last());
        lemma_morse_len(ms.last());
        assert(ms.len() * MORSE_MAX_SIZE == (ms.len() - 1) * MORSE_MAX_SIZE + MORSE_MAX_SIZE)
            by (nonlinear_arith);
    }
}

impl Morse {
    /// A morse key without actions.
    pub fn new(profile: MorseProfile) -> (r: Self)
        ensures
            r@ == (MorseView { profile, actions: Seq::empty() }),
            r@.wf(),
    {
        Morse { profile, actions: actions_new() }
    }

    /// Give a pattern an action. Where the pattern is new and there is no room, the
    /// key is left as it is.
    pub fn insert(&mut self, pattern: MorsePattern, action: Action) -> (r: Result<(), ()>)
        ensures
            final(self).profile == old(self).profile,
            match entry_put(old(self).actions@, pattern.0, action) {
                Some(entries) => r is Ok && final(self).actions@ == entries,
                None => r is Err && final(self).actions@ == old(self).actions@,
            },
            old(self)@.wf() ==> final(self)@.wf(),
    {
        proof {
            lemma_put_keeps_patterns_apart(old(self)@, pattern.0, action);
        }
        actions_insert(&mut self.actions, pattern.0, action)
    }

    fn encode_onto(&self, out: &mut Vec<u8>)
        ensures
            final(out)@ == old(out)@ + morse_bytes(self@),
            self@.actions.len() <= MORSE_SIZE,
    {
        let entries = self.actions.entries();
        let profile = encode_u32(self.profile.0);
        push_all(out, profile.as_slice());
        let n = encode_u32(entries.len() as u32);
        push_all(out, n.as_slice());
        let ghost head = out@;
        let mut i: usize = 0;
        assert(entries@.take(0) =~= Seq::<(u16, Action)>::empty());
        assert(head + entries_bytes(entries@.take(0)) =~= head);
        while i < entries.len()
            invariant
                i <= entries@.len(),
                out@ == head + entries_bytes(entries@.take(i as int)),
            decreases entries@.len() - i,
        {
            let (pattern, action) = entries[i];
            let ghost before = out@;
            let number = encode_u32(pattern as u32);
            push_all(out, number.as_slice());
            encode_action(out, action);
            proof {
                let next = entries@.take(i + 1);
                assert(next.drop_last() =~= entries@.take(i as int));
                assert(next.last() == (pattern, action));
                assert(out@ =~= head + entries_bytes(next));
            }
            i = i + 1;
        }
        assert(entries@.take(i as int) =~= entries@);
        assert(out@ =~= old(out)@ + morse_bytes(self@));
    }

    /// The bytes of a morse key.
    pub fn encode(&self) -> (r: Vec<u8>)
        ensures
            r@ == morse_bytes(self@),
            r@.len() <= MORSE_MAX_SIZE,
    {
        let mut out: Vec<u8> = Vec::new();
        self.encode_onto(&mut out);
        proof {
            assert(out@ =~= morse_bytes(self@));
            lemma_morse_len(self@);
        }
        out
    }

    fn decode_from(s: &[u8]) -> (r: Option<(Morse, &[u8])>)
        ensures
            match r {
                Some((m, rest)) => take_morse(s@) == Some((m@, rest@)) && m@.wf(),
                None => take_morse(s@) is None,
            },
    {
        let (profile, tail) = match take_u32(s) {
            Some(p) => p,
            None => return None,
        };
        let (n, body) = match take_usize(tail) {
            Some(p) => p,
            None => return None,
        };
        let mut m = Morse::new(MorseProfile(profile));
        let ghost whole = take_entries(body@, n as nat, Seq::empty());
        let mut left: usize = n;
        let mut rest = body;
        while left > 0
            invariant
                m.profile == MorseProfile(profile),
                m@.wf(),
                take_number(s@) == Some((profile, tail@)),
                take_size(tail@) == Some((n, body@)),
                whole == take_entries(body@, n as nat, Seq::empty()),
                whole == take_entries(rest@, left as nat, m.actions@),
            decreases left,
        {
            let (pattern, more) = match take_u16(rest) {
                Some(p) => p,
                None => return None,
            };
            let (action, next) = match decode_action(more) {
                Some(p) => p,
                None => return None,
            };
            let put = m.insert(MorsePattern(pattern), action);
            if put.is_err() {
                return None;
            }
            rest = next;
            left = left - 1;
        }
        assert(m@ =~= MorseView { profile: MorseProfile(profile), actions: m.actions@ });
        Some((m, rest))
    }

    /// Read a morse key from the start of a payload.
    pub fn decode(payload: &[u8]) -> (r: Option<Self>)
        ensures
            match r {
                Some(m) => m@.wf() && (take_morse(payload@) matches Some((view, _)) && m@ == view),
                None => take_morse(payload@) is None,
            },
    {
        match Morse::decode_from(payload) {
            Some((m, _)) => Some(m),
            None => None,
        }
    }
}

impl SetMorseRequest {
    pub fn encode(&self) -> (r: Vec<u8>)
        ensures
            r@ == seq![self.index] + morse_bytes(self.config@),
            r@.len() <= SET_MORSE_MAX_SIZE,
    {
        let mut out: Vec<u8> = Vec::new();
        out.push(self.index);
        self.config.encode_onto(&mut out);
        proof {
            assert(out@ =~= seq![self.index] + morse_bytes(self.config@));
            lemma_morse_len(self.config@);
        }
        out
    }

    /// Read a request from the start of a payload.
    pub fn decode(payload: &[u8]) -> (r: Option<Self>)
        ensures
            match r {
                Some(req) => {
                    &&& payload@.len() > 0
                    &&& req.index == payload@[0]
                    &&& take_morse(payload@.drop_first()) matches Some((view, _)) && req.config@
                        == view
                },
                None => payload@.len() == 0 || take_morse(payload@.drop_first()) is None,
            },
    {
        if payload.len() == 0 {
            return None;
        }
        let rest = vstd::slice::slice_subrange(payload, 1, payload.len());
        assert(rest@ =~= payload@.drop_first());
        match Morse::decode_from(rest) {
            Some((config, _)) => Some(SetMorseRequest { index: payload[0], config }),
            None => None,
        }
    }
}

fn encode_page(out: &mut Vec<u8>, page: &BulkMorses)
    ensures
        final(out)@ == old(out)@ + page_bytes(page@),
        page_bytes(page@).len() <= MORSE_BULK_RESPONSE_MAX_SIZE,
{
    let configs = page.as_slice();
    let ghost views = page@;
    let n = encode_u32(configs.len() as u32);
    push_all(out, n.as_slice());
    let ghost head = out@;
    let mut i: usize = 0;
    assert(views.take(0) =~= Seq::<MorseView>::empty());
    assert(head + morses_bytes(views.take(0)) =~= head);
    while i < configs.len()
        invariant
            i <= configs@.len(),
            configs@.len() <= MAX_BULK_ITEMS,
            views == configs@.map_values(|m: Morse| m@),
            out@ == head + morses_bytes(views.take(i as int)),
            forall|k: int| 0 <= k < i ==> (#[trigger] views[k]).actions.len() <= MORSE_SIZE,
        decreases configs@.len() - i,
    {
        let m = &configs[i];
        m.encode_onto(out);
        proof {
            let next = views.take(i + 1);
            assert(next.drop_last() =~= views.take(i as int));
            assert(next.last() == m@);
            assert(out@ =~= head + morses_bytes(next));
        }
        i = i + 1;
    }
    proof {
        assert(views.take(i as int) =~= views);
        assert(out@ =~= old(out)@ + page_bytes(views));
        reveal_with_fuel(pow128, 2);
        lemma_varint_len(views.len(), 1);
        assert forall|k: int| 0 <= k < views.len() implies (#[trigger] views[k]).actions.len()
            <= MORSE_SIZE by {
            assert(views[k] == configs@[k]@);
        }
        lemma_morses_len(views);
        assert(views.len() * MORSE_MAX_SIZE <= MAX_BULK_ITEMS * MORSE_MAX_SIZE)
            by (nonlinear_arith)
            requires
                views.len() <= MAX_BULK_ITEMS,
        ;
    }
}

fn decode_page(s: &[u8]) -> (r: Option<BulkMorses>)
    ensures
        match r {
            Some(configs) => page_in(s@) == Some(configs@),
            None => page_in(s@) is None,
        },
{
    let (n, body) = match take_usize(s) {
        Some(p) => p,
        None => return None,
    };
    let mut configs = BulkMorses::new();
    let mut left: usize = n;
    let mut rest = body;
    let ghost whole = take_morses(body@, n as nat, Seq::empty());
    while left > 0
        invariant
            take_size(s@) == Some((n, body@)),
            whole == take_morses(body@, n as nat, Seq::empty()),
            whole == take_morses(rest@, left as nat, configs@),
        decreases left,
    {
        let (m, next) = match Morse::decode_from(rest) {
            Some(p) => p,
            None => return None,
        };
        if configs.push(m).is_err() {
            return None;
        }
        rest = next;
        left = left - 1;
    }
    Some(configs)
}

impl GetMorseBulkResponse {
    pub fn encode(&self) -> (r: Vec<u8>)
        ensures
            r@ == page_bytes(self.configs@),
            r@.len() <= MORSE_BULK_RESPONSE_MAX_SIZE,
    {
        let mut out: Vec<u8> = Vec::new();
        encode_page(&mut out, &self.configs);
        assert(out@ =~= page_bytes(self.configs@));
        out
    }

    /// Read a response from the start of a payload.
    pub fn decode(payload: &[u8]) -> (r: Option<Self>)
        ensures
            match r {
                Some(resp) => page_in(payload@) == Some(resp.configs@),
                None => page_in(payload@) is None,
            },
    {
        match decode_page(payload) {
            Some(configs) => Some(GetMorseBulkResponse { configs }),
            None => None,
        }
    }
}

impl SetMorseBulkRequest {
    pub fn encode(&self) -> (r: Vec<u8>)
        ensures
            r@ == seq![self.start_index] + page_bytes(self.configs@),
            r@.len() <= SET_MORSE_BULK_MAX_SIZE,
    {
        let mut out: Vec<u8> = Vec::new();
        out.push(self.start_index);
        encode_page(&mut out, &self.configs);
        assert(out@ =~= seq![self.start_index] + page_bytes(self.configs@));
        out
    }

    /// Read a request from the start of a payload.
    pub fn decode(payload: &[u8]) -> (r: Option<Self>)
        ensures
            match r {
                Some(req) => {
                    &&& payload@.len() > 0
                    &&& req.start_index == payload@[0]
                    &&& page_in(payload@.drop_first()) == Some(req.configs@)
                },
                None => payload@.len() == 0 || page_in(payload@.drop_first()) is None,
            },
    {
        if payload.len() == 0 {
            return None;
        }
        let rest = vstd::slice::slice_subrange(payload, 1, payload.len());
        assert(rest@ =~= payload@.drop_first());
        match decode_page(rest) {
            Some(configs) => Some(SetMorseBulkRequest { start_index: payload[0], configs }),
            None => None,
        }
    }
}

proof fn lemma_pattern_index(entries: Seq<(u16, Action)>, pattern: u16, from: int)
    requires
        0 <= from,
    ensures
        match pattern_index(entries, pattern, from) {
            Some(i) => from <= i < entries.len() && entries[i].0 == pattern,
            None => forall|i: int|
                from <= i < entries.len() ==> (#[trigger] entries[i]).0 != pattern,
        },
    decreases entries.len() - from,
{
    if from < entries.len() && entries[from].0 != pattern {
        lemma_pattern_index(entries, pattern, from + 1);
    }
}

proof fn lemma_put_keeps_patterns_apart(m: MorseView, pattern: u16, action: Action)
    ensures
        m.wf() ==> (entry_put(m.actions, pattern, action) matches Some(actions) ==> (MorseView {
            actions,
            ..m
        }).wf()),
{
    lemma_pattern_index(m.actions, pattern, 0);
}

proof fn lemma_absent_pattern(
    entries: Seq<(u16, Action)>,
    pattern: u16,
    from: int,
)
    requires
        0 <= from,
        forall|i: int| from <= i < entries.len() ==> (#[trigger] entries[i]).0 != pattern,
    ensures
        pattern_index(entries, pattern, from) is None,
    decreases entries.len() - from,
{
    if from < entries.len() {
        lemma_absent_pattern(entries, pattern, from + 1);
    }
}

proof fn lemma_entries_split(entries: Seq<(u16, Action)>)
    requires
        entries.len() > 0,
    ensures
        entries_bytes(entries) == (varint(entries[0].0 as nat) + action_bytes(entries[0].1))
            + entries_bytes(entries.drop_first()),
    decreases entries.len(),
{
    let one = varint(entries[0].0 as nat) + action_bytes(entries[0].1);
    if entries.len() == 1 {
        reveal_with_fuel(entries_bytes, 2);
        assert(entries.drop_first() =~= Seq::empty());
        assert(entries_bytes(entries) =~= one + entries_bytes(entries.drop_first()));
    } else {
        let front = entries.drop_last();
        lemma_entries_split(front);
        let tail = entries.drop_first();
        assert(tail.drop_last() =~= front.drop_first());
        assert(tail.last() == entries.last());
        assert(entries_bytes(entries) =~= one + entries_bytes(tail));
    }
}

proof fn lemma_entries_round_trip(
    done: Seq<(u16, Action)>,
    entries: Seq<(u16, Action)>,
    profile: MorseProfile,
    rest: Seq<u8>,
)
    requires
        (MorseView { profile, actions: done + entries }).wf(),
    ensures
        take_entries(entries_bytes(entries) + rest, entries.len(), done) == Some(
            (done + entries, rest),
        ),
    decreases entries.len(),
{
    let s = entries_bytes(entries) + rest;
    if entries.len() == 0 {
        assert(s =~= rest);
        assert(done + entries =~= done);
    } else {
        let (pattern, action) = entries[0];
        let tail = entries.drop_first();
        lemma_entries_split(entries);
        let after = entries_bytes(tail) + rest;
        assert(s =~= varint(pattern as nat) + (action_bytes(action) + after));
        law_short_round_trip(pattern, action_bytes(action) + after);
        law_action_round_trip(action, after);
        let all = done + entries;
        assert(all[done.len() as int] == entries[0]);
        assert forall|i: int| 0 <= i < done.len() implies (#[trigger] done[i]).0 != pattern by {
            assert(all[i] == done[i]);
        }
        lemma_absent_pattern(done, pattern, 0);
        let more = done.push((pattern, action));
        assert(more + tail =~= all);
        lemma_entries_round_trip(more, tail, profile, rest);
    }
}

/// A morse key reads back as it was written, and what follows it is left.
pub proof fn law_morse_round_trip(m: MorseView, rest: Seq<u8>)
    requires
        m.wf(),
    ensures
        take_morse(morse_bytes(m) + rest) == Some((m, rest)),
        morse_bytes(m).len() <= MORSE_MAX_SIZE,
{
    let body = entries_bytes(m.actions) + rest;
    let n = m.actions.len();
    let s = morse_bytes(m) + rest;
    assert(s =~= varint(m.profile.0 as nat) + (varint(n) + body));
    law_number_round_trip(m.profile.0, varint(n) + body);
    law_size_round_trip(n as u32, body);
    let none = Seq::<(u16, Action)>::empty();
    assert(none + m.actions =~= m.actions);
    lemma_entries_round_trip(none, m.actions, m.profile, rest);
    lemma_morse_len(m);
}

proof fn lemma_morses_split(ms: Seq<MorseView>)
    requires
        ms.len() > 0,
    ensures
        morses_bytes(ms) == morse_bytes(ms[0]) + morses_bytes(ms.drop_first()),
    decreases ms.len(),
{
    if ms.len() == 1 {
        reveal_with_fuel(morses_bytes, 2);
        assert(ms.drop_first() =~= Seq::empty());
        assert(morses_bytes(ms) =~= morse_bytes(ms[0]) + morses_bytes(ms.drop_first()));
    } else {
        let front = ms.drop_last();
        lemma_morses_split(front);
        let tail = ms.drop_first();
        assert(tail.drop_last() =~= front.drop_first());
        assert(tail.last() == ms.last());
        assert(morses_bytes(ms) =~= morse_bytes(ms[0]) + morses_bytes(tail));
    }
}

proof fn lemma_morses_round_trip(done: Seq<MorseView>, ms: Seq<MorseView>)
    requires
        done.len() + ms.len() <= MAX_BULK_ITEMS,
        forall|i: int| 0 <= i < ms.len() ==> (#[trigger] ms[i]).wf(),
    ensures
        take_morses(morses_bytes(ms), ms.len(), done) == Some((done + ms, Seq::<u8>::empty())),
    decreases ms.len(),
{
    if ms.len() == 0 {
        assert(done + ms =~= done);
    } else {
        let tail = ms.drop_first();
        lemma_morses_split(ms);
        law_morse_round_trip(ms[0], morses_bytes(tail));
        assert(done.push(ms[0]) + tail =~= done + ms);
        lemma_morses_round_trip(done.push(ms[0]), tail);
    }
}

/// A page of morse keys reads back as it was written.
pub proof fn law_page_round_trip(ms: Seq<MorseView>)
    requires
        ms.len() <= MAX_BULK_ITEMS,
        forall|i: int| 0 <= i < ms.len() ==> (#[trigger] ms[i]).wf(),
    ensures
        page_in(page_bytes(ms)) == Some(ms),
{
    law_size_round_trip(ms.len() as u32, morses_bytes(ms));
    let none = Seq::<MorseView>::empty();
    assert(none + ms =~= ms);
    lemma_morses_round_trip(none, ms);
}

// ---------------------------------------------------------------------------
// Laws
// ---------------------------------------------------------------------------

/// An action that is put in is the one of its pattern, and every other pattern keeps its own. It
/// is refused only where its pattern is new and eight others are taken.
pub proof fn law_a_pattern_has_the_last_action_put_in(
    m: MorseView,
    pattern: u16,
    action: Action,
    other: u16,
    a: Action,
)
    requires
        m.wf(),
    ensures
        entry_put(m.actions, pattern, action) is None <==> m.actions.len() == 8 && forall|i: int|
            0 <= i < m.actions.len() ==> (#[trigger] m.actions[i]).0 != pattern,
        entry_put(m.actions, pattern, action) matches Some(after) ==> {
            &&& after.contains((pattern, action))
            &&& other != pattern ==> (after.contains((other, a)) <==> m.actions.contains(
                (other, a),
            ))
            &&& after.contains((pattern, a)) ==> a == action
        },
{
    lemma_pattern_index(m.actions, pattern, 0);
    let entries = m.actions;
    if let Some(after) = entry_put(entries, pattern, action) {
        let at = match pattern_index(entries, pattern, 0) {
            Some(i) => i,
            None => entries.len() as int,
        };
        assert(after[at] == (pattern, action));
        if after.contains((other, a)) && other != pattern {
            let k = choose|k: int| 0 <= k < after.len() && after[k] == (other, a);
            assert(entries[k] == (other, a));
        }
        if entries.contains((other, a)) && other != pattern {
            let k = choose|k: int| 0 <= k < entries.len() && entries[k] == (other, a);
            assert(after[k] == (other, a));
        }
        if after.contains((pattern, a)) {
            let k = choose|k: int| 0 <= k < after.len() && after[k] == (pattern, a);
            if k != at {
                assert(entries[k].0 == pattern);
                if k < at && at < entries.len() {
                    assert(entries[k].0 != entries[at].0);
                }
                if at < k {
                    assert(entries[at].0 != entries[k].0);
                }
            }
        }
    }
}

/// A position is three bytes: its profile, its row and its column.
pub proof fn law_a_position_is_three_bytes(positions: Seq<MorseHoldTriggerPosition>, i: int)
    requires
        0 <= i < positions.len(),
    ensures
        position_bytes(positions).len() == 3 * positions.len(),
        position_bytes(positions)[3 * i] == positions[i].profile,
        position_bytes(positions)[3 * i + 1] == positions[i].row,
        position_bytes(positions)[3 * i + 2] == positions[i].col,
    decreases positions.len(),
{
    let t = positions.drop_first();
    let p = positions[0];
    let head = seq![p.profile, p.row, p.col];
    if t.len() > 0 {
        law_a_position_is_three_bytes(
            t,
            if i > 0 {
                i - 1
            } else {
                0
            },
        );
    } else {
        assert(position_bytes(t).len() == 0);
    }
    if i > 0 {
        assert(t[i - 1] == positions[i]);
        let s = position_bytes(positions);
        let r = position_bytes(t);
        assert(s =~= head + r);
        assert(s[3 * i] == r[3 * (i - 1)]);
        assert(s[3 * i + 1] == r[3 * (i - 1) + 1]);
        assert(s[3 * i + 2] == r[3 * (i - 1) + 2]);
    }
}

} // verus!
