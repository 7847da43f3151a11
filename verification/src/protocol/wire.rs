//! Integers on the wire.
//!
//! A number is a run of bytes with seven bits each, the lowest first; the high
//! bit says that more follow.

use vstd::prelude::*;

verus! {

/// The bytes of a number.
pub open spec fn varint(n: nat) -> Seq<u8>
    decreases n,
{
    if n < 128 {
        seq![n as u8]
    } else {
        seq![(n % 128 + 128) as u8] + varint(n / 128)
    }
}

/// Bytes at the start of `s` that say that more follow.
pub open spec fn continued(s: Seq<u8>) -> nat
    decreases s.len(),
{
    if s.len() > 0 && s[0] >= 128 {
        1 + continued(s.drop_first())
    } else {
        0
    }
}

/// The number that a run of bytes stands for.
pub open spec fn varint_value(s: Seq<u8>) -> nat
    decreases s.len(),
{
    if s.len() == 0 {
        0
    } else {
        (s[0] % 128) as nat + 128 * varint_value(s.drop_first())
    }
}

/// The 32-bit number at the start of `s`, and what follows it. There is none
/// where the bytes run out, where the number takes more than five of them, or
/// where it does not fit.
pub open spec fn take_number(s: Seq<u8>) -> Option<(u32, Seq<u8>)> {
    let k = continued(s) as int;
    if k < s.len() && k < 5 && (k == 4 ==> s[4] <= 15) {
        Some(
            (
                varint_value(s.subrange(0, k + 1)) as u32,
                s.subrange(k + 1, s.len() as int),
            ),
        )
    } else {
        None
    }
}

/// The 16-bit number at the start of `s`, and what follows it. There is none where
/// the bytes run out, where the number takes more than three of them, or where it
/// does not fit.
pub open spec fn take_short(s: Seq<u8>) -> Option<(u16, Seq<u8>)> {
    let k = continued(s) as int;
    if k < s.len() && k < 3 && (k == 2 ==> s[2] <= 3) {
        Some(
            (
                varint_value(s.subrange(0, k + 1)) as u16,
                s.subrange(k + 1, s.len() as int),
            ),
        )
    } else {
        None
    }
}

/// The count of items at the start of `s`, and what follows it. It is as wide as the
/// machine's sizes: five bytes at most where they have 32 bits, else ten.
pub open spec fn take_size(s: Seq<u8>) -> Option<(usize, Seq<u8>)> {
    let k = continued(s) as int;
    let fits = if usize::BITS == 32 {
        k < 5 && (k == 4 ==> s[4] <= 15)
    } else {
        k < 10 && (k == 9 ==> s[9] <= 1)
    };
    if k < s.len() && fits {
        Some(
            (
                varint_value(s.subrange(0, k + 1)) as usize,
                s.subrange(k + 1, s.len() as int),
            ),
        )
    } else {
        None
    }
}

/// `postcard::to_allocvec` of a `u32`: its varint bytes.
#[verifier::external_body]
pub(crate) fn encode_u32(value: u32) -> (r: Vec<u8>)
    ensures
        r@ == varint(value as nat),
{
    postcard::to_allocvec(&value).unwrap()
}

/// `postcard::take_from_bytes` of a `u32`: the varint at the start of the bytes
/// and what follows it, or `None` where postcard finds the bytes too short or
/// the number too long.
#[verifier::external_body]
pub(crate) fn take_u32(bytes: &[u8]) -> (r: Option<(u32, &[u8])>)
    ensures
        match r {
            Some((value, rest)) => take_number(bytes@) == Some((value, rest@)),
            None => take_number(bytes@) is None,
        },
{
    match postcard::take_from_bytes::<u32>(bytes) {
        Ok((value, rest)) => Some((value, rest)),
        Err(_) => None,
    }
}

/// `postcard::take_from_bytes` of a `u16`: the varint at the start of the bytes and what
/// follows it, or `None` where postcard finds the bytes too short or the number too long.
#[verifier::external_body]
pub(crate) fn take_u16(bytes: &[u8]) -> (r: Option<(u16, &[u8])>)
    ensures
        match r {
            Some((value, rest)) => take_short(bytes@) == Some((value, rest@)),
            None => take_short(bytes@) is None,
        },
{
    match postcard::take_from_bytes::<u16>(bytes) {
        Ok((value, rest)) => Some((value, rest)),
        Err(_) => None,
    }
}

/// `postcard::take_from_bytes` of a `usize`, which is how postcard reads the count of a
/// sequence or a map: the varint at the start of the bytes and what follows it, or `None`
/// where postcard finds the bytes too short or the number too long.
#[verifier::external_body]
pub(crate) fn take_usize(bytes: &[u8]) -> (r: Option<(usize, &[u8])>)
    ensures
        match r {
            Some((value, rest)) => take_size(bytes@) == Some((value, rest@)),
            None => take_size(bytes@) is None,
        },
{
    match postcard::take_from_bytes::<usize>(bytes) {
        Ok((value, rest)) => Some((value, rest)),
        Err(_) => None,
    }
}

/// The byte at the start of `s`, and what follows it.
pub open spec fn first_byte(s: Seq<u8>) -> Option<(u8, Seq<u8>)> {
    if s.len() == 0 {
        None
    } else {
        Some((s[0], s.skip(1)))
    }
}

/// The truth value at the start of `s`, and what follows it.
pub open spec fn first_flag(s: Seq<u8>) -> Option<(bool, Seq<u8>)> {
    if s.len() == 0 || s[0] > 1 {
        None
    } else {
        Some((s[0] == 1, s.skip(1)))
    }
}

/// Read one byte from the start of some bytes.
pub(crate) fn take_byte(s: &[u8]) -> (r: Option<(u8, &[u8])>)
    ensures
        match r {
            Some((byte, rest)) => first_byte(s@) == Some((byte, rest@)),
            None => first_byte(s@) is None,
        },
{
    if s.len() == 0 {
        return None;
    }
    let rest = vstd::slice::slice_subrange(s, 1, s.len());
    assert(rest@ =~= s@.skip(1));
    Some((s[0], rest))
}

/// Read a truth value from the start of some bytes.
pub(crate) fn take_flag(s: &[u8]) -> (r: Option<(bool, &[u8])>)
    ensures
        match r {
            Some((flag, rest)) => first_flag(s@) == Some((flag, rest@)),
            None => first_flag(s@) is None,
        },
{
    match take_byte(s) {
        Some((byte, rest)) => if byte > 1 {
            None
        } else {
            Some((byte == 1, rest))
        },
        None => None,
    }
}

/// Append some bytes.
pub(crate) fn push_all(out: &mut Vec<u8>, bytes: &[u8])
    ensures
        final(out)@ == old(out)@ + bytes@,
{
    let mut i: usize = 0;
    while i < bytes.len()
        invariant
            i <= bytes@.len(),
            out@ == old(out)@ + bytes@.take(i as int),
        decreases bytes@.len() - i,
    {
        out.push(bytes[i]);
        i = i + 1;
        assert(out@ =~= old(out)@ + bytes@.take(i as int));
    }
    assert(bytes@.take(i as int) =~= bytes@);
}

/// A number that fits in `7 * k` bits takes at most `k` bytes.
pub proof fn lemma_varint_len(n: nat, k: nat)
    requires
        k >= 1,
        n < pow128(k),
    ensures
        1 <= varint(n).len() <= k,
    decreases k,
{
    if n >= 128 {
        if k == 1 {
            assert(pow128(1) == 128 * pow128(0));
            assert(false);
        }
        let p = pow128((k - 1) as nat);
        assert(pow128(k) == 128 * p);
        assert(n / 128 < p) by (nonlinear_arith)
            requires
                n < 128 * p,
        ;
        lemma_varint_len(n / 128, (k - 1) as nat);
    }
}

pub open spec fn pow128(k: nat) -> nat
    decreases k,
{
    if k == 0 {
        1
    } else {
        128 * pow128((k - 1) as nat)
    }
}

proof fn lemma_varint_shape(n: nat, rest: Seq<u8>)
    ensures
        continued(varint(n) + rest) == varint(n).len() - 1,
        varint(n).len() >= 1,
        varint_value(varint(n)) == n,
    decreases n,
{
    let s = varint(n) + rest;
    if n < 128 {
        assert(varint(n).drop_first() =~= Seq::<u8>::empty());
        assert(s[0] == n as u8);
        assert(varint_value(varint(n).drop_first()) == 0);
        assert((n as u8) % 128 == n);
    } else {
        let tail = varint(n / 128);
        lemma_varint_shape(n / 128, rest);
        assert(varint(n).drop_first() =~= tail);
        assert(s.drop_first() =~= tail + rest);
        let b = (n % 128 + 128) as u8;
        assert(s[0] == b);
        assert(varint(n)[0] == b);
        assert(b % 128 == n % 128);
    }
}

/// Reading a number back gives the number that was written and leaves the bytes
/// after it.
pub proof fn law_number_round_trip(value: u32, rest: Seq<u8>)
    ensures
        take_number(varint(value as nat) + rest) == Some((value, rest)),
        1 <= varint(value as nat).len() <= 5,
{
    let n = value as nat;
    let v = varint(n);
    let s = v + rest;
    lemma_varint_shape(n, rest);
    reveal_with_fuel(pow128, 6);
    lemma_varint_len(n, 5);
    let k = continued(s) as int;
    assert(s.subrange(0, k + 1) =~= v);
    assert(s.subrange(k + 1, s.len() as int) =~= rest);
    if k == 4 {
        lemma_fifth_byte(n);
        assert(s[4] == v[4]);
    }
}

/// A number below 128 is read from its one byte.
pub proof fn lemma_small_number(s: Seq<u8>)
    requires
        s.len() > 0,
        s[0] < 128,
    ensures
        take_number(s) == Some((s[0] as u32, s.skip(1))),
{
    assert(varint(s[0] as nat) + s.skip(1) =~= s);
    law_number_round_trip(s[0] as u32, s.skip(1));
}

/// A 16-bit number reads back as it was written.
pub proof fn law_short_round_trip(n: u16, rest: Seq<u8>)
    ensures
        take_short(varint(n as nat) + rest) == Some((n, rest)),
        1 <= varint(n as nat).len() <= 3,
{
    let v = varint(n as nat);
    let s = v + rest;
    lemma_varint_shape(n as nat, rest);
    reveal_with_fuel(pow128, 4);
    lemma_varint_len(n as nat, 3);
    let k = continued(s) as int;
    assert(s.subrange(0, k + 1) =~= v);
    assert(s.subrange(k + 1, s.len() as int) =~= rest);
    if k == 2 {
        let n1 = n as nat / 128;
        let n2 = n1 / 128;
        reveal_with_fuel(varint, 4);
        assert(n2 <= 3);
        assert(varint(n2) =~= seq![n2 as u8]);
        assert(s[2] == v[2]);
    }
}

/// A count reads back as it was written.
pub proof fn law_size_round_trip(n: u32, rest: Seq<u8>)
    ensures
        take_size(varint(n as nat) + rest) == Some((n as usize, rest)),
        1 <= varint(n as nat).len() <= 5,
{
    let v = varint(n as nat);
    let s = v + rest;
    lemma_varint_shape(n as nat, rest);
    law_number_round_trip(n, rest);
    let k = continued(s) as int;
    assert(s.subrange(0, k + 1) =~= v);
}

proof fn lemma_fifth_byte(n: nat)
    requires
        n <= u32::MAX,
        varint(n).len() == 5,
    ensures
        varint(n)[4] <= 15,
{
    let n1 = n / 128;
    let n2 = n1 / 128;
    let n3 = n2 / 128;
    let n4 = n3 / 128;
    reveal_with_fuel(varint, 6);
    assert(n4 <= 15);
    assert(n4 < 128);
    assert(varint(n4) =~= seq![n4 as u8]);
}

// ---------------------------------------------------------------------------
// Laws
// ---------------------------------------------------------------------------

/// A number is written seven bits to a byte, the lowest first: every byte but the last has its
/// high bit set, and a number takes no more bytes than it has groups of seven bits.
pub proof fn law_a_number_is_written_seven_bits_a_byte(n: nat)
    ensures
        varint(n).len() >= 1,
        varint(n)[0] % 128 == n % 128,
        n < 128 ==> varint(n).len() == 1 && varint(n)[0] == n,
        n >= 128 ==> varint(n)[0] >= 128 && varint(n).len() == varint(n / 128).len() + 1 && varint(
            n,
        ).subrange(1, varint(n).len() as int) == varint(n / 128),
        varint(n).last() < 128,
    decreases n,
{
    if n >= 128 {
        law_a_number_is_written_seven_bits_a_byte(n / 128);
        let s = varint(n);
        let rest = varint(n / 128);
        assert(s.subrange(1, s.len() as int) =~= rest);
        assert(s.last() == rest.last());
    }
}

/// No number is read where its bytes run out before one without the high bit.
pub proof fn law_a_number_needs_its_last_byte(s: Seq<u8>)
    requires
        forall|i: int| 0 <= i < s.len() ==> #[trigger] s[i] >= 128,
    ensures
        take_number(s) is None,
        take_short(s) is None,
        take_size(s) is None,
{
    lemma_all_continued(s);
}

proof fn lemma_all_continued(s: Seq<u8>)
    requires
        forall|i: int| 0 <= i < s.len() ==> #[trigger] s[i] >= 128,
    ensures
        continued(s) == s.len(),
    decreases s.len(),
{
    if s.len() > 0 {
        let t = s.drop_first();
        assert forall|i: int| 0 <= i < t.len() implies #[trigger] t[i] >= 128 by {
            assert(t[i] == s[i + 1]);
        }
        lemma_all_continued(t);
    }
}

/// A truth value is the byte 0 or 1, and no other byte is one.
pub proof fn law_a_truth_value_is_zero_or_one(s: Seq<u8>)
    requires
        s.len() > 0,
    ensures
        first_flag(s) matches Some((flag, rest)) ==> (flag <==> s[0] == 1) && rest.len() == s.len()
            - 1 && first_byte(s) == Some((s[0], rest)),
        first_flag(s) is Some <==> s[0] == 0 || s[0] == 1,
{
}

} // verus!
