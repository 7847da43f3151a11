//! CRC-32 (reflected polynomial `0xEDB88320`, all-ones initial value and final
//! complement), over whole buffers or piece by piece.

use vstd::prelude::*;

verus! {

/// The reflected generator polynomial.
pub const POLYNOMIAL: u32 = 0xEDB8_8320;

/// One bit of polynomial division.
pub open spec fn crc_bit(state: u32) -> u32 {
    if state & 1 == 1 {
        (state >> 1) ^ POLYNOMIAL
    } else {
        state >> 1
    }
}

pub open spec fn crc_bits(state: u32, n: nat) -> u32
    decreases n,
{
    if n == 0 {
        state
    } else {
        crc_bit(crc_bits(state, (n - 1) as nat))
    }
}

/// The register after one more byte.
pub open spec fn crc_byte(state: u32, byte: u8) -> u32 {
    crc_bits(state ^ (byte as u32), 8)
}

/// The register after a run of bytes.
pub open spec fn crc_run(state: u32, data: Seq<u8>) -> u32
    decreases data.len(),
{
    if data.len() == 0 {
        state
    } else {
        crc_byte(crc_run(state, data.drop_last()), data.last())
    }
}

/// The CRC-32 of `data`.
pub open spec fn crc_of(data: Seq<u8>) -> u32 {
    !crc_run(0xFFFF_FFFF, data)
}

/// A CRC-32 in progress.
#[derive(Clone, Copy, Debug, PartialEq, Eq, Structural)]
pub struct Crc32 {
    state: u32,
}

impl Crc32 {
    /// The shift register.
    pub closed spec fn register(self) -> u32 {
        self.state
    }

    /// The CRC-32 of everything taken in so far.
    pub open spec fn value(self) -> u32 {
        !self.register()
    }

    /// Whether exactly the bytes `data` have been taken in since the start.
    pub open spec fn covers(self, data: Seq<u8>) -> bool {
        self.register() == crc_run(0xFFFF_FFFF, data)
    }

    pub fn new() -> (r: Self)
        ensures
            r.register() == 0xFFFF_FFFF,
            r.covers(Seq::empty()),
    {
        Crc32 { state: 0xFFFF_FFFF }
    }

    /// Resume from a finalized value, as if the data it covers had just been
    /// taken in.
    pub fn from_state(crc: u32) -> (r: Self)
        ensures
            r.register() == !crc,
            r.value() == crc,
    {
        assert(!!crc == crc) by (bit_vector);
        Crc32 { state: !crc }
    }

    /// Takes in more bytes.
    pub fn update(&mut self, data: &[u8])
        ensures
            final(self).register() == crc_run(old(self).register(), data@),
            forall|before: Seq<u8>|
                old(self).covers(before) ==> #[trigger] final(self).covers(before + data@),
    {
        let ghost start = self.state;
        let mut i: usize = 0;
        while i < data.len()
            invariant
                i <= data.len(),
                self.state == crc_run(start, data@.subrange(0, i as int)),
            decreases data.len() - i,
        {
            let mut s: u32 = self.state ^ (data[i] as u32);
            let ghost first = s;
            let mut n: u32 = 0;
            while n < 8
                invariant
                    n <= 8,
                    s == crc_bits(first, n as nat),
                decreases 8 - n,
            {
                if s & 1 == 1 {
                    s = (s >> 1) ^ POLYNOMIAL;
                } else {
                    s = s >> 1;
                }
                n = n + 1;
            }
            self.state = s;
            proof {
                let p = data@.subrange(0, i + 1);
                assert(p.drop_last() =~= data@.subrange(0, i as int));
                assert(p.last() == data@[i as int]);
            }
            i = i + 1;
        }
        proof {
            assert(data@.subrange(0, i as int) =~= data@);
            assert forall|before: Seq<u8>| old(self).covers(before) implies #[trigger] self.covers(
                before + data@,
            ) by {
                lemma_crc_run_concat(0xFFFF_FFFF, before, data@);
            }
        }
    }

    /// The CRC-32 of everything taken in so far. More bytes may follow.
    pub fn finalize(&self) -> (r: u32)
        ensures
            r == self.value(),
            forall|data: Seq<u8>| #[trigger] self.covers(data) ==> r == crc_of(data),
    {
        !self.state
    }
}

/// The CRC-32 of a whole buffer.
pub fn crc32(data: &[u8]) -> (r: u32)
    ensures
        r == crc_of(data@),
{
    let mut c = Crc32::new();
    c.update(data);
    proof {
        assert(c.covers(Seq::<u8>::empty() + data@));
        assert(Seq::<u8>::empty() + data@ =~= data@);
    }
    c.finalize()
}

/// Taking in two runs one after the other is taking in their concatenation.
pub proof fn lemma_crc_run_concat(state: u32, a: Seq<u8>, b: Seq<u8>)
    ensures
        crc_run(state, a + b) == crc_run(crc_run(state, a), b),
    decreases b.len(),
{
    if b.len() == 0 {
        assert(a + b =~= a);
    } else {
        lemma_crc_run_concat(state, a, b.drop_last());
        assert((a + b).drop_last() =~= a + b.drop_last());
        assert((a + b).last() == b.last());
    }
}

/// Resuming from the value of a checkpoint gives what going on without a break
/// would have given.
pub proof fn law_resume_is_continuation(checkpoint: Crc32, resumed: Crc32, more: Seq<u8>)
    requires
        resumed.value() == checkpoint.value(),
    ensures
        crc_run(resumed.register(), more) == crc_run(checkpoint.register(), more),
{
    let a = checkpoint.register();
    let b = resumed.register();
    assert(!a == !b ==> a == b) by (bit_vector);
}

// ---------------------------------------------------------------------------
// Laws
// ---------------------------------------------------------------------------

proof fn lemma_bit_linear(a: u32, b: u32)
    ensures
        crc_bit(a ^ b) == crc_bit(a) ^ crc_bit(b),
{
    assert((if (a ^ b) & 1 == 1 {
        ((a ^ b) >> 1) ^ 0xEDB8_8320u32
    } else {
        (a ^ b) >> 1
    }) == (if a & 1 == 1 {
        (a >> 1) ^ 0xEDB8_8320u32
    } else {
        a >> 1
    }) ^ (if b & 1 == 1 {
        (b >> 1) ^ 0xEDB8_8320u32
    } else {
        b >> 1
    })) by (bit_vector);
}

proof fn lemma_bits_linear(a: u32, b: u32, n: nat)
    ensures
        crc_bits(a ^ b, n) == crc_bits(a, n) ^ crc_bits(b, n),
    decreases n,
{
    if n > 0 {
        lemma_bits_linear(a, b, (n - 1) as nat);
        lemma_bit_linear(crc_bits(a, (n - 1) as nat), crc_bits(b, (n - 1) as nat));
    }
}

/// No two registers become one.
proof fn lemma_bit_injective(a: u32, b: u32)
    requires
        crc_bit(a) == crc_bit(b),
    ensures
        a == b,
{
    assert((if a & 1 == 1 {
        (a >> 1) ^ 0xEDB8_8320u32
    } else {
        a >> 1
    }) == (if b & 1 == 1 {
        (b >> 1) ^ 0xEDB8_8320u32
    } else {
        b >> 1
    }) ==> a == b) by (bit_vector);
}

proof fn lemma_bits_injective(a: u32, b: u32, n: nat)
    requires
        crc_bits(a, n) == crc_bits(b, n),
    ensures
        a == b,
    decreases n,
{
    if n > 0 {
        lemma_bit_injective(crc_bits(a, (n - 1) as nat), crc_bits(b, (n - 1) as nat));
        lemma_bits_injective(a, b, (n - 1) as nat);
    }
}

proof fn lemma_bits_split(a: u32, m: nat, n: nat)
    ensures
        crc_bits(a, m + n) == crc_bits(crc_bits(a, m), n),
    decreases n,
{
    if n > 0 {
        lemma_bits_split(a, m, (n - 1) as nat);
    }
}

proof fn lemma_run_injective(a: u32, b: u32, data: Seq<u8>)
    requires
        crc_run(a, data) == crc_run(b, data),
    ensures
        a == b,
    decreases data.len(),
{
    if data.len() > 0 {
        let x = crc_run(a, data.drop_last());
        let y = crc_run(b, data.drop_last());
        let d = data.last() as u32;
        lemma_bits_injective(x ^ d, y ^ d, 8);
        assert(x ^ d == y ^ d ==> x == y) by (bit_vector);
        lemma_run_injective(a, b, data.drop_last());
    }
}

/// A damaged byte never goes unnoticed: two buffers of one length that differ in a single
/// byte, in whichever of its bits, have different CRCs.
pub proof fn law_a_damaged_byte_is_noticed(a: Seq<u8>, b: Seq<u8>, k: int)
    requires
        a.len() == b.len(),
        0 <= k < a.len(),
        a[k] != b[k],
        forall|i: int| 0 <= i < a.len() && i != k ==> a[i] == b[i],
    ensures
        crc_of(a) != crc_of(b),
{
    let head = a.subrange(0, k);
    let tail = a.subrange(k + 1, a.len() as int);
    assert(a =~= (head + seq![a[k]]) + tail);
    assert(b =~= (head + seq![b[k]]) + tail);
    let s = crc_run(0xFFFF_FFFF, head);
    let x = crc_byte(s, a[k]);
    let y = crc_byte(s, b[k]);
    lemma_crc_run_concat(0xFFFF_FFFF, head + seq![a[k]], tail);
    lemma_crc_run_concat(0xFFFF_FFFF, head + seq![b[k]], tail);
    assert((head + seq![a[k]]).drop_last() =~= head);
    assert((head + seq![b[k]]).drop_last() =~= head);
    if crc_of(a) == crc_of(b) {
        let p = crc_run(0xFFFF_FFFF, a);
        let q = crc_run(0xFFFF_FFFF, b);
        assert(!p == !q ==> p == q) by (bit_vector);
        lemma_run_injective(x, y, tail);
        let u = a[k];
        let v = b[k];
        lemma_bits_injective(s ^ (u as u32), s ^ (v as u32), 8);
        assert(s ^ (u as u32) == s ^ (v as u32) ==> u == v) by (bit_vector);
    }
}

/// What bit `i` of a byte adds: `term` where it is set.
pub open spec fn bit_term(byte: u8, i: u8, term: u32) -> u32 {
    if (byte >> i) & 1 == 1 {
        term
    } else {
        0
    }
}

/// The register step is table-driven division: the register moves down by a byte, and what
/// falls out of it, together with the new byte, selects the remainder that comes in. The
/// remainder is the sum of those of the byte's eight bits.
pub proof fn law_a_byte_is_eight_steps_of_division(state: u32, byte: u8)
    ensures
        crc_byte(state, byte) == (state >> 8) ^ crc_byte(0, (state & 0xFF) as u8 ^ byte),
        crc_byte(0, byte) == bit_term(byte, 0, 0x77073096) ^ bit_term(byte, 1, 0xee0e612c) ^ bit_term(byte, 2, 0x76dc419) ^ bit_term(byte, 3, 0xedb8832) ^ bit_term(byte, 4, 0x1db71064) ^ bit_term(byte, 5, 0x3b6e20c8) ^ bit_term(byte, 6, 0x76dc4190) ^ bit_term(byte, 7, 0xedb88320),
{
    lemma_basis();
    let low = (state & 0xFF) as u8;
    let b = byte;
    let x = low ^ byte;
    assert(state ^ (b as u32) == ((state >> 8) << 8) ^ (((state & 0xFF) as u8 ^ b) as u32))
        by (bit_vector);
    lemma_bits_linear((state >> 8) << 8, x as u32, 8);
    lemma_moves_down(state >> 8, state);
    assert(0u32 ^ (x as u32) == x as u32) by (bit_vector);
    lemma_remainder(byte);
}

proof fn lemma_moves_down(upper: u32, state: u32)
    requires
        upper == state >> 8,
    ensures
        crc_bits(upper << 8, 8) == upper,
{
    reveal_with_fuel(crc_bits, 9);
    let u = upper;
    assert(state >> 8 == u ==> {
        &&& (u << 8) & 1 == 0
        &&& (u << 8) >> 1 == u << 7
        &&& (u << 7) & 1 == 0
        &&& (u << 7) >> 1 == u << 6
        &&& (u << 6) & 1 == 0
        &&& (u << 6) >> 1 == u << 5
        &&& (u << 5) & 1 == 0
        &&& (u << 5) >> 1 == u << 4
        &&& (u << 4) & 1 == 0
        &&& (u << 4) >> 1 == u << 3
        &&& (u << 3) & 1 == 0
        &&& (u << 3) >> 1 == u << 2
        &&& (u << 2) & 1 == 0
        &&& (u << 2) >> 1 == u << 1
        &&& (u << 1) & 1 == 0
        &&& (u << 1) >> 1 == u
    }) by (bit_vector);
}

proof fn lemma_basis()
    ensures
        crc_bits(0x1, 8) == 0x77073096,
        crc_bits(0x2, 8) == 0xee0e612c,
        crc_bits(0x4, 8) == 0x76dc419,
        crc_bits(0x8, 8) == 0xedb8832,
        crc_bits(0x10, 8) == 0x1db71064,
        crc_bits(0x20, 8) == 0x3b6e20c8,
        crc_bits(0x40, 8) == 0x76dc4190,
        crc_bits(0x80, 8) == 0xedb88320,
{
    reveal_with_fuel(crc_bits, 9);
    assert({
        &&& 0x80u32 & 1 != 1 && 0x80u32 >> 1 == 0x40u32
        &&& 0x40u32 & 1 != 1 && 0x40u32 >> 1 == 0x20u32
        &&& 0x20u32 & 1 != 1 && 0x20u32 >> 1 == 0x10u32
        &&& 0x10u32 & 1 != 1 && 0x10u32 >> 1 == 0x8u32
        &&& 0x8u32 & 1 != 1 && 0x8u32 >> 1 == 0x4u32
        &&& 0x4u32 & 1 != 1 && 0x4u32 >> 1 == 0x2u32
        &&& 0x2u32 & 1 != 1 && 0x2u32 >> 1 == 0x1u32
        &&& 0x1u32 & 1 == 1 && (0x1u32 >> 1) ^ 0xEDB8_8320u32 == 0xedb88320u32
        &&& 0xedb88320u32 & 1 != 1 && 0xedb88320u32 >> 1 == 0x76dc4190u32
        &&& 0x76dc4190u32 & 1 != 1 && 0x76dc4190u32 >> 1 == 0x3b6e20c8u32
        &&& 0x3b6e20c8u32 & 1 != 1 && 0x3b6e20c8u32 >> 1 == 0x1db71064u32
        &&& 0x1db71064u32 & 1 != 1 && 0x1db71064u32 >> 1 == 0xedb8832u32
        &&& 0xedb8832u32 & 1 != 1 && 0xedb8832u32 >> 1 == 0x76dc419u32
        &&& 0x76dc419u32 & 1 == 1 && (0x76dc419u32 >> 1) ^ 0xEDB8_8320u32 == 0xee0e612cu32
        &&& 0xee0e612cu32 & 1 != 1 && 0xee0e612cu32 >> 1 == 0x77073096u32
    }) by (bit_vector);
}

proof fn lemma_term(byte: u8, i: u8, unit: u32, term: u32)
    requires
        crc_bits(unit, 8) == term,
    ensures
        crc_bits(bit_term(byte, i, unit), 8) == bit_term(byte, i, term),
{
    lemma_zero(8);
}

proof fn lemma_zero(n: nat)
    ensures
        crc_bits(0, n) == 0,
    decreases n,
{
    if n > 0 {
        lemma_zero((n - 1) as nat);
        assert(0u32 & 1 == 0 && 0u32 >> 1 == 0) by (bit_vector);
    }
}

proof fn lemma_remainder(byte: u8)
    ensures
        crc_byte(0, byte) == bit_term(byte, 0, 0x77073096) ^ bit_term(byte, 1, 0xee0e612c) ^ bit_term(byte, 2, 0x76dc419) ^ bit_term(byte, 3, 0xedb8832) ^ bit_term(byte, 4, 0x1db71064) ^ bit_term(byte, 5, 0x3b6e20c8) ^ bit_term(byte, 6, 0x76dc4190) ^ bit_term(byte, 7, 0xedb88320),
{
    lemma_basis();
    lemma_term(byte, 0, 0x1, 0x77073096);
    lemma_term(byte, 1, 0x2, 0xee0e612c);
    lemma_term(byte, 2, 0x4, 0x76dc419);
    lemma_term(byte, 3, 0x8, 0xedb8832);
    lemma_term(byte, 4, 0x10, 0x1db71064);
    lemma_term(byte, 5, 0x20, 0x3b6e20c8);
    lemma_term(byte, 6, 0x40, 0x76dc4190);
    lemma_term(byte, 7, 0x80, 0xedb88320);
    let u0 = bit_term(byte, 0, 0x1);
    let u1 = bit_term(byte, 1, 0x2);
    let u2 = bit_term(byte, 2, 0x4);
    let u3 = bit_term(byte, 3, 0x8);
    let u4 = bit_term(byte, 4, 0x10);
    let u5 = bit_term(byte, 5, 0x20);
    let u6 = bit_term(byte, 6, 0x40);
    let u7 = bit_term(byte, 7, 0x80);
    lemma_bits_linear(u0, u1, 8);
    lemma_bits_linear(u0 ^ u1, u2, 8);
    lemma_bits_linear(u0 ^ u1 ^ u2, u3, 8);
    lemma_bits_linear(u0 ^ u1 ^ u2 ^ u3, u4, 8);
    lemma_bits_linear(u0 ^ u1 ^ u2 ^ u3 ^ u4, u5, 8);
    lemma_bits_linear(u0 ^ u1 ^ u2 ^ u3 ^ u4 ^ u5, u6, 8);
    lemma_bits_linear(u0 ^ u1 ^ u2 ^ u3 ^ u4 ^ u5 ^ u6, u7, 8);
    let b = byte;
    assert(0u32 ^ (b as u32) == (if (b >> 0u8) & 1 == 1 { 0x1u32 } else { 0u32 }) ^ (if (b >> 1u8) & 1 == 1 { 0x2u32 } else { 0u32 }) ^ (if (b >> 2u8) & 1 == 1 { 0x4u32 } else { 0u32 }) ^ (if (b >> 3u8) & 1 == 1 { 0x8u32 } else { 0u32 }) ^ (if (b >> 4u8) & 1 == 1 { 0x10u32 } else { 0u32 }) ^ (if (b >> 5u8) & 1 == 1 { 0x20u32 } else { 0u32 }) ^ (if (b >> 6u8) & 1 == 1 { 0x40u32 } else { 0u32 }) ^ (if (b >> 7u8) & 1 == 1 { 0x80u32 } else { 0u32 })) by (bit_vector);
}

/// A number in four bytes, the lowest first.
pub open spec fn four_bytes(n: u32) -> Seq<u8> {
    seq![
        (n & 0xFF) as u8,
        ((n >> 8) & 0xFF) as u8,
        ((n >> 16) & 0xFF) as u8,
        ((n >> 24) & 0xFF) as u8,
    ]
}

/// Four bytes are taken in as one number of 32 bits.
proof fn lemma_four_bytes(state: u32, n: u32)
    ensures
        crc_run(state, four_bytes(n)) == crc_bits(state ^ n, 32),
{
    reveal_with_fuel(crc_run, 5);
    let data = four_bytes(n);
    assert(data.drop_last().drop_last().drop_last().drop_last() =~= Seq::<u8>::empty());
    let n1 = n >> 8;
    let n2 = n >> 16;
    let n3 = n >> 24;
    let s1 = crc_byte(state, (n & 0xFF) as u8);
    let s2 = crc_byte(s1, (n1 & 0xFF) as u8);
    let s3 = crc_byte(s2, (n2 & 0xFF) as u8);
    lemma_rest(state, n);
    lemma_rest(s1, n1);
    lemma_rest(s2, n2);
    lemma_rest(s3, n3);
    assert(n1 >> 8 == n2 && n2 >> 8 == n3 && n3 >> 8 == 0) by (bit_vector)
        requires
            n1 == n >> 8,
            n2 == n >> 16,
            n3 == n >> 24,
    ;
    let s4 = crc_byte(s3, (n3 & 0xFF) as u8);
    assert(s4 ^ 0 == s4) by (bit_vector);
    lemma_bits_split(state ^ n, 8, 8);
    lemma_bits_split(state ^ n, 16, 8);
    lemma_bits_split(state ^ n, 24, 8);
}

/// A number enters with its lowest byte; the rest of it waits.
proof fn lemma_rest(state: u32, n: u32)
    ensures
        crc_bits(state ^ n, 8) == crc_byte(state, (n & 0xFF) as u8) ^ (n >> 8),
{
    assert(state ^ n == (state ^ ((n & 0xFF) as u8 as u32)) ^ ((n >> 8) << 8)) by (bit_vector);
    lemma_bits_linear(state ^ ((n & 0xFF) as u8 as u32), (n >> 8) << 8, 8);
    lemma_moves_down(n >> 8, n);
}

/// An image with its own CRC-32 behind it, the lowest byte first, always leaves the same
/// remainder.
pub proof fn law_the_crc_of_an_image_and_its_crc_is_fixed(data: Seq<u8>)
    ensures
        crc_of(data + four_bytes(crc_of(data))) == 0x2144_DF1C,
{
    let s = crc_run(0xFFFF_FFFF, data);
    lemma_crc_run_concat(0xFFFF_FFFF, data, four_bytes(!s));
    lemma_four_bytes(s, !s);
    assert(s ^ !s == 0xFFFF_FFFF) by (bit_vector);
    lemma_all_ones();
    assert(!0xdebb20e3u32 == 0x2144_DF1Cu32) by (bit_vector);
}

proof fn lemma_all_ones()
    ensures
        crc_bits(0xFFFF_FFFF, 32) == 0xdebb20e3,
{
    reveal_with_fuel(crc_bits, 33);
    assert({
        &&& 0xffffffffu32 & 1 == 1 && (0xffffffffu32 >> 1) ^ 0xEDB8_8320u32 == 0x92477cdfu32
        &&& 0x92477cdfu32 & 1 == 1 && (0x92477cdfu32 >> 1) ^ 0xEDB8_8320u32 == 0xa49b3d4fu32
        &&& 0xa49b3d4fu32 & 1 == 1 && (0xa49b3d4fu32 >> 1) ^ 0xEDB8_8320u32 == 0xbff51d87u32
        &&& 0xbff51d87u32 & 1 == 1 && (0xbff51d87u32 >> 1) ^ 0xEDB8_8320u32 == 0xb2420de3u32
        &&& 0xb2420de3u32 & 1 == 1 && (0xb2420de3u32 >> 1) ^ 0xEDB8_8320u32 == 0xb49985d1u32
        &&& 0xb49985d1u32 & 1 == 1 && (0xb49985d1u32 >> 1) ^ 0xEDB8_8320u32 == 0xb7f441c8u32
        &&& 0xb7f441c8u32 & 1 != 1 && 0xb7f441c8u32 >> 1 == 0x5bfa20e4u32
        &&& 0x5bfa20e4u32 & 1 != 1 && 0x5bfa20e4u32 >> 1 == 0x2dfd1072u32
        &&& 0x2dfd1072u32 & 1 != 1 && 0x2dfd1072u32 >> 1 == 0x16fe8839u32
        &&& 0x16fe8839u32 & 1 == 1 && (0x16fe8839u32 >> 1) ^ 0xEDB8_8320u32 == 0xe6c7c73cu32
        &&& 0xe6c7c73cu32 & 1 != 1 && 0xe6c7c73cu32 >> 1 == 0x7363e39eu32
        &&& 0x7363e39eu32 & 1 != 1 && 0x7363e39eu32 >> 1 == 0x39b1f1cfu32
        &&& 0x39b1f1cfu32 & 1 == 1 && (0x39b1f1cfu32 >> 1) ^ 0xEDB8_8320u32 == 0xf1607bc7u32
        &&& 0xf1607bc7u32 & 1 == 1 && (0xf1607bc7u32 >> 1) ^ 0xEDB8_8320u32 == 0x9508bec3u32
        &&& 0x9508bec3u32 & 1 == 1 && (0x9508bec3u32 >> 1) ^ 0xEDB8_8320u32 == 0xa73cdc41u32
        &&& 0xa73cdc41u32 & 1 == 1 && (0xa73cdc41u32 >> 1) ^ 0xEDB8_8320u32 == 0xbe26ed00u32
        &&& 0xbe26ed00u32 & 1 != 1 && 0xbe26ed00u32 >> 1 == 0x5f137680u32
        &&& 0x5f137680u32 & 1 != 1 && 0x5f137680u32 >> 1 == 0x2f89bb40u32
        &&& 0x2f89bb40u32 & 1 != 1 && 0x2f89bb40u32 >> 1 == 0x17c4dda0u32
        &&& 0x17c4dda0u32 & 1 != 1 && 0x17c4dda0u32 >> 1 == 0xbe26ed0u32
        &&& 0xbe26ed0u32 & 1 != 1 && 0xbe26ed0u32 >> 1 == 0x5f13768u32
        &&& 0x5f13768u32 & 1 != 1 && 0x5f13768u32 >> 1 == 0x2f89bb4u32
        &&& 0x2f89bb4u32 & 1 != 1 && 0x2f89bb4u32 >> 1 == 0x17c4ddau32
        &&& 0x17c4ddau32 & 1 != 1 && 0x17c4ddau32 >> 1 == 0xbe26edu32
        &&& 0xbe26edu32 & 1 == 1 && (0xbe26edu32 >> 1) ^ 0xEDB8_8320u32 == 0xede79056u32
        &&& 0xede79056u32 & 1 != 1 && 0xede79056u32 >> 1 == 0x76f3c82bu32
        &&& 0x76f3c82bu32 & 1 == 1 && (0x76f3c82bu32 >> 1) ^ 0xEDB8_8320u32 == 0xd6c16735u32
        &&& 0xd6c16735u32 & 1 == 1 && (0xd6c16735u32 >> 1) ^ 0xEDB8_8320u32 == 0x86d830bau32
        &&& 0x86d830bau32 & 1 != 1 && 0x86d830bau32 >> 1 == 0x436c185du32
        &&& 0x436c185du32 & 1 == 1 && (0x436c185du32 >> 1) ^ 0xEDB8_8320u32 == 0xcc0e8f0eu32
        &&& 0xcc0e8f0eu32 & 1 != 1 && 0xcc0e8f0eu32 >> 1 == 0x66074787u32
        &&& 0x66074787u32 & 1 == 1 && (0x66074787u32 >> 1) ^ 0xEDB8_8320u32 == 0xdebb20e3u32
    }) by (bit_vector);
}

/// The all-ones start stands for the complement of the first four bytes, so that leading
/// zeros count too; the result is complemented once more.
pub proof fn law_the_start_complements_the_first_four_bytes(n: u32, rest: Seq<u8>)
    ensures
        crc_of(four_bytes(n) + rest) == !crc_run(0, four_bytes(!n) + rest),
{
    lemma_crc_run_concat(0xFFFF_FFFF, four_bytes(n), rest);
    lemma_crc_run_concat(0, four_bytes(!n), rest);
    lemma_four_bytes(0xFFFF_FFFF, n);
    lemma_four_bytes(0, !n);
    assert(0xFFFF_FFFFu32 ^ n == 0u32 ^ !n) by (bit_vector);
}

} // verus!
