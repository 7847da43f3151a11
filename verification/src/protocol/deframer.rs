//! Cutting a byte stream into frames.

use vstd::prelude::*;
use crate::protocol::frame::{
    cobs_decode, frame_bytes, header_of, law_cobs_round_trip, uncobs, RynkHeader, RYNK_HEADER_SIZE,
};

verus! {

/// Bytes of a stream that are kept until their frame is complete.
pub const RYNK_BUFFER_SIZE: usize = 2304;

/// The position of the first delimiter, or the length where there is none.
pub open spec fn first_zero(s: Seq<u8>) -> int
    decreases s.len(),
{
    if s.len() == 0 || s[0] == 0 {
        0
    } else {
        1 + first_zero(s.drop_first())
    }
}

proof fn lemma_first_zero(s: Seq<u8>, k: int)
    requires
        0 <= k <= s.len(),
        forall|j: int| 0 <= j < k ==> s[j] != 0,
        k < s.len() ==> s[k] == 0,
    ensures
        first_zero(s) == k,
    decreases k,
{
    if k > 0 {
        let t = s.drop_first();
        assert forall|j: int| 0 <= j < k - 1 implies t[j] != 0 by {
            assert(s[j + 1] != 0);
        }
        lemma_first_zero(t, k - 1);
    }
}

pub proof fn lemma_first_zero_bounds(s: Seq<u8>)
    ensures
        0 <= first_zero(s) <= s.len(),
    decreases s.len(),
{
    if s.len() > 0 && s[0] != 0 {
        lemma_first_zero_bounds(s.drop_first());
    }
}

/// A body that is a whole message: it decodes, and has a header.
pub open spec fn message_in(body: Seq<u8>) -> Option<Seq<u8>> {
    match uncobs(body) {
        Some(m) => if m.len() >= RYNK_HEADER_SIZE {
            Some(m)
        } else {
            None
        },
        None => None,
    }
}

/// The first message of a stream and what follows it. Bodies that are none are
/// skipped; without a whole body nothing is taken.
pub open spec fn next_message(s: Seq<u8>) -> (Option<Seq<u8>>, Seq<u8>)
    decreases s.len(),
    via next_message_decreases
{
    let k = first_zero(s);
    if k >= s.len() {
        (None, s)
    } else {
        let rest = s.subrange(k + 1, s.len() as int);
        match message_in(s.subrange(0, k)) {
            Some(m) => (Some(m), rest),
            None => next_message(rest),
        }
    }
}

#[via_fn]
proof fn next_message_decreases(s: Seq<u8>) {
    lemma_first_zero_bounds(s);
}

/// Keeps the bytes of a stream until they make up a frame.
pub struct Deframer {
    buf: Vec<u8>,
}

impl Deframer {
    /// The bytes kept.
    pub closed spec fn kept(&self) -> Seq<u8> {
        self.buf@
    }

    pub open spec fn wf(&self) -> bool {
        self.kept().len() <= RYNK_BUFFER_SIZE
    }

    pub fn new() -> (r: Self)
        ensures
            r.wf(),
            r.kept() == Seq::<u8>::empty(),
    {
        Deframer { buf: Vec::new() }
    }

    /// Takes in bytes, as many as there is room for: a buffer that is full without
    /// a delimiter in it holds no frame, and is emptied first.
    pub fn commit(&mut self, data: &[u8]) -> (taken: usize)
        requires
            old(self).wf(),
        ensures
            final(self).wf(),
            ({
                let before = if old(self).kept().len() == RYNK_BUFFER_SIZE && first_zero(
                    old(self).kept(),
                ) == RYNK_BUFFER_SIZE {
                    Seq::empty()
                } else {
                    old(self).kept()
                };
                &&& taken == if data@.len() <= RYNK_BUFFER_SIZE - before.len() {
                    data@.len() as int
                } else {
                    RYNK_BUFFER_SIZE - before.len()
                }
                &&& final(self).kept() == before + data@.subrange(0, taken as int)
            }),
    {
        if self.buf.len() == RYNK_BUFFER_SIZE && self.find_zero() == RYNK_BUFFER_SIZE {
            self.buf = Vec::new();
        }
        let ghost before = self.buf@;
        let room: usize = RYNK_BUFFER_SIZE - self.buf.len();
        let taken: usize = if data.len() <= room {
            data.len()
        } else {
            room
        };
        let mut i: usize = 0;
        assert(self.buf@ =~= before + data@.subrange(0, 0));
        while i < taken
            invariant
                i <= taken,
                taken <= data@.len(),
                self.buf@ == before + data@.subrange(0, i as int),
            decreases taken - i,
        {
            self.buf.push(data[i]);
            i = i + 1;
            assert(self.buf@ =~= before + data@.subrange(0, i as int));
        }
        taken
    }

    fn find_zero(&self) -> (r: usize)
        ensures
            r == first_zero(self.buf@),
            r <= self.buf@.len(),
            r < self.buf@.len() ==> self.buf@[r as int] == 0,
    {
        let mut k: usize = 0;
        while k < self.buf.len() && self.buf[k] != 0
            invariant
                k <= self.buf@.len(),
                forall|j: int| 0 <= j < k ==> self.buf@[j] != 0,
            decreases self.buf@.len() - k,
        {
            k = k + 1;
        }
        proof {
            lemma_first_zero(self.buf@, k as int);
        }
        k
    }

    /// The next message, header and payload.
    pub fn next(&mut self) -> (r: Option<Vec<u8>>)
        requires
            old(self).wf(),
        ensures
            final(self).wf(),
            final(self).kept() == next_message(old(self).kept()).1,
            match r {
                Some(m) => next_message(old(self).kept()).0 == Some(m@) && m@.len()
                    >= RYNK_HEADER_SIZE,
                None => next_message(old(self).kept()).0 is None,
            },
    {
        loop
            invariant
                self.wf(),
                next_message(self.kept()) == next_message(old(self).kept()),
            decreases self.buf@.len(),
        {
            let k: usize = self.find_zero();
            let n: usize = self.buf.len();
            if k >= n {
                return None;
            }
            let rest = vstd::slice::slice_to_vec(
                vstd::slice::slice_subrange(self.buf.as_slice(), k + 1, n),
            );
            let body = vstd::slice::slice_subrange(self.buf.as_slice(), 0, k);
            let decoded = cobs_decode(body);
            self.buf = rest;
            if let Some(m) = decoded {
                if m.len() >= RYNK_HEADER_SIZE {
                    return Some(m);
                }
            }
        }
    }
}

// ---------------------------------------------------------------------------
// Laws
// ---------------------------------------------------------------------------

/// What was framed comes out again: the first message of a stream that starts
/// with a frame is that frame's, and what follows the frame is left.
pub proof fn law_a_frame_comes_out_as_it_went_in(
    header: RynkHeader,
    payload: Seq<u8>,
    rest: Seq<u8>,
)
    ensures
        next_message(frame_bytes(header, payload) + rest) == (
            Some(header.bytes() + payload),
            rest,
        ),
        header_of(header.bytes() + payload) == Some(header),
{
    let m = header.bytes() + payload;
    let body = crate::protocol::frame::cobs(m);
    let s = frame_bytes(header, payload) + rest;
    law_cobs_round_trip(m);
    let k = body.len() as int;
    assert forall|j: int| 0 <= j < k implies s[j] != 0 by {
        assert(s[j] == body[j]);
    }
    assert(s[k] == 0);
    lemma_first_zero(s, k);
    assert(s.subrange(0, k) =~= body);
    assert(s.subrange(k + 1, s.len() as int) =~= rest);
}

/// A frame that was cut short and then closed off by a delimiter does not swallow
/// the frame behind it.
pub proof fn law_a_closed_off_fragment_costs_nothing_more(
    fragment: Seq<u8>,
    header: RynkHeader,
    payload: Seq<u8>,
)
    requires
        forall|i: int| 0 <= i < fragment.len() ==> fragment[i] != 0,
        message_in(fragment) is None,
    ensures
        next_message(fragment + seq![0u8] + frame_bytes(header, payload)) == (
            Some(header.bytes() + payload),
            Seq::<u8>::empty(),
        ),
{
    let frame = frame_bytes(header, payload);
    let s = fragment + seq![0u8] + frame;
    let k = fragment.len() as int;
    assert forall|j: int| 0 <= j < k implies s[j] != 0 by {
        assert(s[j] == fragment[j]);
    }
    assert(s[k] == 0);
    lemma_first_zero(s, k);
    assert(s.subrange(0, k) =~= fragment);
    assert(s.subrange(k + 1, s.len() as int) =~= frame);
    law_a_frame_comes_out_as_it_went_in(header, payload, Seq::empty());
    assert(frame + Seq::<u8>::empty() =~= frame);
}

/// Nothing is taken from a stream without a delimiter, and what comes before the first delimiter
/// is a message or is skipped: it is never mixed with what follows.
pub proof fn law_a_delimiter_ends_a_body(body: Seq<u8>, rest: Seq<u8>)
    requires
        forall|i: int| 0 <= i < body.len() ==> body[i] != 0,
    ensures
        next_message(body) == (None::<Seq<u8>>, body),
        next_message(body + seq![0u8] + rest) == (match uncobs(body) {
            Some(m) => if m.len() >= 3 {
                (Some(m), rest)
            } else {
                next_message(rest)
            },
            None => next_message(rest),
        }),
{
    let s = body + seq![0u8] + rest;
    lemma_zero_place(body, body.len() as int);
    assert forall|i: int| 0 <= i < body.len() implies s[i] != 0 by {
        assert(s[i] == body[i]);
    }
    assert(s[body.len() as int] == 0);
    lemma_zero_place(s, body.len() as int);
    assert(s.subrange(0, body.len() as int) =~= body);
    assert(s.subrange(body.len() as int + 1, s.len() as int) =~= rest);
}

proof fn lemma_zero_place(s: Seq<u8>, k: int)
    requires
        0 <= k <= s.len(),
        forall|i: int| 0 <= i < k ==> s[i] != 0,
        k < s.len() ==> s[k] == 0,
    ensures
        first_zero(s) == k,
    decreases k,
{
    if k > 0 {
        let t = s.drop_first();
        assert forall|i: int| 0 <= i < k - 1 implies t[i] != 0 by {
            assert(t[i] == s[i + 1]);
        }
        lemma_zero_place(t, k - 1);
    }
}

} // verus!
