//! Frames: a three-byte header and a payload, COBS-encoded and ended by a zero.
//!
//! COBS replaces every zero of a message by the distance to the next one, so that
//! the only zero on the wire is the delimiter.

use vstd::prelude::*;

verus! {

/// Bytes of a header.
pub const RYNK_HEADER_SIZE: usize = 3;

/// Largest write or notification on a frame characteristic.
pub const RYNK_BLE_CHUNK_SIZE: usize = 244;

/// What a frame is about: the command, and the number that ties a reply to its
/// request.
#[derive(Clone, Copy, Debug, PartialEq, Eq, Structural)]
pub struct RynkHeader {
    pub cmd: u16,
    pub seq: u8,
}

/// Why a request was turned down.
#[derive(Clone, Copy, Debug, PartialEq, Eq, Structural)]
pub enum RynkError {
    UnknownCmd,
    Internal,
    NotReady,
}

impl RynkError {
    pub open spec fn spec_code(self) -> u8 {
        match self {
            RynkError::UnknownCmd => 0,
            RynkError::Internal => 1,
            RynkError::NotReady => 2,
        }
    }

    /// The error's number on the wire.
    pub fn code(self) -> (r: u8)
        ensures
            r == self.spec_code(),
    {
        match self {
            RynkError::UnknownCmd => 0,
            RynkError::Internal => 1,
            RynkError::NotReady => 2,
        }
    }
}

impl RynkHeader {
    /// The header's bytes: the command, low byte first, and the number.
    pub open spec fn bytes(self) -> Seq<u8> {
        seq![(self.cmd % 256) as u8, (self.cmd / 256) as u8, self.seq]
    }
}

/// The header that a message starts with.
pub open spec fn header_of(message: Seq<u8>) -> Option<RynkHeader> {
    if message.len() >= RYNK_HEADER_SIZE {
        Some(RynkHeader { cmd: (message[0] + 256 * message[1]) as u16, seq: message[2] })
    } else {
        None
    }
}

/// The payload of an answer without data: whether the request succeeded.
pub open spec fn result_payload(result: Result<(), RynkError>) -> Seq<u8> {
    match result {
        Ok(()) => seq![0u8],
        Err(e) => seq![1u8, e.spec_code()],
    }
}

pub fn encode_result(result: Result<(), RynkError>) -> (r: Vec<u8>)
    ensures
        r@ == result_payload(result),
{
    let mut out: Vec<u8> = Vec::new();
    match result {
        Ok(()) => {
            out.push(0);
        },
        Err(e) => {
            out.push(1);
            out.push(e.code());
        },
    }
    assert(out@ =~= result_payload(result));
    out
}

// ---------------------------------------------------------------------------
// COBS
// ---------------------------------------------------------------------------

/// Bytes at the start of `data` that are not zero, up to 254.
pub open spec fn run_len(data: Seq<u8>, limit: nat) -> nat
    decreases limit,
{
    if limit == 0 || data.len() == 0 || data[0] == 0 {
        0
    } else {
        1 + run_len(data.drop_first(), (limit - 1) as nat)
    }
}

proof fn lemma_run_len(data: Seq<u8>, limit: nat)
    ensures
        run_len(data, limit) <= limit,
        run_len(data, limit) <= data.len(),
        forall|i: int| 0 <= i < run_len(data, limit) ==> data[i] != 0,
        run_len(data, limit) < limit && run_len(data, limit) < data.len() ==> data[run_len(
            data,
            limit,
        ) as int] == 0,
    decreases limit,
{
    if limit == 0 || data.len() == 0 || data[0] == 0 {
    } else {
        let t = data.drop_first();
        lemma_run_len(t, (limit - 1) as nat);
        assert forall|i: int| 0 <= i < run_len(data, limit) implies data[i] != 0 by {
            if i > 0 {
                assert(t[i - 1] != 0);
            }
        }
    }
}

proof fn lemma_run_len_is(data: Seq<u8>, limit: nat, k: nat)
    requires
        k <= limit,
        k <= data.len(),
        forall|i: int| 0 <= i < k ==> data[i] != 0,
        k == limit || k == data.len() || data[k as int] == 0,
    ensures
        run_len(data, limit) == k,
    decreases k,
{
    if k > 0 {
        let t = data.drop_first();
        assert forall|i: int| 0 <= i < k - 1 implies t[i] != 0 by {
            assert(data[i + 1] != 0);
        }
        lemma_run_len_is(t, (limit - 1) as nat, (k - 1) as nat);
    }
}

/// The COBS encoding of a message, without the delimiter.
pub open spec fn cobs(data: Seq<u8>) -> Seq<u8>
    decreases data.len(),
    via cobs_decreases
{
    let k = run_len(data, 254) as int;
    let block = seq![(k + 1) as u8] + data.subrange(0, k);
    if k >= data.len() {
        block
    } else if k == 254 {
        block + cobs(data.subrange(k, data.len() as int))
    } else {
        block + cobs(data.subrange(k + 1, data.len() as int))
    }
}

#[via_fn]
proof fn cobs_decreases(data: Seq<u8>) {
    lemma_run_len(data, 254);
}

/// The message of a COBS encoding, if it is one.
pub open spec fn uncobs(s: Seq<u8>) -> Option<Seq<u8>>
    decreases s.len(),
{
    if s.len() == 0 || s[0] == 0 || s.len() < s[0] {
        None
    } else {
        let code = s[0] as int;
        let block = s.subrange(1, code);
        let rest = s.subrange(code, s.len() as int);
        if rest.len() == 0 {
            Some(block)
        } else {
            match uncobs(rest) {
                None => None,
                Some(more) => if code < 255 {
                    Some(block + seq![0u8] + more)
                } else {
                    Some(block + more)
                },
            }
        }
    }
}

/// What can be told of a message from the start of its encoding.
pub open spec fn uncobs_start(s: Seq<u8>) -> Seq<u8>
    decreases s.len(),
{
    if s.len() == 0 || s[0] == 0 {
        Seq::empty()
    } else if s.len() <= s[0] {
        s.subrange(1, s.len() as int)
    } else {
        let code = s[0] as int;
        let block = s.subrange(1, code);
        let more = uncobs_start(s.subrange(code, s.len() as int));
        if code < 255 {
            block + seq![0u8] + more
        } else {
            block + more
        }
    }
}

fn encode_block(out: &mut Vec<u8>, data: &[u8], from: usize) -> (k: usize)
    requires
        from <= data@.len(),
    ensures
        k == run_len(data@.subrange(from as int, data@.len() as int), 254),
        k <= 254,
        from + k <= data@.len(),
        final(out)@ == old(out)@ + (seq![(k + 1) as u8] + data@.subrange(
            from as int,
            from + k,
        )),
{
    let n: usize = data.len();
    let ghost tail = data@.subrange(from as int, n as int);
    let mut k: usize = 0;
    while k < 254 && from + k < n && data[from + k] != 0
        invariant
            n == data@.len(),
            from + k <= n,
            k <= 254,
            tail == data@.subrange(from as int, n as int),
            forall|i: int| 0 <= i < k ==> tail[i] != 0,
        decreases 254 - k,
    {
        assert(tail[k as int] == data@[from + k]);
        k = k + 1;
    }
    proof {
        if from + k < n {
            assert(tail[k as int] == data@[from + k]);
        }
        lemma_run_len_is(tail, 254, k as nat);
    }
    out.push((k + 1) as u8);
    let mut i: usize = 0;
    while i < k
        invariant
            i <= k,
            k <= 254,
            n == data@.len(),
            from + k <= n,
            out@ == old(out)@ + (seq![(k + 1) as u8] + data@.subrange(from as int, from + i)),
        decreases k - i,
    {
        out.push(data[from + i]);
        i = i + 1;
        assert(out@ =~= old(out)@ + (seq![(k + 1) as u8] + data@.subrange(from as int, from + i)));
    }
    k
}

/// The COBS encoding of `data`, without the delimiter.
pub fn cobs_encode(data: &[u8]) -> (r: Vec<u8>)
    ensures
        r@ == cobs(data@),
{
    let mut out: Vec<u8> = Vec::new();
    let mut from: usize = 0;
    let n: usize = data.len();
    assert(data@.subrange(0, n as int) =~= data@);
    let mut done: bool = false;
    while !done
        invariant
            n == data@.len(),
            from <= n,
            !done ==> cobs(data@) == out@ + cobs(data@.subrange(from as int, n as int)),
            done ==> cobs(data@) == out@,
        decreases n - from + if done { 0int } else { 1int },
    {
        let ghost before = out@;
        let ghost tail = data@.subrange(from as int, n as int);
        let k: usize = encode_block(&mut out, data, from);
        proof {
            lemma_run_len(tail, 254);
            assert(tail.subrange(0, k as int) =~= data@.subrange(from as int, from + k));
        }
        let ghost block = seq![(k + 1) as u8] + tail.subrange(0, k as int);
        assert(out@ == before + block);
        if from + k >= n {
            done = true;
            assert(cobs(tail) == block);
        } else if k == 254 {
            proof {
                let rest = tail.subrange(k as int, tail.len() as int);
                assert(rest =~= data@.subrange(from + k, n as int));
                assert(cobs(tail) == block + cobs(rest));
                assert(before + (block + cobs(rest)) =~= out@ + cobs(rest));
            }
            from = from + k;
        } else {
            proof {
                let rest = tail.subrange(k + 1, tail.len() as int);
                assert(rest =~= data@.subrange(from + k + 1, n as int));
                assert(cobs(tail) == block + cobs(rest));
                assert(before + (block + cobs(rest)) =~= out@ + cobs(rest));
            }
            from = from + k + 1;
        }
    }
    out
}

/// The message of a frame body (the bytes before a delimiter), if it is one.
pub fn cobs_decode(s: &[u8]) -> (r: Option<Vec<u8>>)
    ensures
        match r {
            Some(message) => uncobs(s@) == Some(message@),
            None => uncobs(s@) is None,
        },
{
    let n: usize = s.len();
    let mut out: Vec<u8> = Vec::new();
    let mut at: usize = 0;
    assert(s@.subrange(0, n as int) =~= s@);
    loop
        invariant
            n == s@.len(),
            at <= n,
            match uncobs(s@.subrange(at as int, n as int)) {
                Some(more) => uncobs(s@) == Some(out@ + more),
                None => uncobs(s@) is None,
            },
        decreases n - at,
    {
        let ghost tail = s@.subrange(at as int, n as int);
        if at >= n {
            return None;
        }
        let code: usize = s[at] as usize;
        assert(tail[0] == code);
        if code == 0 || n - at < code {
            return None;
        }
        let ghost before = out@;
        let mut i: usize = 1;
        while i < code
            invariant
                n == s@.len(),
                1 <= i <= code,
                code <= n - at,
                at <= n,
                out@ == before + s@.subrange(at + 1, at + i),
            decreases code - i,
        {
            out.push(s[at + i]);
            i = i + 1;
            assert(out@ =~= before + s@.subrange(at + 1, at + i));
        }
        let ghost block = tail.subrange(1, code as int);
        let ghost rest = tail.subrange(code as int, tail.len() as int);
        assert(block =~= s@.subrange(at + 1, at + code));
        assert(rest =~= s@.subrange(at + code, n as int));
        if at + code == n {
            assert(rest.len() == 0);
            return Some(out);
        }
        if code < 255 {
            out.push(0);
            assert(out@ =~= before + (block + seq![0u8]));
        }
        proof {
            if let Some(more) = uncobs(rest) {
                if code < 255 {
                    assert(before + (block + seq![0u8] + more) =~= out@ + more);
                } else {
                    assert(before + (block + more) =~= out@ + more);
                }
            }
        }
        at = at + code;
    }
}

/// What can be told of a message from the start of its encoding.
pub fn cobs_decode_start(s: &[u8]) -> (r: Vec<u8>)
    ensures
        r@ == uncobs_start(s@),
{
    let n: usize = s.len();
    let mut out: Vec<u8> = Vec::new();
    let mut at: usize = 0;
    assert(s@.subrange(0, n as int) =~= s@);
    let mut done: bool = false;
    while !done
        invariant
            n == s@.len(),
            at <= n,
            !done ==> uncobs_start(s@) == out@ + uncobs_start(s@.subrange(at as int, n as int)),
            done ==> uncobs_start(s@) == out@,
        decreases n - at + if done { 0int } else { 1int },
    {
        let ghost tail = s@.subrange(at as int, n as int);
        let ghost before = out@;
        if at >= n || s[at] == 0 {
            done = true;
            assert(uncobs_start(tail) =~= Seq::<u8>::empty());
            assert(before + Seq::<u8>::empty() =~= before);
        } else {
            let code: usize = s[at] as usize;
            assert(tail[0] == code);
            let end: usize = if n - at <= code {
                n
            } else {
                at + code
            };
            let mut i: usize = at + 1;
            while i < end
                invariant
                    n == s@.len(),
                    at + 1 <= i <= end,
                    end <= n,
                    out@ == before + s@.subrange(at + 1, i as int),
                decreases end - i,
            {
                out.push(s[i]);
                i = i + 1;
                assert(out@ =~= before + s@.subrange(at + 1, i as int));
            }
            if n - at <= code {
                done = true;
                assert(tail.subrange(1, tail.len() as int) =~= s@.subrange(at + 1, end as int));
            } else {
                let ghost block = tail.subrange(1, code as int);
                let ghost rest = tail.subrange(code as int, tail.len() as int);
                assert(block =~= s@.subrange(at + 1, end as int));
                assert(rest =~= s@.subrange(at + code, n as int));
                if code < 255 {
                    out.push(0);
                    assert(before + (block + seq![0u8] + uncobs_start(rest)) =~= out@
                        + uncobs_start(rest));
                } else {
                    assert(before + (block + uncobs_start(rest)) =~= out@ + uncobs_start(rest));
                }
                at = at + code;
            }
        }
    }
    out
}

// ---------------------------------------------------------------------------
// Frames
// ---------------------------------------------------------------------------

/// The bytes of a frame, delimiter and all.
pub open spec fn frame_bytes(header: RynkHeader, payload: Seq<u8>) -> Seq<u8> {
    cobs(header.bytes() + payload).push(0)
}

/// Encodes a frame.
pub fn encode_frame(header: RynkHeader, payload: &[u8]) -> (r: Vec<u8>)
    ensures
        r@ == frame_bytes(header, payload@),
{
    let mut message: Vec<u8> = Vec::new();
    message.push((header.cmd % 256) as u8);
    message.push((header.cmd / 256) as u8);
    message.push(header.seq);
    let mut i: usize = 0;
    assert(message@ =~= header.bytes() + payload@.subrange(0, 0));
    while i < payload.len()
        invariant
            i <= payload@.len(),
            message@ == header.bytes() + payload@.subrange(0, i as int),
        decreases payload@.len() - i,
    {
        message.push(payload[i]);
        i = i + 1;
        assert(message@ =~= header.bytes() + payload@.subrange(0, i as int));
    }
    assert(payload@.subrange(0, i as int) =~= payload@);
    let mut out = cobs_encode(message.as_slice());
    out.push(0);
    out
}

impl RynkHeader {
    /// The header that a decoded message starts with.
    pub fn parse(message: &[u8]) -> (r: Option<RynkHeader>)
        ensures
            r == header_of(message@),
    {
        if message.len() < RYNK_HEADER_SIZE {
            return None;
        }
        let cmd: u16 = message[0] as u16 + 256 * (message[1] as u16);
        Some(RynkHeader { cmd, seq: message[2] })
    }

    /// The header of a frame, from the first bytes of its encoding.
    pub fn peek(head: &[u8]) -> (r: Option<RynkHeader>)
        ensures
            r == header_of(uncobs_start(head@)),
    {
        let start = cobs_decode_start(head);
        RynkHeader::parse(start.as_slice())
    }
}

// ---------------------------------------------------------------------------
// Laws
// ---------------------------------------------------------------------------

/// An encoded message holds no delimiter, and decodes to the message.
pub proof fn law_cobs_round_trip(data: Seq<u8>)
    ensures
        uncobs(cobs(data)) == Some(data),
        forall|i: int| 0 <= i < cobs(data).len() ==> cobs(data)[i] != 0,
        cobs(data).len() >= 1,
    decreases data.len(),
{
    lemma_run_len(data, 254);
    let k = run_len(data, 254) as int;
    let code = (k + 1) as u8;
    let block = seq![code] + data.subrange(0, k);
    let s = cobs(data);
    assert(s[0] == code);
    if k >= data.len() {
        assert(s.subrange(1, k + 1) =~= data);
        assert forall|i: int| 0 <= i < s.len() implies s[i] != 0 by {
            if i > 0 {
                assert(s[i] == data[i - 1]);
            }
        }
    } else {
        let rest = if k == 254 {
            data.subrange(k, data.len() as int)
        } else {
            data.subrange(k + 1, data.len() as int)
        };
        law_cobs_round_trip(rest);
        assert(s == block + cobs(rest));
        assert(s.subrange(1, k + 1) =~= data.subrange(0, k));
        assert(s.subrange(k + 1, s.len() as int) =~= cobs(rest));
        if k == 254 {
            assert(data.subrange(0, k) + rest =~= data);
        } else {
            assert(data.subrange(0, k) + seq![0u8] + rest =~= data);
        }
        assert forall|i: int| 0 <= i < s.len() implies s[i] != 0 by {
            if i > k {
                assert(s[i] == cobs(rest)[i - k - 1]);
            } else if i > 0 {
                assert(s[i] == data[i - 1]);
            }
        }
    }
}

/// The first `m` bytes of an encoding tell the first `m - 1` bytes of the
/// message.
pub proof fn law_a_start_tells_the_start(data: Seq<u8>, m: int)
    requires
        1 <= m <= 255,
        m <= cobs(data).len(),
    ensures
        m - 1 <= data.len(),
        uncobs_start(cobs(data).subrange(0, m)) == data.subrange(0, m - 1),
    decreases data.len(),
{
    lemma_run_len(data, 254);
    let k = run_len(data, 254) as int;
    let code = (k + 1) as u8;
    let block = seq![code] + data.subrange(0, k);
    let s = cobs(data);
    let p = s.subrange(0, m);
    assert(s[0] == code);
    assert(p[0] == code);
    if m <= k + 1 {
        assert(p.subrange(1, m) =~= data.subrange(0, m - 1));
        assert(uncobs_start(p) == p.subrange(1, p.len() as int));
    } else {
        assert(k < data.len());
        let rest = if k == 254 {
            data.subrange(k, data.len() as int)
        } else {
            data.subrange(k + 1, data.len() as int)
        };
        assert(s == block + cobs(rest));
        let m2 = m - k - 1;
        law_a_start_tells_the_start(rest, m2);
        assert(p.subrange(1, k + 1) =~= data.subrange(0, k));
        assert(p.subrange(k + 1, m) =~= cobs(rest).subrange(0, m2));
        assert(code < 255);
        assert(data.subrange(0, k) + seq![0u8] + rest.subrange(0, m2 - 1) =~= data.subrange(
            0,
            m - 1,
        ));
    }
}

/// A frame's first eight bytes, or all of it where it is shorter, name its
/// request.
pub proof fn law_the_head_of_a_frame_names_its_request(header: RynkHeader, payload: Seq<u8>, m: int)
    requires
        4 <= m <= 255,
        m <= cobs(header.bytes() + payload).len(),
    ensures
        header_of(uncobs_start(cobs(header.bytes() + payload).subrange(0, m))) == Some(header),
{
    law_a_start_tells_the_start(header.bytes() + payload, m);
    let d = header.bytes() + payload;
    assert(d.subrange(0, m - 1)[0] == (header.cmd % 256) as u8);
    assert(d.subrange(0, m - 1)[1] == (header.cmd / 256) as u8);
    assert(d.subrange(0, m - 1)[2] == header.seq);
}

/// A frame body is longer than a header.
pub proof fn lemma_cobs_len(data: Seq<u8>)
    ensures
        cobs(data).len() >= data.len(),
        data.len() <= 253 ==> cobs(data).len() == data.len() + 1,
    decreases data.len(),
{
    lemma_run_len(data, 254);
    let k = run_len(data, 254) as int;
    if k < data.len() {
        if k == 254 {
            lemma_cobs_len(data.subrange(k, data.len() as int));
        } else {
            lemma_cobs_len(data.subrange(k + 1, data.len() as int));
        }
    }
}

/// A header is the command's number, low byte first, and the number of the request.
pub proof fn law_a_header_is_read_from_three_bytes(message: Seq<u8>, header: RynkHeader)
    ensures
        header_of(message) is Some <==> message.len() >= 3,
        header_of(message) matches Some(h) ==> h.cmd == message[0] + 256 * message[1] && h.seq
            == message[2],
        header.bytes().len() == 3,
        header.bytes()[0] + 256 * header.bytes()[1] == header.cmd,
        header.bytes()[2] == header.seq,
{
}

/// An answer without data tells success by a single zero, and a failure by a one and the number
/// of its reason, which tells the reasons apart.
pub proof fn law_an_answer_tells_success_or_the_reason(
    r: Result<(), RynkError>,
    a: RynkError,
    b: RynkError,
)
    ensures
        r is Ok <==> result_payload(r)[0] == 0,
        r is Ok ==> result_payload(r).len() == 1,
        r is Err ==> result_payload(r).len() == 2 && result_payload(r)[0] == 1 && result_payload(
            r,
        )[1] == r->Err_0.spec_code(),
        a.spec_code() == b.spec_code() ==> a == b,
        a is UnknownCmd <==> a.spec_code() == 0,
        a is Internal <==> a.spec_code() == 1,
        a is NotReady <==> a.spec_code() == 2,
{
}

} // verus!
