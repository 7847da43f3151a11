//! The dongle's USB session: a byte relay between the host and the keyboard.
//!
//! Frames cross unparsed. The relay reads a header only to answer `NotReady` on
//! the request's own command and number while no keyboard is connected.

use vstd::prelude::*;
use crate::bounded::{FrameHead, FRAME_HEAD_SIZE};
use crate::protocol::frame::{
    cobs, encode_frame, encode_result, frame_bytes, header_of,
    law_the_head_of_a_frame_names_its_request, lemma_cobs_len, result_payload, uncobs_start,
    RynkError, RynkHeader,
};

verus! {

/// What is to be done to the two byte queues of a router.
#[derive(Clone, Copy, Debug, PartialEq, Eq, Structural)]
pub enum QueueOp {
    /// Drop what waits for the keyboard.
    ClearToKeyboard,
    /// Drop what waits for the host.
    ClearToHost,
    /// Queue a bare delimiter for the host, if there is room.
    DelimitToHost,
}

/// Serves the USB interface of a dongle: what crosses to the keyboard, and what
/// is answered in its place.
pub struct DongleRouter {
    /// A keyboard is connected and takes what is queued for it.
    link_connected: bool,
    /// The first bytes of the frame in flight.
    head: FrameHead,
}

/// The first bytes of a frame body, as far as the router keeps them.
pub open spec fn kept(body: Seq<u8>) -> Seq<u8> {
    if body.len() <= FRAME_HEAD_SIZE {
        body
    } else {
        body.subrange(0, FRAME_HEAD_SIZE as int)
    }
}

/// A piece of what the host sent: it ends at a delimiter, or where the bytes end.
pub open spec fn piece_end(data: Seq<u8>, from: int) -> int
    decreases data.len() - from,
{
    if from >= data.len() {
        data.len() as int
    } else if data[from] == 0 {
        from + 1
    } else {
        piece_end(data, from + 1)
    }
}

/// Whether a piece ends a frame.
pub open spec fn ends_frame(piece: Seq<u8>) -> bool {
    piece.len() > 0 && piece.last() == 0
}

/// A piece without its delimiter.
pub open spec fn body_of(piece: Seq<u8>) -> Seq<u8> {
    if ends_frame(piece) {
        piece.drop_last()
    } else {
        piece
    }
}

/// The answer to a frame while no keyboard is there: a delimiter, which closes
/// off any partial frame in the stream, and `NotReady` on the request's header.
pub open spec fn absent_reply(header: RynkHeader) -> Seq<u8> {
    seq![0u8] + frame_bytes(header, result_payload(Err(RynkError::NotReady)))
}

impl DongleRouter {
    pub closed spec fn connected(&self) -> bool {
        self.link_connected
    }

    /// What is kept of the frame in flight.
    pub closed spec fn head(&self) -> Seq<u8> {
        self.head@
    }

    pub fn new() -> (r: Self)
        ensures
            !r.connected(),
            r.head() == Seq::<u8>::empty(),
    {
        DongleRouter { link_connected: false, head: FrameHead::new() }
    }

    /// The link relays from now on: open the path to the keyboard. What was
    /// queued before is dropped.
    pub fn link_up(&mut self) -> (r: Vec<QueueOp>)
        ensures
            final(self).connected(),
            final(self).head() == old(self).head(),
            r@ == seq![QueueOp::ClearToKeyboard],
    {
        self.link_connected = true;
        let mut ops: Vec<QueueOp> = Vec::new();
        ops.push(QueueOp::ClearToKeyboard);
        assert(ops@ =~= seq![QueueOp::ClearToKeyboard]);
        ops
    }

    /// The link dropped: fail waiting forwards and drop the queue, so a keyboard
    /// connecting later can't replay a stale request. The delimiter closes off
    /// whatever frame the link left half sent.
    pub fn link_down(&mut self) -> (r: Vec<QueueOp>)
        ensures
            !final(self).connected(),
            final(self).head() == old(self).head(),
            r@ == seq![QueueOp::ClearToKeyboard, QueueOp::DelimitToHost],
    {
        self.link_connected = false;
        let mut ops: Vec<QueueOp> = Vec::new();
        ops.push(QueueOp::ClearToKeyboard);
        ops.push(QueueOp::DelimitToHost);
        assert(ops@ =~= seq![QueueOp::ClearToKeyboard, QueueOp::DelimitToHost]);
        ops
    }

    /// A host session starts, with nothing queued and no frame in flight.
    pub fn run_session(&mut self) -> (r: Vec<QueueOp>)
        ensures
            final(self).connected() == old(self).connected(),
            final(self).head() == Seq::<u8>::empty(),
            r@ == seq![QueueOp::ClearToHost, QueueOp::ClearToKeyboard],
    {
        self.head.clear();
        let mut ops: Vec<QueueOp> = Vec::new();
        ops.push(QueueOp::ClearToHost);
        ops.push(QueueOp::ClearToKeyboard);
        assert(ops@ =~= seq![QueueOp::ClearToHost, QueueOp::ClearToKeyboard]);
        ops
    }

    /// Takes note of a piece before it is forwarded. Whether to forward it: only
    /// a live link takes what is queued.
    pub fn begin_piece(&mut self, piece: &[u8]) -> (forward: bool)
        requires
            old(self).head().len() <= FRAME_HEAD_SIZE,
        ensures
            forward == old(self).connected(),
            final(self).connected() == old(self).connected(),
            final(self).head() == kept(old(self).head() + body_of(piece@)),
            forall|body: Seq<u8>|
                old(self).head() == #[trigger] kept(body) ==> final(self).head() == kept(
                    body + body_of(piece@),
                ),
    {
        let n: usize = piece.len();
        let len: usize = if n > 0 && piece[n - 1] == 0 {
            n - 1
        } else {
            n
        };
        let body = vstd::slice::slice_subrange(piece, 0, len);
        assert(body@ =~= body_of(piece@));
        let room: usize = FRAME_HEAD_SIZE - self.head.as_slice().len();
        let take: usize = if len < room {
            len
        } else {
            room
        };
        let part = vstd::slice::slice_subrange(body, 0, take);
        let r = self.head.extend_from_slice(part);
        proof {
            let before = old(self).head();
            assert(r is Ok);
            assert(self.head() =~= kept(before + body@));
            assert forall|b: Seq<u8>| before == #[trigger] kept(b) implies self.head() == kept(
                b + body@,
            ) by {
                assert(self.head() =~= kept(b + body@));
            }
        }
        self.link_connected
    }

    /// Closes a piece once it was forwarded, or could not be. At the end of a
    /// frame that no keyboard takes, the answer for the host comes back: nothing
    /// takes what is queued while the keyboard is away, and the host has no
    /// timeout of its own. A bare delimiter carries no request to answer, and
    /// neither does a frame without a header.
    pub fn end_piece(&mut self, piece: &[u8]) -> (reply: Option<Vec<u8>>)
        ensures
            final(self).connected() == old(self).connected(),
            final(self).head() == if ends_frame(piece@) {
                Seq::empty()
            } else {
                old(self).head()
            },
            match reply {
                Some(bytes) => {
                    &&& ends_frame(piece@)
                    &&& !old(self).connected()
                    &&& header_of(uncobs_start(old(self).head())) matches Some(header) && bytes@
                        == absent_reply(header)
                },
                None => !ends_frame(piece@) || old(self).connected() || header_of(
                    uncobs_start(old(self).head()),
                ) is None,
            },
    {
        let n: usize = piece.len();
        if n == 0 || piece[n - 1] != 0 {
            return None;
        }
        let mut reply: Option<Vec<u8>> = None;
        let head = self.head.as_slice();
        if head.len() > 0 && !self.link_connected {
            if let Some(header) = RynkHeader::peek(head) {
                let payload = encode_result(Err(RynkError::NotReady));
                let frame = encode_frame(header, payload.as_slice());
                let mut bytes: Vec<u8> = Vec::new();
                bytes.push(0);
                let mut i: usize = 0;
                while i < frame.len()
                    invariant
                        i <= frame@.len(),
                        bytes@ == seq![0u8] + frame@.subrange(0, i as int),
                    decreases frame@.len() - i,
                {
                    bytes.push(frame[i]);
                    i = i + 1;
                    assert(bytes@ =~= seq![0u8] + frame@.subrange(0, i as int));
                }
                assert(frame@.subrange(0, i as int) =~= frame@);
                reply = Some(bytes);
            }
        } else if head.len() == 0 {
            assert(uncobs_start(head@).len() == 0);
        }
        self.head.clear();
        reply
    }
}

/// Where the piece that starts at `from` ends.
pub fn next_piece(data: &[u8], from: usize) -> (end: usize)
    requires
        from < data@.len(),
    ensures
        end == piece_end(data@, from as int),
        from < end <= data@.len(),
        forall|i: int| from <= i < end - 1 ==> data@[i] != 0,
        end < data@.len() ==> data@[end - 1] == 0,
{
    let mut i: usize = from;
    while i < data.len() && data[i] != 0
        invariant
            from <= i <= data@.len(),
            forall|j: int| from <= j < i ==> data@[j] != 0,
            piece_end(data@, from as int) == piece_end(data@, i as int),
        decreases data@.len() - i,
    {
        i = i + 1;
    }
    if i < data.len() {
        i + 1
    } else {
        i
    }
}

/// How a notification of the keyboard reached the host's queue.
///
/// `written` is how many of its `len` bytes were queued, `None` where none fit.
/// Where some are missing, what got through is terminated, so that the truncated
/// frame fails on its own rather than gluing to the next.
pub fn must_delimit(written: Option<usize>, len: usize) -> (r: bool)
    ensures
        r == (written != Some(len)),
{
    match written {
        Some(n) => n != len,
        None => true,
    }
}

// ---------------------------------------------------------------------------
// Laws
// ---------------------------------------------------------------------------

/// The pieces of a reading, from `from` on, one after the other.
pub open spec fn pieces(data: Seq<u8>, from: int) -> Seq<Seq<u8>>
    decreases data.len() - from,
{
    if from < 0 || from >= data.len() || !(from < piece_end(data, from) <= data.len()) {
        Seq::empty()
    } else {
        let end = piece_end(data, from);
        seq![data.subrange(from, end)] + pieces(data, end)
    }
}

pub open spec fn joined(parts: Seq<Seq<u8>>) -> Seq<u8>
    decreases parts.len(),
{
    if parts.len() == 0 {
        Seq::empty()
    } else {
        parts[0] + joined(parts.drop_first())
    }
}

proof fn lemma_piece_end(data: Seq<u8>, from: int)
    requires
        0 <= from < data.len(),
    ensures
        from < piece_end(data, from) <= data.len(),
        forall|i: int| from <= i < piece_end(data, from) - 1 ==> data[i] != 0,
    decreases data.len() - from,
{
    reveal_with_fuel(piece_end, 2);
    if data[from] != 0 && from + 1 < data.len() {
        lemma_piece_end(data, from + 1);
    }
}

/// What the host sends crosses byte for byte: the pieces of a reading, put
/// together again, are the reading. Each holds at most one delimiter, at its end.
pub proof fn law_pieces_are_the_bytes(data: Seq<u8>, from: int)
    requires
        0 <= from <= data.len(),
    ensures
        joined(pieces(data, from)) == data.subrange(from, data.len() as int),
        forall|k: int, i: int|
            0 <= k < pieces(data, from).len() && 0 <= i < (#[trigger] pieces(data, from)[k]).len()
                - 1 ==> #[trigger] pieces(data, from)[k][i] != 0,
    decreases data.len() - from,
{
    if from < data.len() {
        lemma_piece_end(data, from);
        let end = piece_end(data, from);
        law_pieces_are_the_bytes(data, end);
        let p = pieces(data, from);
        let rest = pieces(data, end);
        assert(p.drop_first() =~= rest);
        assert(data.subrange(from, end) + data.subrange(end, data.len() as int) =~= data.subrange(
            from,
            data.len() as int,
        ));
        assert forall|k: int, i: int|
            0 <= k < p.len() && 0 <= i < (#[trigger] p[k]).len() - 1 implies #[trigger] p[k][i]
            != 0 by {
            if k > 0 {
                assert(p[k] == rest[k - 1]);
                assert(rest[k - 1][i] != 0);
            } else {
                assert(p[0] == data.subrange(from, end));
                assert(data[from + i] != 0);
            }
        }
    } else {
        assert(data.subrange(from, data.len() as int) =~= Seq::<u8>::empty());
    }
}

/// However a request was cut into readings, what the router keeps of it names its
/// header: an absent keyboard is answered for on the request's own command and
/// number.
pub proof fn law_an_absent_keyboard_is_answered_for(header: RynkHeader, payload: Seq<u8>)
    ensures
        header_of(uncobs_start(kept(cobs(header.bytes() + payload)))) == Some(header),
{
    let body = cobs(header.bytes() + payload);
    lemma_cobs_len(header.bytes() + payload);
    let m = if body.len() <= FRAME_HEAD_SIZE {
        body.len() as int
    } else {
        FRAME_HEAD_SIZE as int
    };
    assert(kept(body) =~= body.subrange(0, m));
    assert(m >= 4);
    law_the_head_of_a_frame_names_its_request(header, payload, m);
}

/// The answer for an absent keyboard is one message, whatever the host held half of before: the
/// request's own header, and that the keyboard is not ready.
pub proof fn law_the_answer_for_an_absent_keyboard_is_one_message(header: RynkHeader)
    ensures
        crate::protocol::deframer::next_message(absent_reply(header)) == (
            Some(header.bytes() + seq![1u8, 2u8]),
            Seq::<u8>::empty(),
        ),
{
    let fragment = Seq::<u8>::empty();
    crate::protocol::deframer::law_a_closed_off_fragment_costs_nothing_more(
        fragment,
        header,
        seq![1u8, 2u8],
    );
    assert(fragment + seq![0u8] + frame_bytes(header, seq![1u8, 2u8]) =~= absent_reply(header));
}

/// Of a frame in flight its first eight bytes are kept, however it comes in.
pub proof fn law_the_first_eight_bytes_are_kept(body: Seq<u8>, more: Seq<u8>, i: int)
    ensures
        kept(body).len() == (if body.len() <= 8 {
            body.len() as int
        } else {
            8
        }),
        0 <= i < kept(body).len() ==> kept(body)[i] == body[i],
        kept(kept(body) + more) == kept(body + more),
{
    assert(kept(kept(body) + more) =~= kept(body + more));
}

/// A piece ends right behind its first delimiter, or with the bytes.
pub proof fn law_a_piece_ends_behind_a_delimiter(data: Seq<u8>, from: int, k: int)
    requires
        0 <= from <= k <= data.len(),
        forall|i: int| from <= i < k ==> data[i] != 0,
        k < data.len() ==> data[k] == 0,
    ensures
        piece_end(data, from) == (if k < data.len() {
            k + 1
        } else {
            k
        }),
        body_of(data.subrange(from, piece_end(data, from))) == data.subrange(from, k),
    decreases k - from,
{
    if from < k {
        law_a_piece_ends_behind_a_delimiter(data, from + 1, k);
    }
    let piece = data.subrange(from, piece_end(data, from));
    if k < data.len() {
        assert(piece.last() == 0);
        assert(piece.drop_last() =~= data.subrange(from, k));
    } else if piece.len() > 0 {
        assert(piece.last() == data[k - 1]);
    }
}

/// Only a frame that was written whole needs no delimiter behind it.
pub proof fn law_what_was_cut_short_is_delimited(written: Option<usize>, len: usize, r: bool)
    requires
        must_delimit.ensures((written, len), r),
    ensures
        written is None ==> r,
        written matches Some(n) ==> (n < len || n > len ==> r) && (n == len ==> !r),
{
}

} // verus!
