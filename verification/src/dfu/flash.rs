//! The flash side of a firmware update: where chunks go, what is erased for them,
//! what is read back, and when an image may be started.

use vstd::prelude::*;
use crate::crc32::{crc_of, Crc32};
use crate::dfu::{DfuCmd, DfuTarget};
use crate::types::DfuStatus;

verus! {

/// Bytes read back at a time.
pub const READ_BACK_SIZE: u32 = 256;

// ---------------------------------------------------------------------------
// Writing chunks
// ---------------------------------------------------------------------------

/// An operation on the DFU partition.
#[derive(Clone, Copy, Debug, PartialEq, Eq, Structural)]
pub enum FlashOp {
    /// Erase the bytes from `from` up to `to`.
    Erase { from: u32, to: u32 },
    /// Write the chunk's bytes at `offset`.
    Write { offset: u32 },
}

/// A chunk on its way into the flash. Its pages up to `end_page` are dealt with
/// one after the other, from `next_page` on; then it is written.
#[derive(Clone, Copy, Debug, PartialEq, Eq, Structural)]
pub struct ChunkWrite {
    pub offset: u32,
    pub len: u32,
    pub next_page: u32,
    pub end_page: u32,
}

/// What a chunk calls for.
#[derive(Clone, Copy, Debug, PartialEq, Eq, Structural)]
pub enum ChunkPlan {
    /// Nothing to write.
    Nothing,
    /// Offset or length do not fit the flash's write size.
    Unaligned,
    /// Erase and write.
    Write(ChunkWrite),
}

/// The first page from `from` up to `end` that is none of `pages`; the one after `end`
/// where all of them are.
pub open spec fn first_left(pages: Set<u32>, from: int, end: int) -> int
    decreases end + 1 - from,
{
    if from > end || !pages.contains(from as u32) {
        from
    } else {
        first_left(pages, from + 1, end)
    }
}

proof fn lemma_first_left(pages: Set<u32>, from: int, end: int)
    requires
        0 <= from <= end + 1,
        end < u32::MAX,
    ensures
        from <= first_left(pages, from, end) <= end + 1,
        forall|p: u32| from <= p < first_left(pages, from, end) ==> pages.contains(p),
        first_left(pages, from, end) <= end ==> !pages.contains(
            first_left(pages, from, end) as u32,
        ),
    decreases end + 1 - from,
{
    if from <= end && pages.contains(from as u32) {
        lemma_first_left(pages, from + 1, end);
    }
}

/// What a [`FlashDfuHandler`] knows, as its contracts speak of it.
#[verifier::ext_equal]
pub struct FlashModel {
    pub write_size: u32,
    pub erase_size: u32,
    /// The pages erased since the session started.
    pub pages: Set<u32>,
    /// How much of the image has been written.
    pub written_len: u32,
}

impl FlashModel {
    pub open spec fn wf(self) -> bool {
        self.write_size > 0 && self.erase_size > 0
    }

    /// The updater as it takes a chunk up: offset 0 starts a new session.
    pub open spec fn taken_up(self, offset: u32) -> FlashModel {
        if offset == 0 {
            FlashModel { pages: Set::empty(), written_len: 0, ..self }
        } else {
            self
        }
    }

    /// The first and the last page of some bytes.
    pub open spec fn start_page(self, offset: u32) -> int {
        offset as int / self.erase_size as int
    }

    pub open spec fn end_page(self, offset: u32, len: u32) -> int {
        (offset + len - 1) / self.erase_size as int
    }

    /// Whether the pages of the bytes `offset .. offset + len` can be told in 32
    /// bits.
    pub open spec fn fits(self, offset: u32, len: u32) -> bool {
        &&& offset + len <= u32::MAX
        &&& (self.end_page(offset, len) + 1) * self.erase_size <= u32::MAX
    }

    /// Whether offset and length are multiples of the flash's write size.
    pub open spec fn aligned(self, offset: u32, len: u32) -> bool {
        offset as int % self.write_size as int == 0 && len as int % self.write_size as int == 0
    }

    /// The plan for a chunk: to erase the pages that it touches and that were not
    /// erased yet, from the first of them on.
    pub open spec fn plan(self, offset: u32, len: u32) -> ChunkPlan {
        if len == 0 {
            ChunkPlan::Nothing
        } else if !self.aligned(offset, len) {
            ChunkPlan::Unaligned
        } else {
            let end_page = self.end_page(offset, len);
            ChunkPlan::Write(
                ChunkWrite {
                    offset,
                    len,
                    next_page: first_left(self.pages, self.start_page(offset), end_page) as u32,
                    end_page: end_page as u32,
                },
            )
        }
    }

    /// The next operation of a chunk.
    pub open spec fn op(self, w: ChunkWrite) -> FlashOp {
        if w.next_page <= w.end_page {
            FlashOp::Erase {
                from: (w.next_page * self.erase_size) as u32,
                to: ((w.next_page + 1) * self.erase_size) as u32,
            }
        } else {
            FlashOp::Write { offset: w.offset }
        }
    }

    /// A chunk as a plan makes it, somewhere on its way: no page that was erased is
    /// next.
    pub open spec fn write_wf(self, w: ChunkWrite) -> bool {
        &&& w.len > 0
        &&& self.fits(w.offset, w.len)
        &&& w.end_page == self.end_page(w.offset, w.len)
        &&& w.next_page <= w.end_page + 1
        &&& w.next_page <= w.end_page ==> !self.pages.contains(w.next_page)
    }

    /// The updater once the chunk's next page was erased.
    pub open spec fn with_erased(self, w: ChunkWrite) -> FlashModel {
        FlashModel { pages: self.pages.insert(w.next_page), ..self }
    }

    /// The chunk once its next page was erased: on to the next that was not.
    pub open spec fn past_erasure(self, w: ChunkWrite) -> ChunkWrite {
        ChunkWrite {
            next_page: first_left(
                self.pages.insert(w.next_page),
                w.next_page + 1,
                w.end_page as int,
            ) as u32,
            ..w
        }
    }

    /// The updater once the chunk was written.
    pub open spec fn with_written(self, w: ChunkWrite) -> FlashModel {
        FlashModel {
            written_len: if self.written_len > w.offset + w.len {
                self.written_len
            } else {
                (w.offset + w.len) as u32
            },
            ..self
        }
    }
}

/// Flash-side DFU updater: it knows which pages were erased since the session started
/// and how much of the image has been written.
#[derive(Debug)]
pub struct FlashDfuHandler {
    pub write_size: u32,
    pub erase_size: u32,
    pub erased_pages: Vec<u32>,
    pub written_len: u32,
}

impl FlashDfuHandler {
    pub open spec fn model(&self) -> FlashModel {
        FlashModel {
            write_size: self.write_size,
            erase_size: self.erase_size,
            pages: self.erased_pages@.to_set(),
            written_len: self.written_len,
        }
    }

    pub open spec fn wf(&self) -> bool {
        self.model().wf()
    }

    /// A handler for a flash that writes in units of `write_size` bytes and erases
    /// in pages of `erase_size`.
    pub fn new(write_size: u32, erase_size: u32) -> (r: Self)
        requires
            write_size > 0,
            erase_size > 0,
        ensures
            r.wf(),
            r.model() == (FlashModel {
                write_size,
                erase_size,
                pages: Set::empty(),
                written_len: 0,
            }),
    {
        let r = FlashDfuHandler { write_size, erase_size, erased_pages: Vec::new(), written_len: 0 };
        assert(r.erased_pages@.to_set() =~= Set::<u32>::empty());
        r
    }

    fn is_erased(&self, page: u32) -> (r: bool)
        ensures
            r == self.model().pages.contains(page),
    {
        let mut i: usize = 0;
        while i < self.erased_pages.len()
            invariant
                i <= self.erased_pages@.len(),
                forall|j: int| 0 <= j < i ==> self.erased_pages@[j] != page,
            decreases self.erased_pages@.len() - i,
        {
            if self.erased_pages[i] == page {
                assert(self.erased_pages@.contains(page));
                return true;
            }
            i = i + 1;
        }
        assert(!self.erased_pages@.contains(page));
        false
    }

    /// The first page from `from` up to `end` that was not erased yet.
    fn next_left(&self, from: u32, end: u32) -> (r: u32)
        requires
            from <= end + 1,
            end < u32::MAX,
        ensures
            r == first_left(self.model().pages, from as int, end as int),
            from <= r <= end + 1,
            r <= end ==> !self.model().pages.contains(r),
    {
        let mut page: u32 = from;
        while page <= end && self.is_erased(page)
            invariant
                from <= page <= end + 1,
                end < u32::MAX,
                first_left(self.model().pages, from as int, end as int) == first_left(
                    self.model().pages,
                    page as int,
                    end as int,
                ),
            decreases end + 1 - page,
        {
            page = page + 1;
        }
        page
    }

    /// Takes up a chunk of `len` bytes at the given partition offset.
    ///
    /// Pages are erased on demand, and only the first time a page is met. Offset 0
    /// starts a new session: what an aborted one left behind must neither enter this
    /// image's CRC nor spare a page its erasure.
    pub fn write_chunk(&mut self, offset: u32, len: u32) -> (r: ChunkPlan)
        requires
            old(self).wf(),
            len > 0 && old(self).model().aligned(offset, len) ==> old(self).model().fits(
                offset,
                len,
            ),
        ensures
            final(self).wf(),
            final(self).model() == old(self).model().taken_up(offset),
            r == final(self).model().plan(offset, len),
            r matches ChunkPlan::Write(w) ==> final(self).model().write_wf(w),
    {
        if offset == 0 {
            self.written_len = 0;
            self.erased_pages = Vec::new();
            assert(self.erased_pages@.to_set() =~= Set::<u32>::empty());
        }
        if len == 0 {
            return ChunkPlan::Nothing;
        }
        if offset % self.write_size != 0 || len % self.write_size != 0 {
            return ChunkPlan::Unaligned;
        }
        let start_page: u32 = offset / self.erase_size;
        let end: u32 = offset + len;
        let end_page: u32 = (end - 1) / self.erase_size;
        proof {
            let e = self.erase_size as int;
            assert(offset as int / e <= (end - 1) / e) by (nonlinear_arith)
                requires
                    e > 0,
                    offset <= end - 1,
            ;
            assert((end_page + 1) * e <= u32::MAX);
            assert(end_page + 1 <= (end_page + 1) * e) by (nonlinear_arith)
                requires
                    e > 0,
            ;
        }
        let next_page: u32 = self.next_left(start_page, end_page);
        ChunkPlan::Write(ChunkWrite { offset, len, next_page, end_page })
    }

    /// The next operation of a chunk.
    pub fn next_op(&self, w: ChunkWrite) -> (r: FlashOp)
        requires
            self.wf(),
            self.model().write_wf(w),
        ensures
            r == self.model().op(w),
    {
        if w.next_page <= w.end_page {
            proof {
                let e = self.erase_size as int;
                assert((w.next_page + 1) * e <= (w.end_page + 1) * e) by (nonlinear_arith)
                    requires
                        e > 0,
                        w.next_page <= w.end_page,
                ;
                assert(w.next_page * e <= (w.next_page + 1) * e) by (nonlinear_arith)
                    requires
                        e > 0,
                ;
                assert(w.next_page + 1 <= (w.next_page + 1) * e) by (nonlinear_arith)
                    requires
                        e > 0,
                ;
            }
            FlashOp::Erase {
                from: w.next_page * self.erase_size,
                to: (w.next_page + 1) * self.erase_size,
            }
        } else {
            FlashOp::Write { offset: w.offset }
        }
    }

    /// Takes in that the erasure of the next page succeeded. One that failed ends
    /// the chunk and changes nothing.
    pub fn erased(&mut self, w: &mut ChunkWrite)
        requires
            old(self).wf(),
            old(self).model().write_wf(*old(w)),
            old(w).next_page <= old(w).end_page,
        ensures
            final(self).wf(),
            final(self).model() == old(self).model().with_erased(*old(w)),
            *final(w) == old(self).model().past_erasure(*old(w)),
            final(self).model().write_wf(*final(w)),
    {
        proof {
            let e = self.erase_size as int;
            assert(w.end_page + 1 <= (w.end_page + 1) * e) by (nonlinear_arith)
                requires
                    e > 0,
            ;
        }
        let page: u32 = w.next_page;
        let ghost before = self.erased_pages@;
        self.erased_pages.push(page);
        proof {
            let after = self.erased_pages@;
            assert forall|p: u32| after.contains(p) == (before.contains(p) || p == page) by {
                if before.contains(p) {
                    let k = choose|k: int| 0 <= k < before.len() && before[k] == p;
                    assert(after[k] == p);
                }
                assert(after[before.len() as int] == page);
            }
            assert(after.to_set() =~= before.to_set().insert(page));
        }
        w.next_page = self.next_left(page + 1, w.end_page);
    }

    /// Takes in that the chunk was written. The status to publish comes back.
    pub fn written(&mut self, w: ChunkWrite) -> (r: DfuStatus)
        requires
            old(self).wf(),
            old(self).model().write_wf(w),
        ensures
            r == DfuStatus::Downloading,
            final(self).wf(),
            final(self).model() == old(self).model().with_written(w),
    {
        let end: u32 = w.offset + w.len;
        if self.written_len < end {
            self.written_len = end;
        }
        DfuStatus::Downloading
    }

    /// Starts the read-back of everything written.
    pub fn compute_dfu_crc(&self) -> (r: CrcScan)
        ensures
            r.total() == self.written_len,
            r.wf(),
            r.seen() == Seq::<u8>::empty(),
    {
        CrcScan {
            pos: 0,
            len: self.written_len,
            crc: Crc32::new(),
            seen: Ghost(Seq::empty()),
        }
    }
}

// ---------------------------------------------------------------------------
// Reading back
// ---------------------------------------------------------------------------

/// The CRC-32 of the first `len` bytes of the partition, read piece by piece.
pub struct CrcScan {
    pos: u32,
    len: u32,
    crc: Crc32,
    seen: Ghost<Seq<u8>>,
}

impl CrcScan {
    /// The bytes taken in so far.
    pub closed spec fn seen(&self) -> Seq<u8> {
        self.seen@
    }

    pub closed spec fn total(&self) -> u32 {
        self.len
    }

    pub closed spec fn wf(&self) -> bool {
        &&& self.pos <= self.len
        &&& self.seen@.len() == self.pos
        &&& self.crc.covers(self.seen@)
    }

    /// The next piece to read: where it starts and how long it is. `None` once
    /// everything was read.
    pub fn next_read(&self) -> (r: Option<(u32, u32)>)
        requires
            self.wf(),
        ensures
            r == if self.seen().len() < self.total() {
                Some(
                    (
                        self.seen().len() as u32,
                        if self.total() - self.seen().len() < READ_BACK_SIZE {
                            (self.total() - self.seen().len()) as u32
                        } else {
                            READ_BACK_SIZE
                        },
                    ),
                )
            } else {
                None
            },
    {
        if self.pos < self.len {
            let left: u32 = self.len - self.pos;
            let n: u32 = if left < READ_BACK_SIZE {
                left
            } else {
                READ_BACK_SIZE
            };
            Some((self.pos, n))
        } else {
            None
        }
    }

    /// Takes in the next piece.
    pub fn feed(&mut self, bytes: &[u8])
        requires
            old(self).wf(),
            old(self).seen().len() + bytes@.len() <= old(self).total(),
        ensures
            final(self).wf(),
            final(self).total() == old(self).total(),
            final(self).seen() == old(self).seen() + bytes@,
    {
        self.crc.update(bytes);
        self.pos = self.pos + bytes.len() as u32;
        proof {
            self.seen@ = self.seen@ + bytes@;
        }
    }

    /// The CRC-32 of everything taken in.
    pub fn finish(&self) -> (r: u32)
        requires
            self.wf(),
        ensures
            r == crc_of(self.seen()),
    {
        self.crc.finalize()
    }
}

// ---------------------------------------------------------------------------
// Sanity of an image
// ---------------------------------------------------------------------------

/// Four bytes that an erased or empty flash would hold.
pub open spec fn blank_word(header: Seq<u8>, at: int) -> bool {
    ||| (forall|i: int| at <= i < at + 4 ==> header[i] == 0)
    ||| (forall|i: int| at <= i < at + 4 ==> header[i] == 0xFF)
}

/// Whether the first 8 bytes of an image look like a vector table: neither the
/// stack pointer nor the reset handler is blank.
pub fn check_sanity(header: &[u8; 8]) -> (r: bool)
    ensures
        r == (!blank_word(header@, 0) && !blank_word(header@, 4)),
{
    let a = header[0] == 0 && header[1] == 0 && header[2] == 0 && header[3] == 0;
    let b = header[0] == 0xFF && header[1] == 0xFF && header[2] == 0xFF && header[3] == 0xFF;
    let c = header[4] == 0 && header[5] == 0 && header[6] == 0 && header[7] == 0;
    let d = header[4] == 0xFF && header[5] == 0xFF && header[6] == 0xFF && header[7] == 0xFF;
    let r = !(a || b) && !(c || d);
    assert(a ==> blank_word(header@, 0));
    assert(b ==> blank_word(header@, 0));
    assert(c ==> blank_word(header@, 4));
    assert(d ==> blank_word(header@, 4));
    r
}

// ---------------------------------------------------------------------------
// Commands
// ---------------------------------------------------------------------------

/// What the updater does with a command.
#[derive(Clone, Copy, Debug, PartialEq, Eq, Structural)]
pub enum HandlerTask {
    /// Compute the CRC-32 of the image and hand it to the split link.
    ReportCrc,
    /// Write the command's block. `respond` tells the split link how it went.
    WriteBlock { respond: bool },
    /// The download starts: forget earlier failures.
    ClearFailure,
    /// The download is over: see [`DfuSession::finish`].
    Finish,
    Reboot,
    /// Not for this updater.
    Skip,
}

/// The task of a command: those for the central and for this half's own flash are
/// carried out, those for other peripherals are left to their managers.
pub open spec fn task_of(cmd: DfuCmd) -> HandlerTask {
    match cmd {
        DfuCmd::ComputeCrc => HandlerTask::ReportCrc,
        DfuCmd::Write(DfuTarget::Local, _, _) => HandlerTask::WriteBlock { respond: true },
        DfuCmd::Write(DfuTarget::Central, _, _) => HandlerTask::WriteBlock { respond: false },
        DfuCmd::Start(DfuTarget::Central | DfuTarget::Local) => HandlerTask::ClearFailure,
        DfuCmd::Finish(DfuTarget::Central | DfuTarget::Local) => HandlerTask::Finish,
        DfuCmd::SystemReset(DfuTarget::Central | DfuTarget::Local) => HandlerTask::Reboot,
        _ => HandlerTask::Skip,
    }
}

/// Sorts a command.
pub fn handle_cmd(cmd: &DfuCmd) -> (r: HandlerTask)
    ensures
        r == task_of(*cmd),
{
    match cmd {
        DfuCmd::ComputeCrc => HandlerTask::ReportCrc,
        DfuCmd::Write(target, _, _) => match target {
            DfuTarget::Local => HandlerTask::WriteBlock { respond: true },
            DfuTarget::Central => HandlerTask::WriteBlock { respond: false },
            DfuTarget::ForwardPeripheral(_) => HandlerTask::Skip,
        },
        DfuCmd::Start(target) => match target {
            DfuTarget::ForwardPeripheral(_) => HandlerTask::Skip,
            _ => HandlerTask::ClearFailure,
        },
        DfuCmd::Finish(target) => match target {
            DfuTarget::ForwardPeripheral(_) => HandlerTask::Skip,
            _ => HandlerTask::Finish,
        },
        DfuCmd::SystemReset(target) => match target {
            DfuTarget::ForwardPeripheral(_) => HandlerTask::Skip,
            _ => HandlerTask::Reboot,
        },
        DfuCmd::UnlockRequest => HandlerTask::Skip,
    }
}

/// How the end of a download goes on.
#[derive(Clone, Copy, Debug, PartialEq, Eq, Structural)]
pub enum FinishStep {
    /// Publish the failure.
    Report(DfuStatus),
    /// Read the image's first 8 bytes and hand them to [`DfuSession::checked`].
    CheckImage,
    /// Mark the image as the new firmware, publish `Finished` and restart.
    MarkUpdated,
}

/// Whether a write of the current download has failed. Transports reject further
/// data while it has.
#[derive(Clone, Copy, Debug, PartialEq, Eq, Structural)]
pub struct DfuSession {
    pub write_failed: bool,
}

impl DfuSession {
    pub fn new() -> (r: Self)
        ensures
            !r.write_failed,
    {
        DfuSession { write_failed: false }
    }

    /// A download starts.
    pub fn start(&mut self)
        ensures
            !final(self).write_failed,
    {
        self.write_failed = false;
    }

    /// A block was written, or was not. The status to publish, if any.
    pub fn block_written(&mut self, ok: bool) -> (r: Option<DfuStatus>)
        ensures
            final(self).write_failed == (old(self).write_failed || !ok),
            r == if ok {
                None
            } else {
                Some(DfuStatus::Error)
            },
    {
        if ok {
            None
        } else {
            self.write_failed = true;
            Some(DfuStatus::Error)
        }
    }

    /// The download is over. After a failed write the image is given up and the
    /// failure is forgotten.
    pub fn finish(&mut self) -> (r: FinishStep)
        ensures
            !final(self).write_failed,
            r == if old(self).write_failed {
                FinishStep::Report(DfuStatus::Error)
            } else {
                FinishStep::CheckImage
            },
    {
        if self.write_failed {
            self.write_failed = false;
            FinishStep::Report(DfuStatus::Error)
        } else {
            FinishStep::CheckImage
        }
    }

    /// The image's first 8 bytes, or `None` where they could not be read.
    pub fn checked(&mut self, header: Option<[u8; 8]>) -> (r: FinishStep)
        ensures
            ({
                let sane = header matches Some(h) && !blank_word(h@, 0) && !blank_word(h@, 4);
                &&& final(self).write_failed == (old(self).write_failed || !sane)
                &&& r == if sane {
                    FinishStep::MarkUpdated
                } else {
                    FinishStep::Report(DfuStatus::Error)
                }
            }),
    {
        let sane = match header {
            Some(h) => check_sanity(&h),
            None => false,
        };
        if sane {
            FinishStep::MarkUpdated
        } else {
            self.write_failed = true;
            FinishStep::Report(DfuStatus::Error)
        }
    }

    /// The image was marked as the new firmware, or could not be. The status to
    /// publish.
    pub fn marked(&self, ok: bool) -> (r: DfuStatus)
        ensures
            r == if ok {
                DfuStatus::Finished
            } else {
                DfuStatus::Error
            },
    {
        if ok {
            DfuStatus::Finished
        } else {
            DfuStatus::Error
        }
    }
}

// ---------------------------------------------------------------------------
// Laws
// ---------------------------------------------------------------------------

/// The pages that a chunk has erased from where it is, in order.
pub open spec fn erasures(m: FlashModel, w: ChunkWrite) -> Seq<u32>
    decreases w.end_page + 1 - w.next_page,
    via erasures_decreases
{
    if w.next_page > w.end_page || w.end_page == u32::MAX {
        Seq::empty()
    } else {
        seq![w.next_page] + erasures(m.with_erased(w), m.past_erasure(w))
    }
}

#[via_fn]
proof fn erasures_decreases(m: FlashModel, w: ChunkWrite) {
    if w.next_page <= w.end_page && w.end_page < u32::MAX {
        lemma_first_left(m.pages.insert(w.next_page), w.next_page + 1, w.end_page as int);
    }
}

/// The updater once a chunk has erased all that it has to.
pub open spec fn after_erasures(m: FlashModel, w: ChunkWrite) -> FlashModel
    decreases w.end_page + 1 - w.next_page,
    via after_erasures_decreases
{
    if w.next_page > w.end_page || w.end_page == u32::MAX {
        m
    } else {
        after_erasures(m.with_erased(w), m.past_erasure(w))
    }
}

#[via_fn]
proof fn after_erasures_decreases(m: FlashModel, w: ChunkWrite) {
    if w.next_page <= w.end_page && w.end_page < u32::MAX {
        lemma_first_left(m.pages.insert(w.next_page), w.next_page + 1, w.end_page as int);
    }
}

proof fn lemma_erasures(m: FlashModel, w: ChunkWrite)
    requires
        w.end_page < u32::MAX,
        w.next_page <= w.end_page + 1,
        w.next_page <= w.end_page ==> !m.pages.contains(w.next_page),
    ensures
        forall|p: u32| #[trigger]
            erasures(m, w).contains(p) <==> w.next_page <= p <= w.end_page && !m.pages.contains(p),
        erasures(m, w).no_duplicates(),
        after_erasures(m, w) == (FlashModel { pages: after_erasures(m, w).pages, ..m }),
        forall|p: u32| #[trigger]
            after_erasures(m, w).pages.contains(p) <==> m.pages.contains(p) || (w.next_page <= p
                <= w.end_page),
    decreases w.end_page + 1 - w.next_page,
{
    let e = erasures(m, w);
    if w.next_page <= w.end_page {
        let (m2, w2) = (m.with_erased(w), m.past_erasure(w));
        lemma_first_left(m2.pages, w.next_page + 1, w.end_page as int);
        lemma_erasures(m2, w2);
        let rest = erasures(m2, w2);
        assert(e =~= seq![w.next_page] + rest);
        assert forall|p: u32| #[trigger] e.contains(p) <==> w.next_page <= p <= w.end_page
            && !m.pages.contains(p) by {
            if rest.contains(p) {
                let k = choose|k: int| 0 <= k < rest.len() && rest[k] == p;
                assert(e[k + 1] == p);
            }
            if e.contains(p) && p != w.next_page {
                let k = choose|k: int| 0 <= k < e.len() && e[k] == p;
                assert(rest[k - 1] == p);
            }
            assert(e[0] == w.next_page);
            if w.next_page < p < w2.next_page {
                assert(m2.pages.contains(p));
            }
        }
        assert(e.no_duplicates()) by {
            assert(!rest.contains(w.next_page));
            assert forall|a: int, b: int| 0 <= a < b < e.len() implies e[a] != e[b] by {
                if a == 0 {
                    assert(rest[b - 1] == e[b]);
                    assert(rest.contains(e[b]));
                } else {
                    assert(rest[a - 1] == e[a] && rest[b - 1] == e[b]);
                }
            }
        }
        assert forall|p: u32| #[trigger] after_erasures(m, w).pages.contains(p) <==> m.pages.contains(
            p,
        ) || (w.next_page <= p <= w.end_page) by {
            if w.next_page < p < w2.next_page {
                assert(m2.pages.contains(p));
            }
        }
    } else {
        assert(e =~= Seq::<u32>::empty());
    }
}

proof fn lemma_plan(m: FlashModel, offset: u32, len: u32)
    requires
        m.wf(),
        m.fits(offset, len),
        m.plan(offset, len) is Write,
    ensures
        ({
            let w = m.plan(offset, len)->Write_0;
            &&& w.end_page == m.end_page(offset, len)
            &&& 0 <= m.start_page(offset) <= w.next_page <= w.end_page + 1
            &&& w.end_page < u32::MAX
            &&& w.next_page <= w.end_page ==> !m.pages.contains(w.next_page)
            &&& forall|p: u32| m.start_page(offset) <= p < w.next_page ==> m.pages.contains(p)
        }),
{
    let e = m.erase_size as int;
    let start = offset as int / e;
    let last = (offset + len - 1) / e;
    assert(0 <= start <= last) by (nonlinear_arith)
        requires
            e > 0,
            len > 0,
            start == offset as int / e,
            last == (offset + len - 1) / e,
    ;
    assert(last + 1 <= (last + 1) * e) by (nonlinear_arith)
        requires
            e > 0,
            last >= 0,
    ;
    lemma_first_left(m.pages, start, last);
}

/// A chunk erases exactly those of its pages that were not erased in the session yet,
/// each once. Afterwards the pages erased are those from before and all of the chunk's:
/// every page is erased before it is written.
pub proof fn law_a_chunk_erases_what_is_left(m: FlashModel, offset: u32, len: u32, page: u32)
    requires
        m.wf(),
        m.fits(offset, len),
        m.plan(offset, len) is Write,
    ensures
        ({
            let w = m.plan(offset, len)->Write_0;
            let touched = m.start_page(offset) <= page <= m.end_page(offset, len);
            &&& erasures(m, w).contains(page) <==> touched && !m.pages.contains(page)
            &&& erasures(m, w).no_duplicates()
            &&& after_erasures(m, w).pages.contains(page) <==> m.pages.contains(page) || touched
        }),
{
    let w = m.plan(offset, len)->Write_0;
    lemma_plan(m, offset, len);
    lemma_erasures(m, w);
    if m.start_page(offset) <= page < w.next_page {
        assert(m.pages.contains(page));
    }
}

/// The updater after a chunk went in whole, or was refused.
pub open spec fn after_chunk(m: FlashModel, offset: u32, len: u32) -> FlashModel {
    let n = m.taken_up(offset);
    match n.plan(offset, len) {
        ChunkPlan::Write(w) => after_erasures(n, w).with_written(w),
        _ => n,
    }
}

/// The pages that some chunks have erased, one chunk after the other.
pub open spec fn session_erasures(m: FlashModel, chunks: Seq<(u32, u32)>) -> Seq<u32>
    decreases chunks.len(),
{
    if chunks.len() == 0 {
        Seq::empty()
    } else {
        let (offset, len) = chunks[0];
        let n = m.taken_up(offset);
        (match n.plan(offset, len) {
            ChunkPlan::Write(w) => erasures(n, w),
            _ => Seq::empty(),
        }) + session_erasures(after_chunk(m, offset, len), chunks.drop_first())
    }
}

/// No page is erased twice in a session, in whatever order its chunks come: what was
/// written to a page stays there.
pub proof fn law_no_page_is_erased_twice(m: FlashModel, chunks: Seq<(u32, u32)>)
    requires
        m.wf(),
        forall|i: int|
            #![trigger chunks[i]]
            0 <= i < chunks.len() ==> {
                &&& i > 0 ==> chunks[i].0 > 0
                &&& chunks[i].1 > 0 && m.aligned(chunks[i].0, chunks[i].1) ==> m.fits(
                    chunks[i].0,
                    chunks[i].1,
                )
            },
    ensures
        session_erasures(m, chunks).no_duplicates(),
        chunks.len() > 0 && chunks[0].0 > 0 ==> forall|p: u32| #[trigger]
            session_erasures(m, chunks).contains(p) ==> !m.pages.contains(p),
    decreases chunks.len(),
{
    if chunks.len() > 0 {
        let (offset, len) = chunks[0];
        assert(chunks[0] == (offset, len));
        let n = m.taken_up(offset);
        let after = after_chunk(m, offset, len);
        let later = chunks.drop_first();
        let plan = n.plan(offset, len);
        let here = match plan {
            ChunkPlan::Write(w) => erasures(n, w),
            _ => Seq::empty(),
        };
        let rest = session_erasures(after, later);
        let all = session_erasures(m, chunks);
        assert(all == here + rest);
        if plan is Write {
            lemma_plan(n, offset, len);
            lemma_erasures(n, plan->Write_0);
        } else {
            assert(here =~= Seq::<u32>::empty());
        }
        assert forall|p: u32| n.pages.contains(p) || here.contains(p) implies after.pages.contains(
            p,
        ) by {
            if plan is Write {
                assert(after_erasures(n, plan->Write_0).pages.contains(p));
            }
        }
        assert forall|i: int| 0 <= i < later.len() implies ({
            &&& (#[trigger] later[i]).0 > 0
            &&& later[i].1 > 0 && after.aligned(later[i].0, later[i].1) ==> after.fits(
                later[i].0,
                later[i].1,
            )
        }) by {
            assert(later[i] == chunks[i + 1]);
        }
        law_no_page_is_erased_twice(after, later);
        if later.len() == 0 {
            assert(rest =~= Seq::<u32>::empty());
        } else {
            assert(later[0].0 > 0);
        }
        assert forall|p: u32| #[trigger] rest.contains(p) implies !after.pages.contains(p) by {}
        assert forall|a: int, b: int| 0 <= a < b < all.len() implies all[a] != all[b] by {
            let k = here.len() as int;
            if b < k {
                assert(here[a] == all[a] && here[b] == all[b]);
            } else if a < k {
                assert(here[a] == all[a] && rest[b - k] == all[b]);
                assert(here.contains(all[a]));
                assert(rest.contains(all[b]));
            } else {
                assert(rest[a - k] == all[a] && rest[b - k] == all[b]);
            }
        }
        if offset > 0 {
            assert forall|p: u32| #[trigger] all.contains(p) implies !m.pages.contains(p) by {
                let k = choose|k: int| 0 <= k < all.len() && all[k] == p;
                if k < here.len() {
                    assert(here[k] == p);
                    assert(here.contains(p));
                } else {
                    assert(rest[k - here.len()] == p);
                    assert(rest.contains(p));
                }
            }
        }
    }
}

/// A page is the stretch of one erase size that starts at a multiple of it: the first page of a
/// chunk holds its first byte and the last page its last one.
pub proof fn law_the_pages_of_a_chunk_hold_it(m: FlashModel, offset: u32, len: u32)
    requires
        m.wf(),
        len > 0,
    ensures
        m.start_page(offset) * m.erase_size <= offset < (m.start_page(offset) + 1) * m.erase_size,
        m.end_page(offset, len) * m.erase_size <= offset + len - 1 < (m.end_page(offset, len) + 1)
            * m.erase_size,
        0 <= m.start_page(offset) <= m.end_page(offset, len),
{
    let e = m.erase_size as int;
    vstd::arithmetic::div_mod::lemma_fundamental_div_mod(offset as int, e);
    vstd::arithmetic::div_mod::lemma_fundamental_div_mod(offset + len - 1, e);
    vstd::arithmetic::div_mod::lemma_div_is_ordered(offset as int, offset + len - 1, e);
    vstd::arithmetic::div_mod::lemma_div_pos_is_pos(offset as int, e);
    let a = m.start_page(offset);
    let b = m.end_page(offset, len);
    assert((a + 1) * e == e * a + e && (b + 1) * e == e * b + e && a * e == e * a && b * e == e * b)
        by (nonlinear_arith);
}

/// A chunk is dealt with by its length and place alone: nothing of it is nothing to do, a chunk
/// is refused where its offset or its length is no multiple of the write size, and any other is
/// written where it belongs.
pub proof fn law_a_chunk_is_refused_off_the_write_size(
    m: FlashModel,
    offset: u32,
    len: u32,
    i: int,
    j: int,
)
    requires
        m.wf(),
        m.fits(offset, len),
    ensures
        len == 0 ==> m.plan(offset, len) is Nothing,
        len > 0 && offset == i * m.write_size && len == j * m.write_size ==> (m.plan(
            offset,
            len,
        ) matches ChunkPlan::Write(w) && w.offset == offset && w.len == len && w.end_page
            * m.erase_size < offset + len <= (w.end_page + 1) * m.erase_size),
        len > 0 && i * m.write_size < offset < (i + 1) * m.write_size ==> m.plan(
            offset,
            len,
        ) is Unaligned,
        len > 0 && j * m.write_size < len < (j + 1) * m.write_size ==> m.plan(
            offset,
            len,
        ) is Unaligned,
{
    let w = m.write_size as int;
    if offset == i * w && len == j * w {
        vstd::arithmetic::div_mod::lemma_mod_multiples_basic(i, w);
        vstd::arithmetic::div_mod::lemma_mod_multiples_basic(j, w);
    }
    if i * w < offset < (i + 1) * w {
        assert((i + 1) * w == i * w + w) by (nonlinear_arith);
        vstd::arithmetic::div_mod::lemma_fundamental_div_mod_converse(
            offset as int,
            w,
            i,
            offset - i * w,
        );
    }
    if j * w < len < (j + 1) * w {
        assert((j + 1) * w == j * w + w) by (nonlinear_arith);
        vstd::arithmetic::div_mod::lemma_fundamental_div_mod_converse(len as int, w, j, len - j * w);
    }
    if len > 0 {
        law_the_pages_of_a_chunk_hold_it(m, offset, len);
        let b = m.end_page(offset, len);
        assert(b <= u32::MAX) by (nonlinear_arith)
            requires
                (b + 1) * m.erase_size <= u32::MAX,
                m.erase_size >= 1,
                b >= 0,
        ;
    }
}

/// An erasure takes one whole page, on page boundaries; the write follows once no page of the
/// chunk is left to erase.
pub proof fn law_an_erasure_is_one_whole_page(m: FlashModel, w: ChunkWrite)
    requires
        m.wf(),
        m.write_wf(w),
    ensures
        match m.op(w) {
            FlashOp::Erase { from, to } => w.next_page <= w.end_page && from == w.next_page
                * m.erase_size && to - from == m.erase_size,
            FlashOp::Write { offset } => w.next_page > w.end_page && offset == w.offset,
        },
{
    assert((w.next_page + 1) * m.erase_size == w.next_page * m.erase_size + m.erase_size)
        by (nonlinear_arith);
    if w.next_page <= w.end_page {
        assert((w.next_page + 1) * m.erase_size <= (w.end_page + 1) * m.erase_size)
            by (nonlinear_arith)
            requires
                w.next_page <= w.end_page,
                m.erase_size > 0,
        ;
        assert(w.next_page * m.erase_size >= 0) by (nonlinear_arith);
    }
}

/// The image reaches as far as the furthest chunk written: a chunk never shortens it, and it
/// then holds the chunk. Only a chunk at the start of the partition starts the image afresh.
pub proof fn law_the_image_reaches_to_the_furthest_chunk(m: FlashModel, w: ChunkWrite, offset: u32)
    requires
        m.write_wf(w),
    ensures
        m.with_written(w).written_len >= m.written_len,
        m.with_written(w).written_len >= w.offset + w.len,
        m.with_written(w).written_len == m.written_len || m.with_written(w).written_len == w.offset
            + w.len,
        m.with_written(w).pages == m.pages,
        offset > 0 ==> m.taken_up(offset) == m,
        m.taken_up(0).written_len == 0,
        m.taken_up(0).pages == Set::<u32>::empty(),
        m.taken_up(0).write_size == m.write_size && m.taken_up(0).erase_size == m.erase_size,
{
}

/// A word of an image is blank where an empty or an erased flash would hold it: four bytes that
/// are all equal and zero, or all equal and 0xFF. A word with two different bytes never is.
pub proof fn law_a_blank_word_is_one_byte_repeated(header: Seq<u8>, at: int, i: int, j: int)
    requires
        0 <= at,
        at + 4 <= header.len(),
        at <= i < at + 4,
        at <= j < at + 4,
    ensures
        blank_word(header, at) ==> header[i] == header[j] && (header[i] == 0 || header[i] == 0xFF),
        header[at] == header[at + 1] && header[at + 1] == header[at + 2] && header[at + 2]
            == header[at + 3] && (header[at] == 0 || header[at] == 0xFF) ==> blank_word(header, at),
{
}

/// A command for another peripheral is left to its manager, and every other is carried out: the
/// central and this half's own flash are dealt with alike, but that only the half tells the
/// split link how a write went.
pub proof fn law_commands_for_other_peripherals_are_left(
    cmd: DfuCmd,
    id: u8,
    offset: u32,
    data: crate::bounded::DfuBlock,
)
    ensures
        task_of(cmd) is Skip <==> cmd is UnlockRequest || cmd.spec_target() matches Some(
            DfuTarget::ForwardPeripheral(_),
        ),
        task_of(DfuCmd::Start(DfuTarget::Central)) == HandlerTask::ClearFailure,
        task_of(DfuCmd::Start(DfuTarget::Local)) == HandlerTask::ClearFailure,
        task_of(DfuCmd::Finish(DfuTarget::Central)) == HandlerTask::Finish,
        task_of(DfuCmd::Finish(DfuTarget::Local)) == HandlerTask::Finish,
        task_of(DfuCmd::SystemReset(DfuTarget::Central)) == HandlerTask::Reboot,
        task_of(DfuCmd::SystemReset(DfuTarget::Local)) == HandlerTask::Reboot,
        task_of(DfuCmd::Write(DfuTarget::Central, offset, data)) == (HandlerTask::WriteBlock {
            respond: false,
        }),
        task_of(DfuCmd::Write(DfuTarget::Local, offset, data)) == (HandlerTask::WriteBlock {
            respond: true,
        }),
        task_of(DfuCmd::ComputeCrc) == HandlerTask::ReportCrc,
{
}

} // verus!
