//! Bounded buffers of the `heapless` crate, as the firmware passes them around.

use vstd::prelude::*;

verus! {

/// Block size of a DFU download transferred per USB control request. Larger
/// values speed up firmware downloads. Must match the USB control buffer size
/// used by the host.
pub const BLOCK_SIZE_DFU: usize = 512;

/// At most [`BLOCK_SIZE_DFU`] bytes of firmware, held in a `heapless::Vec`.
#[verifier::external_body]
#[derive(Debug, PartialEq, Eq)]
pub struct DfuBlock {
    inner: heapless::Vec<u8, 512>,
}

/// The bytes that a block holds.
pub uninterp spec fn block_bytes(block: DfuBlock) -> Seq<u8>;

impl View for DfuBlock {
    type V = Seq<u8>;

    open spec fn view(&self) -> Seq<u8> {
        block_bytes(*self)
    }
}

/// `heapless::Vec::from_slice`: a block with the bytes of `data`, or an error where
/// they are more than the block can hold.
#[verifier::external_body]
fn block_from_slice(data: &[u8]) -> (r: Result<DfuBlock, ()>)
    ensures
        match r {
            Ok(block) => data@.len() <= BLOCK_SIZE_DFU && block_bytes(block) == data@,
            Err(()) => data@.len() > BLOCK_SIZE_DFU,
        },
{
    match heapless::Vec::from_slice(data) {
        Ok(inner) => Ok(DfuBlock { inner }),
        Err(_) => Err(()),
    }
}

/// `heapless::Vec::as_slice`: the bytes of the block, never more than its
/// capacity.
#[verifier::external_body]
fn block_as_slice(block: &DfuBlock) -> (r: &[u8])
    ensures
        r@ == block_bytes(*block),
        r@.len() <= BLOCK_SIZE_DFU,
{
    block.inner.as_slice()
}

impl DfuBlock {
    /// A block with the bytes of `data`, or an error where they are more than a
    /// block can hold.
    pub fn from_slice(data: &[u8]) -> (r: Result<DfuBlock, ()>)
        ensures
            match r {
                Ok(block) => data@.len() <= BLOCK_SIZE_DFU && block@ == data@,
                Err(()) => data@.len() > BLOCK_SIZE_DFU,
            },
    {
        block_from_slice(data)
    }

    /// The bytes of the block.
    pub fn as_slice(&self) -> (r: &[u8])
        ensures
            r@ == self@,
            r@.len() <= BLOCK_SIZE_DFU,
    {
        block_as_slice(self)
    }
}

/// Bytes that a [`FrameHead`] can hold.
pub const FRAME_HEAD_SIZE: usize = 8;

/// The first bytes of a frame in flight, held in a `heapless::Vec`.
#[verifier::external_body]
pub struct FrameHead {
    inner: heapless::Vec<u8, 8>,
}

/// The bytes that a frame head holds.
pub uninterp spec fn head_bytes(head: FrameHead) -> Seq<u8>;

impl View for FrameHead {
    type V = Seq<u8>;

    open spec fn view(&self) -> Seq<u8> {
        head_bytes(*self)
    }
}

impl FrameHead {
    /// `heapless::Vec::new`: no bytes.
    #[verifier::external_body]
    pub(crate) fn new() -> (r: Self)
        ensures
            head_bytes(r) == Seq::<u8>::empty(),
    {
        FrameHead { inner: heapless::Vec::new() }
    }

    /// `heapless::Vec::clear`: no bytes are left.
    #[verifier::external_body]
    pub(crate) fn clear(&mut self)
        ensures
            head_bytes(*final(self)) == Seq::<u8>::empty(),
    {
        self.inner.clear()
    }

    /// `heapless::Vec::as_slice`: the bytes, never more than the capacity.
    #[verifier::external_body]
    pub(crate) fn as_slice(&self) -> (r: &[u8])
        ensures
            r@ == head_bytes(*self),
            r@.len() <= FRAME_HEAD_SIZE,
    {
        self.inner.as_slice()
    }

    /// `heapless::Vec::extend_from_slice`: all of `data` at the end, or an error
    /// and no change where it does not fit.
    #[verifier::external_body]
    pub(crate) fn extend_from_slice(&mut self, data: &[u8]) -> (r: Result<(), ()>)
        ensures
            match r {
                Ok(()) => head_bytes(*old(self)).len() + data@.len() <= FRAME_HEAD_SIZE
                    && head_bytes(*final(self)) == head_bytes(*old(self)) + data@,
                Err(()) => head_bytes(*old(self)).len() + data@.len() > FRAME_HEAD_SIZE
                    && head_bytes(*final(self)) == head_bytes(*old(self)),
            },
    {
        match self.inner.extend_from_slice(data) {
            Ok(()) => Ok(()),
            Err(_) => Err(()),
        }
    }
}

/// Bytes of one notification.
pub const NOTIFY_SIZE: usize = 244;

/// Notifications that wait at most.
pub const NOTIFY_QUEUE_SIZE: usize = 4;

/// One notification, held in a `heapless::Vec`.
#[verifier::external_body]
pub struct NotifyFrame {
    inner: heapless::Vec<u8, 244>,
}

/// The bytes of a notification.
pub uninterp spec fn notify_bytes(frame: NotifyFrame) -> Seq<u8>;

impl View for NotifyFrame {
    type V = Seq<u8>;

    open spec fn view(&self) -> Seq<u8> {
        notify_bytes(*self)
    }
}

/// `heapless::Vec::from_slice`: a notification with the bytes of `data`, or an
/// error where they are too many.
#[verifier::external_body]
fn notify_from_slice(data: &[u8]) -> (r: Result<NotifyFrame, ()>)
    ensures
        match r {
            Ok(frame) => data@.len() <= NOTIFY_SIZE && notify_bytes(frame) == data@,
            Err(()) => data@.len() > NOTIFY_SIZE,
        },
{
    match heapless::Vec::from_slice(data) {
        Ok(inner) => Ok(NotifyFrame { inner }),
        Err(_) => Err(()),
    }
}

/// `heapless::Vec::as_slice`: the bytes of a notification.
#[verifier::external_body]
fn notify_as_slice(frame: &NotifyFrame) -> (r: &[u8])
    ensures
        r@ == notify_bytes(*frame),
{
    frame.inner.as_slice()
}

impl NotifyFrame {
    /// A notification with the bytes of `data`, or an error where they are too
    /// many.
    pub fn from_slice(data: &[u8]) -> (r: Result<NotifyFrame, ()>)
        ensures
            match r {
                Ok(frame) => data@.len() <= NOTIFY_SIZE && frame@ == data@,
                Err(()) => data@.len() > NOTIFY_SIZE,
            },
    {
        notify_from_slice(data)
    }

    pub fn as_slice(&self) -> (r: &[u8])
        ensures
            r@ == self@,
    {
        notify_as_slice(self)
    }
}

/// Notifications in the order in which they go out, held in a `heapless::Vec`.
#[verifier::external_body]
pub struct NotifyQueue {
    inner: heapless::Vec<NotifyFrame, 4>,
}

/// The notifications that wait.
pub uninterp spec fn notify_queue(queue: NotifyQueue) -> Seq<NotifyFrame>;

/// `heapless::Vec::new`: nothing waits.
#[verifier::external_body]
fn notify_queue_new() -> (r: NotifyQueue)
    ensures
        notify_queue(r) == Seq::<NotifyFrame>::empty(),
{
    NotifyQueue { inner: heapless::Vec::new() }
}

/// `heapless::Vec::push`: one more at the end, or an error and no change where the
/// queue is full.
#[verifier::external_body]
fn notify_queue_push(queue: &mut NotifyQueue, frame: NotifyFrame) -> (r: Result<(), ()>)
    ensures
        match r {
            Ok(()) => notify_queue(*old(queue)).len() < NOTIFY_QUEUE_SIZE && notify_queue(
                *final(queue),
            ) == notify_queue(*old(queue)).push(frame),
            Err(()) => notify_queue(*old(queue)).len() >= NOTIFY_QUEUE_SIZE && notify_queue(
                *final(queue),
            ) == notify_queue(*old(queue)),
        },
{
    match queue.inner.push(frame) {
        Ok(()) => Ok(()),
        Err(_) => Err(()),
    }
}

/// `heapless::Vec::as_slice`: the notifications that wait.
#[verifier::external_body]
fn notify_queue_as_slice(queue: &NotifyQueue) -> (r: &[NotifyFrame])
    ensures
        r@ == notify_queue(*queue),
{
    queue.inner.as_slice()
}

impl View for NotifyQueue {
    type V = Seq<Seq<u8>>;

    open spec fn view(&self) -> Seq<Seq<u8>> {
        notify_queue(*self).map_values(|f: NotifyFrame| f@)
    }
}

impl NotifyQueue {
    pub fn new() -> (r: Self)
        ensures
            r@ == Seq::<Seq<u8>>::empty(),
    {
        let r = notify_queue_new();
        assert(r@ =~= Seq::<Seq<u8>>::empty());
        r
    }

    /// Queues a notification. One that is too long, or that finds the queue full,
    /// is dropped.
    pub fn push(&mut self, data: &[u8]) -> (queued: bool)
        ensures
            queued == (data@.len() <= NOTIFY_SIZE && old(self)@.len() < NOTIFY_QUEUE_SIZE),
            final(self)@ == if queued {
                old(self)@.push(data@)
            } else {
                old(self)@
            },
    {
        match NotifyFrame::from_slice(data) {
            Err(()) => false,
            Ok(frame) => {
                let ghost before = notify_queue(*self);
                match notify_queue_push(self, frame) {
                    Ok(()) => {
                        assert(self@ =~= old(self)@.push(data@));
                        true
                    },
                    Err(()) => false,
                }
            },
        }
    }

    /// The notifications that wait.
    pub fn frames(&self) -> (r: &[NotifyFrame])
        ensures
            r@.len() == self@.len(),
            forall|i: int| 0 <= i < r@.len() ==> (#[trigger] r@[i])@ == self@[i],
    {
        notify_queue_as_slice(self)
    }
}

/// Bytes that a [`CccdTable`] can hold.
pub const CCCD_TABLE_SIZE: usize = 64;

/// A peer's client configuration table, byte for byte, held in a `heapless::Vec`.
#[verifier::external_body]
#[derive(Debug, PartialEq, Eq)]
pub struct CccdTable {
    inner: heapless::Vec<u8, CCCD_TABLE_SIZE>,
}

/// The bytes of a table.
pub uninterp spec fn cccd_bytes(table: CccdTable) -> Seq<u8>;

impl View for CccdTable {
    type V = Seq<u8>;

    open spec fn view(&self) -> Seq<u8> {
        cccd_bytes(*self)
    }
}

/// `heapless::Vec::new`: no bytes.
#[verifier::external_body]
fn cccd_new() -> (r: CccdTable)
    ensures
        cccd_bytes(r) == Seq::<u8>::empty(),
{
    CccdTable { inner: heapless::Vec::new() }
}

/// `heapless::Vec::from_slice`: a table with the bytes of `data`, or an error where they are
/// too many.
#[verifier::external_body]
fn cccd_from_slice(data: &[u8]) -> (r: Result<CccdTable, ()>)
    ensures
        match r {
            Ok(table) => data@.len() <= CCCD_TABLE_SIZE && cccd_bytes(table) == data@,
            Err(()) => data@.len() > CCCD_TABLE_SIZE,
        },
{
    match heapless::Vec::from_slice(data) {
        Ok(inner) => Ok(CccdTable { inner }),
        Err(_) => Err(()),
    }
}

/// `heapless::Vec::as_slice`: the bytes, never more than the capacity.
#[verifier::external_body]
fn cccd_as_slice(table: &CccdTable) -> (r: &[u8])
    ensures
        r@ == cccd_bytes(*table),
        r@.len() <= CCCD_TABLE_SIZE,
{
    table.inner.as_slice()
}

impl CccdTable {
    pub fn new() -> (r: Self)
        ensures
            r@ == Seq::<u8>::empty(),
    {
        cccd_new()
    }

    /// A table with the bytes of `data`, or an error where they are too many.
    pub fn from_slice(data: &[u8]) -> (r: Result<CccdTable, ()>)
        ensures
            match r {
                Ok(table) => data@.len() <= CCCD_TABLE_SIZE && table@ == data@,
                Err(()) => data@.len() > CCCD_TABLE_SIZE,
            },
    {
        cccd_from_slice(data)
    }

    pub fn as_slice(&self) -> (r: &[u8])
        ensures
            r@ == self@,
            r@.len() <= CCCD_TABLE_SIZE,
    {
        cccd_as_slice(self)
    }

    pub fn duplicate(&self) -> (r: Self)
        ensures
            r@ == self@,
    {
        match cccd_from_slice(cccd_as_slice(self)) {
            Ok(table) => table,
            Err(()) => cccd_new(),
        }
    }
}

} // verus!
