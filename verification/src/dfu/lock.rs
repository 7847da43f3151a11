//! The physical-key gate in front of a firmware download.

use vstd::prelude::*;
use crate::dfu::{DfuCmd, DfuTarget};
use crate::time::{Duration, Instant, TICK_HZ};
use crate::types::DfuStatus;

verus! {

/// How long the unlock keys may take, and how long the host may then take to
/// start its download.
pub const UNLOCK_WINDOW_SECS: u64 = 10;

/// How long a download may stall.
pub const STALL_SECS: u64 = 30;

/// Poll interval while the unlock keys are awaited.
pub const POLL_MILLIS: u64 = 50;

/// Which keys of the matrix are down.
pub struct MatrixState {
    pub cols: usize,
    /// Row by row.
    pub pressed: Vec<bool>,
}

impl MatrixState {
    pub open spec fn wf(&self) -> bool {
        self.pressed@.len() <= usize::MAX && self.cols > 0 && 256 * self.cols + 256 <= usize::MAX
    }

    pub open spec fn is_pressed(&self, row: u8, col: u8) -> bool {
        let i = row * self.cols + col;
        col < self.cols && i < self.pressed@.len() && self.pressed@[i as int]
    }

    /// Whether a key is down. A position outside the matrix is not.
    pub fn read_matrix_key(&self, row: u8, col: u8) -> (r: bool)
        requires
            self.wf(),
        ensures
            r == self.is_pressed(row, col),
    {
        if (col as usize) >= self.cols {
            return false;
        }
        proof {
            assert(row * self.cols <= 256 * self.cols) by (nonlinear_arith)
                requires
                    row <= 256,
                    self.cols >= 0,
            ;
        }
        let i: usize = row as usize * self.cols + col as usize;
        if i >= self.pressed.len() {
            return false;
        }
        self.pressed[i]
    }
}

/// What a [`DfuLock`] is at. Deadlines are points in time.
#[derive(Clone, Copy, Debug, PartialEq, Eq, Structural)]
pub enum LockPhase {
    /// Waits for a download attempt.
    Waiting,
    /// Polls for the unlock keys.
    Polling { deadline: Instant },
    /// Unlocked; waits for the download to start.
    Unlocked { deadline: Instant },
    /// The download runs.
    Downloading { deadline: Instant },
}

pub open spec fn in_secs(now: Instant, secs: u64) -> Instant {
    Instant { ticks: (now.ticks + secs * TICK_HZ) as u64 }
}

/// Whether downloads are refused in a phase.
pub open spec fn is_locked(phase: LockPhase) -> bool {
    match phase {
        LockPhase::Waiting | LockPhase::Polling { .. } => true,
        LockPhase::Unlocked { .. } | LockPhase::Downloading { .. } => false,
    }
}

/// Phase and status to publish after a command. The window in which the host may
/// begin ends with the download's start, and a download ends with its finish or a
/// reset; other commands leave phase and deadline as they are.
pub open spec fn after_command(phase: LockPhase, cmd: DfuCmd, now: Instant) -> (
    LockPhase,
    Option<DfuStatus>,
) {
    match phase {
        LockPhase::Waiting => match cmd {
            DfuCmd::UnlockRequest => (
                LockPhase::Polling { deadline: in_secs(now, UNLOCK_WINDOW_SECS) },
                Some(DfuStatus::LockWaiting),
            ),
            _ => (phase, None),
        },
        LockPhase::Polling { .. } => (phase, None),
        LockPhase::Unlocked { .. } => match cmd {
            DfuCmd::Start(_) => (
                LockPhase::Downloading { deadline: in_secs(now, STALL_SECS) },
                None,
            ),
            _ => (phase, None),
        },
        LockPhase::Downloading { .. } => match cmd {
            DfuCmd::Write(_, _, _) => (
                LockPhase::Downloading { deadline: in_secs(now, STALL_SECS) },
                None,
            ),
            DfuCmd::Finish(_) | DfuCmd::SystemReset(_) => (
                LockPhase::Waiting,
                Some(DfuStatus::Idle),
            ),
            _ => (phase, None),
        },
    }
}

/// Phase and status to publish after a poll of the matrix.
pub open spec fn after_poll(phase: LockPhase, all_pressed: bool, now: Instant) -> (
    LockPhase,
    Option<DfuStatus>,
) {
    match phase {
        LockPhase::Polling { deadline } => if all_pressed {
            (
                LockPhase::Unlocked { deadline: in_secs(now, UNLOCK_WINDOW_SECS) },
                Some(DfuStatus::LockUnlocked),
            )
        } else if now.ticks >= deadline.ticks {
            (LockPhase::Waiting, Some(DfuStatus::Idle))
        } else {
            (phase, None)
        },
        _ => (phase, None),
    }
}

/// Phase and status to publish when the deadline of a phase passes.
pub open spec fn after_timeout(phase: LockPhase) -> (LockPhase, Option<DfuStatus>) {
    match phase {
        LockPhase::Unlocked { .. } | LockPhase::Downloading { .. } => (
            LockPhase::Waiting,
            Some(DfuStatus::Idle),
        ),
        _ => (phase, None),
    }
}

/// A clock reading that leaves room for the deadlines set from it.
pub open spec fn clock_ok(now: Instant) -> bool {
    now.ticks + STALL_SECS * TICK_HZ <= u64::MAX
}

/// Physical-key gate that prevents accidental or unauthorised DFU downloads.
///
/// A download attempt opens a 10 s unlock window in which the matrix is polled
/// every 50 ms for the key combination in `unlock_keys`. Once all listed keys
/// are pressed simultaneously the lock opens, and the host must begin the
/// download within another 10 s, otherwise the lock engages again.
pub struct DfuLock<'a> {
    unlock_keys: &'a [(u8, u8)],
    phase: LockPhase,
}

impl<'a> DfuLock<'a> {
    pub closed spec fn keys(&self) -> Seq<(u8, u8)> {
        self.unlock_keys@
    }

    pub closed spec fn spec_phase(&self) -> LockPhase {
        self.phase
    }

    /// Create a new DFU lock.
    ///
    /// `unlock_keys` lists matrix positions `(row, col)` that must all be held
    /// down simultaneously to unlock DFU.
    pub fn new(unlock_keys: &'a [(u8, u8)]) -> (r: Self)
        ensures
            r.keys() == unlock_keys@,
            r.spec_phase() == LockPhase::Waiting,
    {
        DfuLock { unlock_keys, phase: LockPhase::Waiting }
    }

    pub fn phase(&self) -> (r: LockPhase)
        ensures
            r == self.spec_phase(),
    {
        self.phase
    }

    /// Whether downloads are refused.
    pub fn locked(&self) -> (r: bool)
        ensures
            r == is_locked(self.spec_phase()),
    {
        match self.phase {
            LockPhase::Waiting => true,
            LockPhase::Polling { .. } => true,
            LockPhase::Unlocked { .. } => false,
            LockPhase::Downloading { .. } => false,
        }
    }

    /// Whether all unlock keys are down.
    pub fn all_pressed(&self, matrix: &MatrixState) -> (r: bool)
        requires
            matrix.wf(),
        ensures
            r == forall|i: int|
                0 <= i < self.keys().len() ==> matrix.is_pressed(
                    (#[trigger] self.keys()[i]).0,
                    self.keys()[i].1,
                ),
    {
        let mut i: usize = 0;
        while i < self.unlock_keys.len()
            invariant
                matrix.wf(),
                i <= self.unlock_keys@.len(),
                self.keys() == self.unlock_keys@,
                forall|j: int|
                    0 <= j < i ==> matrix.is_pressed(
                        (#[trigger] self.keys()[j]).0,
                        self.keys()[j].1,
                    ),
            decreases self.unlock_keys@.len() - i,
        {
            let (row, col) = self.unlock_keys[i];
            if !matrix.read_matrix_key(row, col) {
                assert(!matrix.is_pressed(self.keys()[i as int].0, self.keys()[i as int].1));
                return false;
            }
            i = i + 1;
        }
        true
    }

    /// Whether the lock takes commands in. While it polls the matrix it does not:
    /// they stay queued until it is done.
    pub fn takes_commands(&self) -> (r: bool)
        ensures
            r == !(self.spec_phase() is Polling),
    {
        match self.phase {
            LockPhase::Polling { .. } => false,
            _ => true,
        }
    }

    /// Takes in a DFU command at time `now`. The status to publish, if any.
    pub fn on_command(&mut self, cmd: &DfuCmd, now: Instant) -> (r: Option<DfuStatus>)
        requires
            clock_ok(now),
        ensures
            final(self).keys() == old(self).keys(),
            (final(self).spec_phase(), r) == after_command(old(self).spec_phase(), *cmd, now),
    {
        match self.phase {
            LockPhase::Waiting => match cmd {
                DfuCmd::UnlockRequest => {
                    let deadline = now.after(Duration::from_secs(UNLOCK_WINDOW_SECS));
                    self.phase = LockPhase::Polling { deadline };
                    Some(DfuStatus::LockWaiting)
                },
                _ => None,
            },
            LockPhase::Polling { .. } => None,
            LockPhase::Unlocked { .. } => match cmd {
                DfuCmd::Start(_) => {
                    let deadline = now.after(Duration::from_secs(STALL_SECS));
                    self.phase = LockPhase::Downloading { deadline };
                    None
                },
                _ => None,
            },
            LockPhase::Downloading { .. } => match cmd {
                DfuCmd::Write(_, _, _) => {
                    let deadline = now.after(Duration::from_secs(STALL_SECS));
                    self.phase = LockPhase::Downloading { deadline };
                    None
                },
                DfuCmd::Finish(_) => {
                    self.phase = LockPhase::Waiting;
                    Some(DfuStatus::Idle)
                },
                DfuCmd::SystemReset(_) => {
                    self.phase = LockPhase::Waiting;
                    Some(DfuStatus::Idle)
                },
                _ => None,
            },
        }
    }

    /// Polls the matrix at time `now`. The status to publish, if any.
    pub fn poll(&mut self, matrix: &MatrixState, now: Instant) -> (r: Option<DfuStatus>)
        requires
            matrix.wf(),
            clock_ok(now),
        ensures
            final(self).keys() == old(self).keys(),
            (final(self).spec_phase(), r) == after_poll(
                old(self).spec_phase(),
                forall|i: int|
                    0 <= i < old(self).keys().len() ==> matrix.is_pressed(
                        (#[trigger] old(self).keys()[i]).0,
                        old(self).keys()[i].1,
                    ),
                now,
            ),
    {
        match self.phase {
            LockPhase::Polling { deadline } => {
                let all = self.all_pressed(matrix);
                if all {
                    let deadline = now.after(Duration::from_secs(UNLOCK_WINDOW_SECS));
                    self.phase = LockPhase::Unlocked { deadline };
                    Some(DfuStatus::LockUnlocked)
                } else if now.ticks >= deadline.ticks {
                    self.phase = LockPhase::Waiting;
                    Some(DfuStatus::Idle)
                } else {
                    None
                }
            },
            _ => None,
        }
    }

    /// The deadline of the phase has passed. The status to publish, if any.
    pub fn on_timeout(&mut self) -> (r: Option<DfuStatus>)
        ensures
            final(self).keys() == old(self).keys(),
            (final(self).spec_phase(), r) == after_timeout(old(self).spec_phase()),
    {
        match self.phase {
            LockPhase::Unlocked { .. } => {
                self.phase = LockPhase::Waiting;
                Some(DfuStatus::Idle)
            },
            LockPhase::Downloading { .. } => {
                self.phase = LockPhase::Waiting;
                Some(DfuStatus::Idle)
            },
            _ => None,
        }
    }
}

/// A transport's answer to a refused download.
#[derive(Clone, Copy, Debug, PartialEq, Eq, Structural)]
pub enum DfuRefusal {
    /// The vendor-specific DFU error.
    ErrVendor,
}

/// Gate shared by the transport's DFU start handlers. `Ok` when a download may
/// proceed; while the keys are locked the download is refused, and the command
/// that comes back wakes the unlock state machine.
pub fn dfu_lock_check(locked: bool) -> (r: Result<(), (DfuRefusal, DfuCmd)>)
    ensures
        r == if locked {
            Err((DfuRefusal::ErrVendor, DfuCmd::UnlockRequest))
        } else {
            Ok(())
        },
{
    if locked {
        Err((DfuRefusal::ErrVendor, DfuCmd::UnlockRequest))
    } else {
        Ok(())
    }
}

// ---------------------------------------------------------------------------
// Laws
// ---------------------------------------------------------------------------

/// The lock opens only on a poll that sees all unlock keys down within the
/// unlock window. No command and no timeout opens it.
pub proof fn law_only_the_keys_unlock(
    phase: LockPhase,
    cmd: DfuCmd,
    all_pressed: bool,
    now: Instant,
)
    requires
        is_locked(phase),
    ensures
        is_locked(after_command(phase, cmd, now).0),
        is_locked(after_timeout(phase).0),
        !is_locked(after_poll(phase, all_pressed, now).0) ==> all_pressed && phase is Polling,
{
}

/// Every way out of an open lock engages it again: the deadline of either phase does,
/// and of the commands exactly those that end a download.
pub proof fn law_every_exit_locks_again(phase: LockPhase, cmd: DfuCmd, now: Instant)
    requires
        !is_locked(phase),
    ensures
        is_locked(after_timeout(phase).0),
        after_timeout(phase).1 == Some(DfuStatus::Idle),
        is_locked(after_command(phase, cmd, now).0) <==> phase is Downloading && (cmd is Finish
            || cmd is SystemReset),
        is_locked(after_command(phase, cmd, now).0) ==> after_command(phase, cmd, now) == (
            LockPhase::Waiting,
            Some(DfuStatus::Idle),
        ),
{
}

/// Phase after some commands, each with the time at which it came.
pub open spec fn after_commands(phase: LockPhase, cmds: Seq<(DfuCmd, Instant)>) -> LockPhase
    decreases cmds.len(),
{
    if cmds.len() == 0 {
        phase
    } else {
        after_command(after_commands(phase, cmds.drop_last()), cmds.last().0, cmds.last().1).0
    }
}

/// Nothing but the start of a download uses the host's window up: whatever other
/// commands come first, an open lock is still open at the start, and the download
/// then has its full time.
pub proof fn law_the_host_keeps_its_window(
    deadline: Instant,
    cmds: Seq<(DfuCmd, Instant)>,
    target: DfuTarget,
    now: Instant,
)
    requires
        forall|i: int| 0 <= i < cmds.len() ==> !((#[trigger] cmds[i]).0 is Start),
    ensures
        after_commands(LockPhase::Unlocked { deadline }, cmds) == (LockPhase::Unlocked {
            deadline,
        }),
        after_command(
            after_commands(LockPhase::Unlocked { deadline }, cmds),
            DfuCmd::Start(target),
            now,
        ).0 == (LockPhase::Downloading { deadline: in_secs(now, STALL_SECS) }),
    decreases cmds.len(),
{
    if cmds.len() > 0 {
        let earlier = cmds.drop_last();
        assert forall|i: int| 0 <= i < earlier.len() implies !((#[trigger] earlier[i]).0 is Start) by {
            assert(earlier[i] == cmds[i]);
        }
        law_the_host_keeps_its_window(deadline, earlier, target, now);
    }
}

/// The lock is engaged until the keys have unlocked it: it is open from then to the end of the
/// download.
pub proof fn law_the_lock_is_open_from_unlock_to_finish(deadline: Instant)
    ensures
        is_locked(LockPhase::Waiting),
        is_locked(LockPhase::Polling { deadline }),
        !is_locked(LockPhase::Unlocked { deadline }),
        !is_locked(LockPhase::Downloading { deadline }),
{
}

/// A download attempt is the one command that opens the unlock window, for ten seconds, and it
/// does so only where the lock waits. Within the window the keys open the lock for another ten
/// seconds; at its end the lock waits again.
pub proof fn law_an_attempt_opens_the_unlock_window(cmd: DfuCmd, opened: Instant, now: Instant)
    requires
        clock_ok(opened),
        clock_ok(now),
    ensures
        ({
            let (phase, status) = after_command(LockPhase::Waiting, cmd, opened);
            if cmd is UnlockRequest {
                &&& status == Some(DfuStatus::LockWaiting)
                &&& phase matches LockPhase::Polling { deadline } && deadline.ticks == opened.ticks
                    + 10_000_000
                &&& after_poll(phase, false, now).0 is Waiting <==> now.ticks >= opened.ticks
                    + 10_000_000
                &&& now.ticks >= opened.ticks + 10_000_000 ==> after_poll(phase, false, now).1
                    == Some(DfuStatus::Idle)
                &&& now.ticks < opened.ticks + 10_000_000 ==> after_poll(phase, false, now) == (
                    phase,
                    None::<DfuStatus>,
                )
                &&& after_poll(phase, true, now).1 == Some(DfuStatus::LockUnlocked)
                &&& after_poll(phase, true, now).0 matches LockPhase::Unlocked { deadline }
                    && deadline.ticks == now.ticks + 10_000_000
            } else {
                phase is Waiting && status is None
            }
        }),
{
}

/// A download may stall for thirty seconds: its start and each block set the time afresh, and
/// nothing else does.
pub proof fn law_each_block_renews_the_stall_time(deadline: Instant, cmd: DfuCmd, now: Instant)
    requires
        clock_ok(now),
    ensures
        after_command(LockPhase::Unlocked { deadline }, cmd, now).1 is None,
        cmd is Start ==> (after_command(LockPhase::Unlocked { deadline }, cmd, now).0 matches
            LockPhase::Downloading { deadline: until } && until.ticks == now.ticks + 30_000_000),
        cmd is Write ==> (after_command(LockPhase::Downloading { deadline }, cmd, now).0 matches
            LockPhase::Downloading { deadline: until } && until.ticks == now.ticks + 30_000_000),
        cmd is Start || cmd is UnlockRequest || cmd is ComputeCrc ==> after_command(
            LockPhase::Downloading { deadline },
            cmd,
            now,
        ) == (LockPhase::Downloading { deadline }, None::<DfuStatus>),
{
}

/// A key is told by its row and column: two keys of the matrix never share an entry, and a key
/// beyond a row's end or below the last row is never down.
pub proof fn law_each_key_has_its_own_entry(
    m: MatrixState,
    row: u8,
    col: u8,
    other_row: u8,
    other_col: u8,
)
    requires
        m.wf(),
        m.is_pressed(row, col),
    ensures
        col < m.cols,
        other_col < m.cols && (row, col) != (other_row, other_col) ==> row * m.cols + col
            != other_row * m.cols + other_col,
        m.pressed@[row * m.cols + col],
{
    if other_col < m.cols && row * m.cols + col == other_row * m.cols + other_col {
        assert(row == other_row) by (nonlinear_arith)
            requires
                0 <= col < m.cols,
                0 <= other_col < m.cols,
                row * m.cols + col == other_row * m.cols + other_col,
        ;
    }
}

/// A request is let through exactly while the device is unlocked; otherwise it is refused and the
/// unlocking begins.
pub proof fn law_a_locked_device_refuses(locked: bool, r: Result<(), (DfuRefusal, DfuCmd)>)
    requires
        dfu_lock_check.ensures((locked,), r),
    ensures
        r is Ok <==> !locked,
        r matches Err((refusal, cmd)) ==> refusal is ErrVendor && cmd is UnlockRequest,
{
}

} // verus!
