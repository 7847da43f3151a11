//! A matrix in which every key has an input pin of its own.
//!
//! A pass walks the pins in order. The caller reads each pin, asks its debouncer,
//! and hands back what it said.

use vstd::prelude::*;
use crate::time::{Duration, Instant};
use crate::types::{KeyboardEvent, KeyboardEventPos};

verus! {

/// How long a pass that saw nothing sleeps.
pub const MATRIX_IDLE_SCAN_MS: u64 = 10;

/// Pause between passes while keys are watched closely.
pub const MATRIX_ACTIVE_SCAN_US: u64 = 100;

/// What the debouncer makes of a reading.
#[derive(Clone, Copy, Debug, PartialEq, Eq, Structural)]
pub enum DebounceState {
    /// The key changed, and the change is settled.
    Debounced,
    /// A change is on its way.
    InProgress,
    /// No change.
    Ignored,
}

/// Keys with a pin each.
pub struct DirectPinMatrix<const ROW: usize, const COL: usize> {
    /// Which places of the matrix have a pin.
    pub wired: [[bool; COL]; ROW],
    /// Which keys are pressed.
    pub pressed: [[bool; COL]; ROW],
    /// When a pressed key was last seen, where waiting for a pin's interrupt is
    /// possible.
    pub scan_start: Option<Instant>,
    /// Whether a pressed key pulls its pin low.
    pub low_active: bool,
    /// Where the next pass starts.
    pub scan_pos: (usize, usize),
    /// Where the running pass is.
    pub cursor: (usize, usize),
    /// Whether the running pass saw a key that is held or bouncing.
    pub any_active: bool,
    /// Where the matrix lies in the keymap.
    pub row_offset: usize,
    pub col_offset: usize,
}

/// The first pin from a place on, row by row, each row from column `start`.
pub open spec fn next_wired<const ROW: usize, const COL: usize>(
    wired: Seq<[bool; COL]>,
    row: int,
    col: int,
    start: int,
) -> Option<(int, int)>
    decreases ROW - row, COL - col,
{
    if row < 0 || col < 0 || start < 0 || row >= ROW {
        None
    } else if col >= COL {
        next_wired::<ROW, COL>(wired, row + 1, start, start)
    } else if wired[row]@[col] {
        Some((row, col))
    } else {
        next_wired::<ROW, COL>(wired, row, col + 1, start)
    }
}

impl<const ROW: usize, const COL: usize> DirectPinMatrix<ROW, COL> {
    /// Places in the keymap can be told.
    pub open spec fn wf(self) -> bool {
        &&& ROW + self.row_offset <= usize::MAX
        &&& COL + self.col_offset <= usize::MAX
    }

    pub open spec fn is_pressed(self, row: int, col: int) -> bool {
        self.pressed@[row]@[col]
    }

    /// A matrix with no key pressed.
    pub fn new(
        wired: [[bool; COL]; ROW],
        low_active: bool,
        row_offset: usize,
        col_offset: usize,
    ) -> (r: Self)
        requires
            ROW + row_offset <= usize::MAX,
            COL + col_offset <= usize::MAX,
        ensures
            r.wf(),
            r.wired == wired,
            forall|i: int, j: int| 0 <= i < ROW && 0 <= j < COL ==> !#[trigger] r.is_pressed(i, j),
            r.scan_start is None,
            r.low_active == low_active,
            r.scan_pos == (0usize, 0usize),
            r.cursor == (0usize, 0usize),
            !r.any_active,
            r.row_offset == row_offset,
            r.col_offset == col_offset,
    {
        DirectPinMatrix {
            wired,
            pressed: [[false;COL];ROW],
            scan_start: None,
            low_active,
            scan_pos: (0, 0),
            cursor: (0, 0),
            any_active: false,
            row_offset,
            col_offset,
        }
    }

    /// Whether a reading of a pin means that the key is down. A pin that cannot be
    /// read counts as not pressed.
    pub fn pin_state(&self, is_low: Option<bool>, is_high: Option<bool>) -> (r: bool)
        ensures
            r == if self.low_active {
                is_low == Some(true)
            } else {
                is_high == Some(true)
            },
    {
        let level = if self.low_active {
            is_low
        } else {
            is_high
        };
        match level {
            Some(active) => active,
            None => false,
        }
    }

    /// A pass starts where the last event was found, or at the first pin.
    pub fn begin_pass(&mut self)
        ensures
            *final(self) == (DirectPinMatrix {
                cursor: old(self).scan_pos,
                any_active: false,
                ..*old(self)
            }),
    {
        self.cursor = self.scan_pos;
        self.any_active = false;
    }

    /// The pin to read next, or `None` where the pass is through. Every row of a
    /// pass is walked from the column in which the pass started.
    pub fn next_pin(&self) -> (r: Option<(usize, usize)>)
        ensures
            match r {
                Some((row, col)) => {
                    &&& row < ROW && col < COL
                    &&& next_wired::<ROW, COL>(
                        self.wired@,
                        self.cursor.0 as int,
                        self.cursor.1 as int,
                        self.scan_pos.1 as int,
                    ) == Some((row as int, col as int))
                },
                None => next_wired::<ROW, COL>(
                    self.wired@,
                    self.cursor.0 as int,
                    self.cursor.1 as int,
                    self.scan_pos.1 as int,
                ) is None,
            },
    {
        let start: usize = self.scan_pos.1;
        let mut row: usize = self.cursor.0;
        let mut col: usize = self.cursor.1;
        while row < ROW
            invariant
                start == self.scan_pos.1,
                next_wired::<ROW, COL>(
                    self.wired@,
                    self.cursor.0 as int,
                    self.cursor.1 as int,
                    self.scan_pos.1 as int,
                ) == next_wired::<ROW, COL>(self.wired@, row as int, col as int, start as int),
            decreases ROW - row, if col < COL {
                COL - col
            } else {
                0
            },
        {
            if col >= COL {
                row = row + 1;
                col = start;
            } else {
                if self.wired[row][col] {
                    return Some((row, col));
                }
                col = col + 1;
            }
        }
        None
    }

    /// A pin was read and debounced at `now`. A settled change is an event, and the
    /// next pass starts from its pin; otherwise the pass goes on behind it.
    pub fn pin_read(
        &mut self,
        row: usize,
        col: usize,
        debounce_state: DebounceState,
        now: Instant,
    ) -> (r: Option<KeyboardEvent>)
        requires
            old(self).wf(),
            row < ROW,
            col < COL,
        ensures
            final(self).wf(),
            final(self).wired == old(self).wired,
            final(self).low_active == old(self).low_active,
            final(self).row_offset == old(self).row_offset,
            final(self).col_offset == old(self).col_offset,
            forall|i: int, j: int|
                0 <= i < ROW && 0 <= j < COL ==> #[trigger] final(self).is_pressed(i, j) == if i
                    == row && j == col && debounce_state is Debounced {
                    !old(self).is_pressed(i, j)
                } else {
                    old(self).is_pressed(i, j)
                },
            ({
                let down = old(self).is_pressed(row as int, col as int);
                if debounce_state is Debounced {
                    &&& r == Some(
                        KeyboardEvent {
                            pos: KeyboardEventPos::Key {
                                row: (row + old(self).row_offset) as u8,
                                col: (col + old(self).col_offset) as u8,
                            },
                            pressed: !down,
                        },
                    )
                    &&& final(self).scan_pos == (row, col)
                    &&& final(self).cursor == old(self).cursor
                    &&& final(self).scan_start == old(self).scan_start
                    &&& final(self).any_active == old(self).any_active
                } else {
                    &&& r is None
                    &&& final(self).scan_pos == old(self).scan_pos
                    &&& final(self).cursor == (row, (col + 1) as usize)
                    &&& final(self).scan_start == if down {
                        Some(now)
                    } else {
                        old(self).scan_start
                    }
                    &&& final(self).any_active == (old(self).any_active || down
                        || debounce_state is InProgress)
                }
            }),
    {
        let mut keys = self.pressed[row];
        let down = keys[col];
        match debounce_state {
            DebounceState::Debounced => {
                keys[col] = !down;
                self.pressed[row] = keys;
                self.scan_pos = (row, col);
                Some(
                    KeyboardEvent::key(
                        #[verifier::truncate]
                        ((row + self.row_offset) as u8),
                        #[verifier::truncate]
                        ((col + self.col_offset) as u8),
                        !down,
                    ),
                )
            },
            _ => {
                self.cursor = (row, col + 1);
                // As long as a key is pressed, keep the scan going.
                if down {
                    self.scan_start = Some(now);
                }
                let bouncing = match debounce_state {
                    DebounceState::InProgress => true,
                    _ => false,
                };
                if down || bouncing {
                    self.any_active = true;
                }
                None
            },
        }
    }

    /// The pass is through: how long to pause before the next one, which starts from
    /// the first pin. Where nothing waits for interrupts, a pass that saw no key held
    /// or bouncing sleeps longer, so that the CPU can sleep.
    pub fn end_pass(&mut self, waits_for_interrupt: bool) -> (r: Duration)
        ensures
            *final(self) == (DirectPinMatrix { scan_pos: (0, 0), ..*old(self) }),
            r.ticks == if waits_for_interrupt || old(self).any_active {
                MATRIX_ACTIVE_SCAN_US
            } else {
                (MATRIX_IDLE_SCAN_MS * 1000) as u64
            },
    {
        self.scan_pos = (0, 0);
        if waits_for_interrupt || self.any_active {
            Duration::from_micros(MATRIX_ACTIVE_SCAN_US)
        } else {
            Duration::from_millis(MATRIX_IDLE_SCAN_MS)
        }
    }

    /// Whether to wait for a pin's interrupt before the next pass: where no pressed
    /// key was seen for over a millisecond.
    pub fn wait_for_key(&mut self, now: Instant) -> (r: bool)
        ensures
            r == match old(self).scan_start {
                Some(start) => (if now.ticks >= start.ticks {
                    (now.ticks - start.ticks) / 1000
                } else {
                    0
                }) > 1,
                None => true,
            },
            *final(self) == if r {
                DirectPinMatrix { scan_start: None, ..*old(self) }
            } else {
                *old(self)
            },
    {
        if let Some(start) = self.scan_start {
            if now.saturating_duration_since(start).ticks / 1000 <= 1 {
                return false;
            }
            self.scan_start = None;
        }
        true
    }

    /// A pin reached its active level.
    pub fn key_arrived(&mut self, now: Instant)
        ensures
            *final(self) == (DirectPinMatrix { scan_start: Some(now), ..*old(self) }),
    {
        self.scan_start = Some(now);
    }
}

// ---------------------------------------------------------------------------
// Laws
// ---------------------------------------------------------------------------

/// A pass that starts at the first pin misses none: whatever pin lies at or behind
/// the cursor, the walk comes to one that is not behind it.
pub proof fn law_a_pass_reaches_every_pin<const ROW: usize, const COL: usize>(
    wired: Seq<[bool; COL]>,
    row: int,
    col: int,
    pin: (int, int),
)
    requires
        0 <= row,
        0 <= col,
        0 <= pin.0 < ROW,
        0 <= pin.1 < COL,
        wired[pin.0]@[pin.1],
        row < pin.0 || (row == pin.0 && col <= pin.1),
    ensures
        match next_wired::<ROW, COL>(wired, row, col, 0) {
            Some((r, c)) => r < pin.0 || (r == pin.0 && c <= pin.1),
            None => false,
        },
    decreases ROW - row, if col < COL {
        COL - col
    } else {
        0
    },
{
    if col >= COL {
        law_a_pass_reaches_every_pin::<ROW, COL>(wired, row + 1, 0, pin);
    } else if !wired[row]@[col] {
        law_a_pass_reaches_every_pin::<ROW, COL>(wired, row, col + 1, pin);
    }
}

/// The walk comes to pins only, and to none before the place it goes on from.
pub proof fn law_a_pass_reads_pins_only<const ROW: usize, const COL: usize>(
    wired: Seq<[bool; COL]>,
    row: int,
    col: int,
    start: int,
)
    requires
        0 <= row,
        0 <= col,
        0 <= start,
    ensures
        next_wired::<ROW, COL>(wired, row, col, start) matches Some((r, c)) ==> {
            &&& row <= r < ROW
            &&& 0 <= c < COL
            &&& wired[r]@[c]
            &&& r == row ==> col <= c
            &&& r > row ==> start <= c
        },
    decreases ROW - row, if col < COL {
        COL - col
    } else {
        0
    },
{
    if row < ROW {
        if col >= COL {
            law_a_pass_reads_pins_only::<ROW, COL>(wired, row + 1, start, start);
        } else if !wired[row]@[col] {
            law_a_pass_reads_pins_only::<ROW, COL>(wired, row, col + 1, start);
        }
    }
}

/// A pin that cannot be read is not pressed, and a pin at one level is pressed in a matrix of one
/// polarity exactly where it is not in one of the other.
pub proof fn law_polarity_turns_a_pin_around<const ROW: usize, const COL: usize>(
    low: DirectPinMatrix<ROW, COL>,
    high: DirectPinMatrix<ROW, COL>,
    is_low: bool,
    other: Option<bool>,
    r: bool,
    s: bool,
    unread: bool,
)
    requires
        low.low_active,
        !high.low_active,
        DirectPinMatrix::<ROW, COL>::pin_state.ensures((&low, Some(is_low), Some(!is_low)), r),
        DirectPinMatrix::<ROW, COL>::pin_state.ensures((&high, Some(is_low), Some(!is_low)), s),
        DirectPinMatrix::<ROW, COL>::pin_state.ensures((&low, None, other), unread),
    ensures
        r == is_low,
        s == !r,
        !unread,
{
}

} // verus!
