//! Position of a quadrature encoder that a 16-bit hardware counter decodes.
//!
//! The counter counts edges between [`LOW_LIMIT`] and [`HIGH_LIMIT`]. When it
//! hits a limit it goes back to zero, and an interrupt adds the limit to a
//! 32-bit position, so that readers see the full count.

use vstd::prelude::*;

verus! {

pub const LOW_LIMIT: i16 = -100;

pub const HIGH_LIMIT: i16 = 100;

/// Pulses shorter than this many APB cycles are ignored: 10 us at 80 MHz.
pub const FILTER_VALUE: u16 = 800;

/// Largest value that the 10-bit filter holds.
pub const MAX_FILTER_VALUE: u16 = 1023;

/// The value to program into the glitch filter.
pub fn filter_value() -> (value: u16)
    ensures
        value == if FILTER_VALUE < MAX_FILTER_VALUE {
            FILTER_VALUE
        } else {
            MAX_FILTER_VALUE
        },
{
    if FILTER_VALUE < MAX_FILTER_VALUE {
        FILTER_VALUE
    } else {
        MAX_FILTER_VALUE
    }
}

/// What an interrupt that reports these limits adds to the position.
pub open spec fn step(high: bool, low: bool) -> int {
    (if high {
        HIGH_LIMIT as int
    } else {
        0
    }) + (if low {
        LOW_LIMIT as int
    } else {
        0
    })
}

pub fn limit_step(high: bool, low: bool) -> (counts: i32)
    ensures
        counts == step(high, low),
{
    let up: i32 = if high {
        HIGH_LIMIT as i32
    } else {
        0
    };
    let down: i32 = if low {
        LOW_LIMIT as i32
    } else {
        0
    };
    up + down
}

/// Position at which the hardware counter last started from zero.
pub struct Encoder {
    position: i32,
}

impl View for Encoder {
    type V = i32;

    closed spec fn view(&self) -> i32 {
        self.position
    }
}

impl Encoder {
    /// An encoder whose overflows so far add up to `position`.
    pub fn new(position: i32) -> (encoder: Self)
        ensures
            encoder@ == position,
    {
        Encoder { position }
    }

    /// Account for an interrupt, wrapping around at the ends of 32 bits.
    pub fn on_limit(&mut self, high: bool, low: bool)
        ensures
            final(self)@ == old(self)@.wrapping_add(step(high, low) as i32),
            i32::MIN <= old(self)@ + step(high, low) <= i32::MAX ==> final(self)@ == old(self)@
                + step(high, low),
    {
        self.position = self.position.wrapping_add(limit_step(high, low));
    }

    /// The current 32-bit position (overflows plus hardware counter). A counter
    /// that cannot be read counts as zero.
    pub fn read(&self, counter: Option<i16>) -> (position: i32)
        requires
            counter matches Some(c) ==> i32::MIN <= self@ + c <= i32::MAX,
        ensures
            position == self@ + (match counter {
                Some(c) => c as int,
                None => 0,
            }),
    {
        match counter {
            Some(c) => self.position + c as i32,
            None => self.position,
        }
    }

    /// Reset the position to zero; the hardware counter is cleared along with it.
    pub fn reset(&mut self)
        ensures
            final(self)@ == 0,
    {
        self.position = 0;
    }
}

// ── Laws ─────────────────────────────────────────────────────────────────────

/// The hardware counter together with the accumulated overflows.
pub struct Count {
    pub position: int,
    pub counter: int,
}

impl Count {
    pub open spec fn wf(self) -> bool {
        LOW_LIMIT < self.counter < HIGH_LIMIT
    }

    /// The count that is read.
    pub open spec fn total(self) -> int {
        self.position + self.counter
    }

    /// One edge up or down, and the interrupt if it hits a limit.
    pub open spec fn edge(self, up: bool) -> Count {
        let counter = if up {
            self.counter + 1
        } else {
            self.counter - 1
        };
        let high = counter == HIGH_LIMIT;
        let low = counter == LOW_LIMIT;
        Count {
            position: self.position + step(high, low),
            counter: if high || low {
                0
            } else {
                counter
            },
        }
    }

    /// A row of edges.
    pub open spec fn edges(self, ups: Seq<bool>) -> Count
        decreases ups.len(),
    {
        if ups.len() == 0 {
            self
        } else {
            self.edges(ups.drop_last()).edge(ups.last())
        }
    }
}

/// Edges up less edges down.
pub open spec fn net(ups: Seq<bool>) -> int
    decreases ups.len(),
{
    if ups.len() == 0 {
        0
    } else {
        net(ups.drop_last()) + (if ups.last() {
            1int
        } else {
            -1int
        })
    }
}

/// No count is lost or made up when the hardware counter overflows: the position
/// that is read moves by exactly the edges that were seen.
pub proof fn law_no_count_is_lost(count: Count, ups: Seq<bool>)
    requires
        count.wf(),
    ensures
        count.edges(ups).wf(),
        count.edges(ups).total() == count.total() + net(ups),
    decreases ups.len(),
{
    if ups.len() > 0 {
        law_no_count_is_lost(count, ups.drop_last());
    }
}

/// An interrupt adds a hundred counts for the upper limit and takes off a hundred
/// for the lower one; one that reports both, or neither, changes nothing.
pub proof fn law_limit_counts(high: bool, low: bool)
    ensures
        high == low ==> step(high, low) == 0,
        high && !low ==> step(high, low) == 100,
        low && !high ==> step(high, low) == -100,
{
}

} // verus!
