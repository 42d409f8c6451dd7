//! Positions and percentages.

use vstd::prelude::*;

use crate::door_laws::plainly::target_position;
use crate::door_model::{abs, percent, quotient, DoorView};

verus! {

/// A quotient by a positive number lies between zero and any bound that the
/// dividend respects.
pub proof fn lemma_quotient_bounds(a: int, d: int, n: int)
    requires
        d > 0,
        n >= 0,
        -(n * d) <= a <= n * d,
    ensures
        a >= 0 ==> 0 <= quotient(a, d) <= n,
        a <= 0 ==> -n <= quotient(a, d) <= 0,
{
    let m = abs(a);
    assert(0 <= m / d <= n) by (nonlinear_arith)
        requires
            d > 0,
            n >= 0,
            0 <= m <= n * d,
    ;
}

/// The position that a percentage stands for lies between the endstops; 0 is
/// the closed endstop and 100 is the open one.
pub proof fn law_target_between_endstops(door: DoorView, pct: int)
    ensures
        door.opening_counts >= 0 ==> 0 <= door.pct_to_counts(pct) <= door.opening_counts,
        door.opening_counts <= 0 ==> door.opening_counts <= door.pct_to_counts(pct) <= 0,
        pct <= 0 ==> door.pct_to_counts(pct) == 0,
        pct >= 100 ==> door.pct_to_counts(pct) == door.opening_counts,
{
    let p = percent(pct);
    let opening = door.opening_counts as int;
    if opening >= 0 {
        assert(0 <= p * opening <= opening * 100) by (nonlinear_arith)
            requires
                0 <= p <= 100,
                opening >= 0,
        ;
    } else {
        assert(opening * 100 <= p * opening <= 0) by (nonlinear_arith)
            requires
                0 <= p <= 100,
                opening < 0,
        ;
    }
    lemma_quotient_bounds(p * opening, 100, abs(opening));
    if pct <= 0 {
        assert(p * opening == 0) by (nonlinear_arith)
            requires
                p == 0,
        ;
    }
    if pct >= 100 {
        assert(abs(p * opening) / 100 == abs(opening)) by (nonlinear_arith)
            requires
                p == 100,
        ;
    }
}

/// A target is that share of the opening, rounded toward closed: a hundred times the
/// counts is less than a hundred counts short of the percentage of the opening.
pub proof fn law_target_position(door: DoorView, pct: int)
    requires
        0 <= pct <= 100,
    ensures
        door.pct_to_counts(pct) == target_position(door, pct),
        ({
            let opening = door.opening_counts as int;
            let counts = door.pct_to_counts(pct);
            &&& opening >= 0 ==> pct * opening - 100 < 100 * counts <= pct * opening
            &&& opening < 0 ==> pct * opening <= 100 * counts < pct * opening + 100
        }),
{
    let opening = door.opening_counts as int;
    let n = if opening >= 0 {
        opening
    } else {
        0 - opening
    };
    assert(pct * n >= 0) by (nonlinear_arith)
        requires
            pct >= 0,
            n >= 0,
    ;
    if opening < 0 {
        assert(pct * opening == 0 - pct * n) by (nonlinear_arith)
            requires
                n == 0 - opening,
        ;
        assert(pct * (0 - opening) == pct * n);
    }
    assert(abs(pct * opening) == pct * n);
    if pct * n == 0 {
        assert((pct * n) / 100 == 0);
    }
}

/// The published position is the share of the opening that the door is at, in whole
/// percent: less than one percent short of it, 0 on the closed side of the closed
/// endstop, and 100 from the open one on.
pub proof fn law_published_percentage(door: DoorView, pos: int)
    ensures
        ({
            let opening = door.opening_counts as int;
            let pct = door.counts_to_pct(pos);
            &&& opening == 0 ==> pct == 0
            &&& opening > 0 && pos <= 0 ==> pct == 0
            &&& opening > 0 && pos >= opening ==> pct == 100
            &&& 0 <= pos < opening ==> pct * opening <= 100 * pos < (pct + 1) * opening
            &&& opening < 0 && pos >= 0 ==> pct == 0
            &&& opening < 0 && pos <= opening ==> pct == 100
            &&& opening < pos <= 0 ==> pct * (0 - opening) <= 100 * (0 - pos) < (pct + 1) * (0
                - opening)
        }),
{
    let opening = door.opening_counts as int;
    if opening != 0 {
        let n = abs(opening);
        let m = abs(pos * 100);
        let q = m / n;
        assert(q * n <= m < (q + 1) * n && q >= 0) by (nonlinear_arith)
            requires
                n > 0,
                m >= 0,
                q == m / n,
        ;
        if abs(pos) >= n {
            assert(q >= 100) by (nonlinear_arith)
                requires
                    n > 0,
                    m >= 100 * n,
                    q == m / n,
            ;
        } else {
            assert(q < 100) by (nonlinear_arith)
                requires
                    n > 0,
                    m < 100 * n,
                    q == m / n,
            ;
        }
        if pos == 0 {
            assert(q == 0) by (nonlinear_arith)
                requires
                    n > 0,
                    m == 0,
                    q == m / n,
            ;
        }
    }
}

/// The drive is slowed down by the share of the ramp that is left to the target,
/// and not at all before the ramp.
pub proof fn law_ramp(door: DoorView, pos: int, target: int)
    ensures
        ({
            let ramp = door.tuning.ramp_down_counts as int;
            let left = if pos < target {
                target - pos
            } else {
                pos - target
            };
            &&& left < ramp ==> door.ramp(pos, target) == (left, ramp)
            &&& left >= ramp ==> door.ramp(pos, target) == (1int, 1int)
        }),
{
}

/// A position in percent is a percentage; the endstops are at 0 and 100.
pub proof fn law_position_is_percentage(door: DoorView, pos: int)
    ensures
        0 <= door.counts_to_pct(pos) <= 100,
        pos == 0 ==> door.counts_to_pct(pos) == 0,
        pos == door.opening_counts && door.opening_counts != 0 ==> door.counts_to_pct(pos) == 100,
{
    if door.opening_counts != 0 {
        let n = abs(door.opening_counts as int);
        if pos == 0 {
            assert(0int / n == 0) by (nonlinear_arith)
                requires
                    n > 0,
            ;
        }
        if pos == door.opening_counts {
            assert((n * 100) / n == 100) by (nonlinear_arith)
                requires
                    n > 0,
            ;
        }
    }
}

/// A door that reaches its target reports the percentage it was sent to, or one
/// less because positions are whole counts, if the opening is at least a hundred
/// counts wide.
pub proof fn law_reached_target_is_reported(door: DoorView, pct: int)
    requires
        0 <= pct <= 100,
        abs(door.opening_counts as int) >= 100,
    ensures
        pct - 1 <= door.counts_to_pct(door.pct_to_counts(pct)) <= pct,
{
    let opening = door.opening_counts as int;
    let n = abs(opening);
    let magnitude = (pct * n) / 100;
    assert(pct * n >= 0) by (nonlinear_arith)
        requires
            pct >= 0,
            n >= 0,
    ;
    assert(pct * opening == (if opening < 0 {
        -(pct * n)
    } else {
        pct * n
    })) by (nonlinear_arith)
        requires
            n == (if opening < 0 {
                -opening
            } else {
                opening
            }),
    ;
    let counts = door.pct_to_counts(pct);
    assert(abs(counts) == magnitude);
    assert(pct * n - 100 < magnitude * 100 <= pct * n);
    assert(pct - 1 <= (magnitude * 100) / n <= pct) by (nonlinear_arith)
        requires
            n >= 100,
            magnitude * 100 <= pct * n,
            pct * n - 100 < magnitude * 100,
            pct >= 0,
    ;
    assert(abs(counts * 100) == magnitude * 100);
    assert(counts == 0 || (counts < 0) == (opening < 0));
}

} // verus!
