//! What the control logic asks of the hardware.

use vstd::prelude::*;

verus! {

/// One hardware operation. A list of actions is performed front to back.
#[derive(Clone, Copy, Debug, PartialEq, Eq, Structural)]
pub enum Action {
    /// Duty cycle of the PWM channel on IN1 (IN/IN) or EN (PH/EN).
    SetDuty(u32),
    /// Level of IN2 (IN/IN) or PH (PH/EN).
    SetIn2(bool),
    /// Level of nSLP: high enables the bridge, low lets the motor coast.
    SetNslp(bool),
    /// Wait this many milliseconds before going on.
    WaitMs(u64),
    /// Set the encoder's position to zero.
    ResetEncoder,
}

/// Output levels of the pins that lead to the H-bridge.
pub struct Pins {
    pub duty: u32,
    pub in2_high: bool,
    pub nslp_high: bool,
}

impl Pins {
    /// The levels once `action` is performed.
    pub open spec fn after(self, action: Action) -> Pins {
        match action {
            Action::SetDuty(duty) => Pins { duty, ..self },
            Action::SetIn2(high) => Pins { in2_high: high, ..self },
            Action::SetNslp(high) => Pins { nslp_high: high, ..self },
            Action::WaitMs(_) => self,
            Action::ResetEncoder => self,
        }
    }

    /// The levels once all of `actions` are performed.
    pub open spec fn after_all(self, actions: Seq<Action>) -> Pins
        decreases actions.len(),
    {
        if actions.len() == 0 {
            self
        } else {
            self.after_all(actions.drop_last()).after(actions.last())
        }
    }

    /// Performing two lists one after the other is performing their concatenation.
    pub proof fn lemma_after_concat(self, a: Seq<Action>, b: Seq<Action>)
        ensures
            self.after_all(a + b) == self.after_all(a).after_all(b),
        decreases b.len(),
    {
        if b.len() == 0 {
            assert(a + b =~= a);
        } else {
            assert((a + b).drop_last() =~= a + b.drop_last());
            assert((a + b).last() == b.last());
            self.lemma_after_concat(a, b.drop_last());
        }
    }
}

} // verus!
