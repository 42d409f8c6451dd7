//! Homing.

use vstd::prelude::*;

use crate::action::Action;
use crate::config::Tuning;
use crate::door_model::{abs, DoorState, DoorView, Outcome, Sample};

verus! {

/// The ticks that homing can still take.
pub open spec fn homing_ticks_left(state: DoorState, tuning: Tuning) -> int {
    match state {
        DoorState::Homing { timeout_ticks, .. } => if tuning.calibration_timeout_ticks
            > timeout_ticks {
            tuning.calibration_timeout_ticks - timeout_ticks
        } else {
            1
        },
        _ => 0,
    }
}

/// One more tick of homing.
proof fn lemma_homing_step(door: DoorView, samples: Seq<Sample>)
    requires
        samples.len() > 0,
        door.run(samples.drop_last()).calibration is None,
        door.run(samples.drop_last()).state is Homing,
    ensures
        door.run(samples).calibration is None,
        door.run(samples).tuning == door.run(samples.drop_last()).tuning,
        door.run(samples).state matches DoorState::Homing { timeout_ticks, .. } ==> {
            &&& timeout_ticks == door.run(samples.drop_last()).state->timeout_ticks + 1
            &&& timeout_ticks < door.run(samples.drop_last()).tuning.calibration_timeout_ticks
        },
{
    door.lemma_run(samples);
}

/// The door keeps homing through all of the ticks but the last.
proof fn lemma_homing_runs_down(door: DoorView, samples: Seq<Sample>)
    requires
        door.calibration is None,
        door.state is Homing,
        forall|k: int|
            0 <= k <= samples.len() ==> door.run(#[trigger] samples.take(k)).state is Homing,
    ensures
        door.run(samples).calibration is None,
        door.run(samples).tuning == door.tuning,
        homing_ticks_left(door.run(samples).state, door.tuning) == homing_ticks_left(
            door.state,
            door.tuning,
        ) - samples.len(),
        homing_ticks_left(door.run(samples).state, door.tuning) >= 1,
    decreases samples.len(),
{
    door.lemma_run(seq![]);
    assert(samples.take(samples.len() as int) =~= samples);
    if samples.len() > 0 {
        let front = samples.drop_last();
        assert forall|k: int| 0 <= k <= front.len() implies door.run(
            #[trigger] front.take(k),
        ).state is Homing by {
            assert(front.take(k) =~= samples.take(k));
        }
        assert(samples.take(samples.len() - 1) =~= front);
        lemma_homing_runs_down(door, front);
        lemma_homing_step(door, samples);
    } else {
        assert(samples =~= seq![]);
    }
}

/// Homing starts whatever the door was doing, calibration included: it has no
/// target, and the next tick finds it homing, or done with it.
pub proof fn law_homing_starts(door: DoorView, s: Sample)
    requires
        door.wf(),
    ensures
        door.start_homing().door.state == (DoorState::Homing { stall_count: 0, timeout_ticks: 0 }),
        door.start_homing().door.target is None,
        door.start_homing().door.calibration is None,
        ({
            let after = door.start_homing().door.tick(s).door;
            &&& after.state is Homing || after.state is Stopping || after.state is Idle
            &&& after.calibration is None
        }),
{
}

/// Homing ends: within the timeout it finds the stop or gives up.
pub proof fn law_homing_ends(door: DoorView, samples: Seq<Sample>)
    requires
        door.calibration is None,
        door.state is Homing,
        samples.len() >= homing_ticks_left(door.state, door.tuning),
    ensures
        exists|k: int|
            0 < k <= homing_ticks_left(door.state, door.tuning) && !(door.run(
                #[trigger] samples.take(k),
            ).state is Homing),
{
    door.lemma_run(seq![]);
    let n = homing_ticks_left(door.state, door.tuning);
    let s = samples.take(n);
    if forall|k: int| 0 <= k <= n ==> door.run(#[trigger] s.take(k)).state is Homing {
        lemma_homing_runs_down(door, s);
    } else {
        let k = choose|k: int|
            0 <= k <= n && !(door.run(#[trigger] s.take(k)).state is Homing);
        assert(s.take(k) =~= samples.take(k));
        assert(samples.take(0) =~= seq![]);
    }
}

/// Homing that ends leaves the encoder at zero and the power off, and the door
/// coming to a stop, or idle if no stop was found in time.
pub proof fn law_homing_zeroes_encoder(door: DoorView, s: Sample)
    requires
        door.calibration is None,
        door.state is Homing,
        !(door.tick(s).door.state is Homing),
    ensures
        door.tick(s).actions.contains(Action::ResetEncoder),
        door.tick(s).door.state is Stopping || door.tick(s).door.state is Idle,
        door.tick(s).door.state is Stopping ==> door.stuck(s),
        !door.tick(s).door.motor.awake,
        door.tick(s).door.motor.power() == 0,
        door.tick(s).door.opening_counts == door.opening_counts,
{
    let halted = Outcome::quiet(DoorView { last_pos: 0, ..door }).halt().actions;
    assert(halted.push(Action::ResetEncoder)[halted.len() as int] == Action::ResetEncoder);
    assert(door.tick(s).actions[halted.len() as int] == Action::ResetEncoder);
}

/// The position before sample `i`.
pub open spec fn previous(door: DoorView, samples: Seq<Sample>, i: int) -> int {
    if i == 0 {
        door.last_pos as int
    } else {
        samples[i - 1].pos as int
    }
}

/// The position changes by no more than the dead zone from each sample to the
/// next.
pub open spec fn standing(door: DoorView, samples: Seq<Sample>) -> bool {
    forall|i: int|
        0 <= i < samples.len() ==> abs(
            (#[trigger] samples[i]).pos - previous(door, samples, i),
        ) <= door.tuning.dead_zone
}

pub(crate) proof fn lemma_standing_prefix(door: DoorView, samples: Seq<Sample>)
    requires
        samples.len() > 0,
        standing(door, samples),
    ensures
        standing(door, samples.drop_last()),
        abs(samples.last().pos - previous(door, samples, samples.len() - 1))
            <= door.tuning.dead_zone,
{
    let front = samples.drop_last();
    assert forall|i: int| 0 <= i < front.len() implies abs(
        (#[trigger] front[i]).pos - previous(door, front, i),
    ) <= door.tuning.dead_zone by {
        assert(front[i] == samples[i]);
        assert(previous(door, front, i) == previous(door, samples, i));
    }
    assert(samples[samples.len() - 1] == samples.last());
}

/// The no-motion ticks after which a stall is found.
pub open spec fn stall_left(stall_count: u32, limit: u32) -> int {
    if limit > stall_count {
        limit - stall_count
    } else {
        1
    }
}

proof fn lemma_homing_stalls_add_up(door: DoorView, samples: Seq<Sample>)
    requires
        door.calibration is None,
        door.state is Homing,
        standing(door, samples),
        samples.len() < stall_left(door.state->stall_count, door.tuning.stall_ticks),
        door.state->timeout_ticks + samples.len() < door.tuning.calibration_timeout_ticks,
    ensures
        door.run(samples).calibration is None,
        door.run(samples).tuning == door.tuning,
        door.run(samples).last_pos == previous(door, samples, samples.len() as int),
        door.run(samples).state == (DoorState::Homing {
            stall_count: (door.state->stall_count + samples.len()) as u32,
            timeout_ticks: (door.state->timeout_ticks + samples.len()) as u32,
        }),
    decreases samples.len(),
{
    door.lemma_run(samples);
    if samples.len() > 0 {
        let front = samples.drop_last();
        lemma_standing_prefix(door, samples);
        lemma_homing_stalls_add_up(door, front);
        assert(previous(door, front, front.len() as int) == previous(
            door,
            samples,
            samples.len() - 1,
        ));
        assert(door.run(front).stuck(samples.last()));
    }
}

/// Homing finds the stop: a door that stands still for long enough before the
/// timeout has its encoder set to zero and comes to a stop with the power off.
pub proof fn law_homing_finds_stop(door: DoorView, samples: Seq<Sample>)
    requires
        door.calibration is None,
        door.state is Homing,
        standing(door, samples),
        samples.len() == stall_left(door.state->stall_count, door.tuning.stall_ticks),
        door.state->timeout_ticks + samples.len() < door.tuning.calibration_timeout_ticks,
    ensures
        door.run(samples).state is Stopping,
        door.run(samples).target is None,
        !door.run(samples).motor.awake,
        door.run(samples).motor.power() == 0,
        door.run(samples.drop_last()).tick(samples.last()).actions.contains(Action::ResetEncoder),
{
    let front = samples.drop_last();
    door.lemma_run(samples);
    lemma_standing_prefix(door, samples);
    lemma_homing_stalls_add_up(door, front);
    assert(previous(door, front, front.len() as int) == previous(door, samples, samples.len() - 1));
    assert(door.run(front).stuck(samples.last()));
    assert(door.run(samples).state is Stopping);
    law_homing_zeroes_encoder(door.run(front), samples.last());
}

/// A door that keeps moving goes on homing, and a stall has to be unbroken.
pub proof fn law_motion_restarts_homing_stall(door: DoorView, s: Sample)
    requires
        door.calibration is None,
        door.state is Homing,
        door.tick(s).door.state is Homing,
    ensures
        door.tick(s).door.state->stall_count == (if door.stuck(s) {
            door.state->stall_count + 1
        } else {
            0
        }),
        door.tick(s).door.state->timeout_ticks == door.state->timeout_ticks + 1,
        door.tick(s).actions.len() == 0,
        door.tick(s).door.motor == door.motor,
{
}

} // verus!
