//! What a run of a reservoir is: the states that it passes through and the
//! outputs that are read off them, as far as the parts of the reservoir say.
//!
//! Each part says which results it may give. A run is a sequence of states in
//! which every step is one that the parts may take; the functions that drive
//! a reservoir promise that such a run exists and say what it starts from,
//! what it ends in and what it emits.

use vstd::prelude::*;

use crate::input_projection::{projects_one, ReservoirInputProjection};
use crate::output_projection::{reads_one, ReservoirStateProjection};
use crate::state_measurement::{measures_one, ReservoirStateMeasurement};
use crate::time_evolution::{evolves_one, ReservoirTimeEvolution};

verus! {

/// One step of a reservoir: some projection of `window` leads the time
/// evolution from `before` to `after`.
pub open spec fn drives<
    T: nalgebra::RealField + Copy,
    I: ReservoirInputProjection<T>,
    E: ReservoirTimeEvolution<T>,
>(
    projection: I,
    evolution: E,
    window: Seq<Seq<T>>,
    before: Seq<T>,
    after: Seq<T>,
) -> bool {
    exists|projected: Seq<T>| #[trigger]
        projection.projects(window, projected) && evolution.evolves(before, projected, after)
}

/// Step `k` of a trajectory: the window of `input` that starts at column `k`
/// drives state `k` to state `k + 1`.
pub open spec fn trajectory_step<
    T: nalgebra::RealField + Copy,
    I: ReservoirInputProjection<T>,
    E: ReservoirTimeEvolution<T>,
>(
    projection: I,
    evolution: E,
    input: Seq<Seq<T>>,
    states: Seq<Seq<T>>,
    k: int,
) -> bool {
    drives(
        projection,
        evolution,
        input.subrange(k, k + projection.window_len()),
        states[k],
        states[k + 1],
    )
}

/// `states` is the trajectory that the successive windows of `input` drive:
/// one state before the first window and one after each window.
pub open spec fn is_trajectory<
    T: nalgebra::RealField + Copy,
    I: ReservoirInputProjection<T>,
    E: ReservoirTimeEvolution<T>,
>(
    projection: I,
    evolution: E,
    input: Seq<Seq<T>>,
    states: Seq<Seq<T>>,
) -> bool {
    &&& states.len() + projection.window_len() == input.len() + 2
    &&& forall|k: int|
        0 <= k < states.len() - 1 ==> #[trigger] trajectory_step(
            projection,
            evolution,
            input,
            states,
            k,
        )
}

/// Driving the reservoir through every window of `input` may lead from
/// `before` to `after`.
pub open spec fn synchronizes<
    T: nalgebra::RealField + Copy,
    I: ReservoirInputProjection<T>,
    E: ReservoirTimeEvolution<T>,
>(
    projection: I,
    evolution: E,
    input: Seq<Seq<T>>,
    before: Seq<T>,
    after: Seq<T>,
) -> bool {
    exists|states: Seq<Seq<T>>|
        {
            &&& #[trigger] is_trajectory(projection, evolution, input, states)
            &&& states.first() == before
            &&& states.last() == after
        }
}

/// Synchronizing on the first `sync_steps` columns of `input` and then
/// driving on through the columns that follow may lead from `before` to
/// `after` and pass through the states `recorded` on the way.
///
/// After the synchronization every step takes the next window: the one that
/// ends with the next column of `input`. Each state that follows is
/// recorded, one for every column after the synchronization.
pub open spec fn records<
    T: nalgebra::RealField + Copy,
    I: ReservoirInputProjection<T>,
    E: ReservoirTimeEvolution<T>,
>(
    projection: I,
    evolution: E,
    input: Seq<Seq<T>>,
    sync_steps: int,
    before: Seq<T>,
    after: Seq<T>,
    recorded: Seq<Seq<T>>,
) -> bool {
    exists|states: Seq<Seq<T>>|
        {
            &&& #[trigger] is_trajectory(
                projection,
                evolution,
                input.subrange(sync_steps - projection.window_len() + 1, input.len() as int),
                states,
            )
            &&& synchronizes(
                projection,
                evolution,
                input.subrange(0, sync_steps),
                before,
                states.first(),
            )
            &&& states.last() == after
            &&& recorded == states.subrange(1, states.len() as int)
        }
}

/// A trajectory stays one when the next window drives its last state on.
pub proof fn lemma_trajectory_extends<
    T: nalgebra::RealField + Copy,
    I: ReservoirInputProjection<T>,
    E: ReservoirTimeEvolution<T>,
>(
    projection: I,
    evolution: E,
    input: Seq<Seq<T>>,
    states: Seq<Seq<T>>,
    next: Seq<T>,
)
    requires
        states.len() >= 1,
        forall|k: int|
            0 <= k < states.len() - 1 ==> #[trigger] trajectory_step(
                projection,
                evolution,
                input,
                states,
                k,
            ),
        drives(
            projection,
            evolution,
            input.subrange(states.len() - 1, states.len() - 1 + projection.window_len()),
            states.last(),
            next,
        ),
    ensures
        forall|k: int|
            0 <= k < states.len() ==> #[trigger] trajectory_step(
                projection,
                evolution,
                input,
                states.push(next),
                k,
            ),
{
    let longer = states.push(next);
    assert forall|k: int| 0 <= k < states.len() implies #[trigger] trajectory_step(
        projection,
        evolution,
        input,
        longer,
        k,
    ) by {
        if k < states.len() - 1 {
            assert(trajectory_step(projection, evolution, input, states, k));
            assert(longer[k] == states[k]);
            assert(longer[k + 1] == states[k + 1]);
        } else {
            assert(longer[k] == states.last());
            assert(longer[k + 1] == next);
        }
    }
}

/// The window that prediction step `step` feeds back into the reservoir,
/// once prediction `step` has been emitted.
///
/// It is the trailing window of what is known by then. While fewer
/// predictions are emitted than the kickstarter has columns, what is left of
/// the kickstarter stands before all predictions so far; from then on the
/// window is the newest predictions alone, the one just emitted included.
/// With a kickstarter of one column it is the prediction just emitted.
pub open spec fn feedback_window<T>(
    kickstarter: Seq<Seq<T>>,
    predictions: Seq<Seq<T>>,
    step: int,
) -> Seq<Seq<T>> {
    let r = kickstarter.len() as int;
    if step + 1 < r {
        kickstarter.subrange(step + 1, r) + predictions.subrange(0, step + 1)
    } else {
        predictions.subrange(step + 1 - r, step + 1)
    }
}

/// Once as many predictions are emitted as the kickstarter has columns, the
/// window that is fed back is made of predictions alone: the newest ones,
/// the one just emitted included. A kickstarter of other columns gives the
/// same window.
pub proof fn lemma_feedback_window_of_predictions<T>(
    kickstarter: Seq<Seq<T>>,
    other: Seq<Seq<T>>,
    predictions: Seq<Seq<T>>,
    step: int,
)
    requires
        kickstarter.len() >= 1,
        other.len() == kickstarter.len(),
        kickstarter.len() - 1 <= step < predictions.len(),
    ensures
        feedback_window(kickstarter, predictions, step) == predictions.subrange(
            step + 1 - kickstarter.len(),
            step + 1,
        ),
        feedback_window(kickstarter, predictions, step).len() == kickstarter.len(),
        forall|j: int|
            0 <= j < kickstarter.len() ==> #[trigger] feedback_window(
                kickstarter,
                predictions,
                step,
            )[j] == predictions[step + 1 - kickstarter.len() + j],
        feedback_window(kickstarter, predictions, step) == feedback_window(
            other,
            predictions,
            step,
        ),
{
}

/// Some measurement of `state` is read out as `output`.
pub open spec fn reads<
    T: nalgebra::RealField + Copy,
    M: ReservoirStateMeasurement<T>,
    P: ReservoirStateProjection<T>,
>(
    measurement: M,
    readout: P,
    state: Seq<T>,
    output: Seq<T>,
) -> bool {
    exists|measured: Seq<T>| #[trigger]
        measurement.measures(state, measured) && readout.reads_out(measured, output)
}

/// Step `step` of an autoregressive run: prediction `step` is read off state
/// `step + 1`, and the window fed back drives that state to the next.
pub open spec fn prediction_step<
    T: nalgebra::RealField + Copy,
    I: ReservoirInputProjection<T>,
    E: ReservoirTimeEvolution<T>,
    M: ReservoirStateMeasurement<T>,
    P: ReservoirStateProjection<T>,
>(
    projection: I,
    evolution: E,
    measurement: M,
    readout: P,
    kickstarter: Seq<Seq<T>>,
    states: Seq<Seq<T>>,
    predictions: Seq<Seq<T>>,
    step: int,
) -> bool {
    &&& reads(measurement, readout, states[step + 1], predictions[step])
    &&& drives(
        projection,
        evolution,
        feedback_window(kickstarter, predictions, step),
        states[step + 1],
        states[step + 2],
    )
}

/// `states` and `predictions` are an autoregressive run: the kickstarter
/// drives state 0 to state 1, and every prediction step follows.
pub open spec fn is_prediction_run<
    T: nalgebra::RealField + Copy,
    I: ReservoirInputProjection<T>,
    E: ReservoirTimeEvolution<T>,
    M: ReservoirStateMeasurement<T>,
    P: ReservoirStateProjection<T>,
>(
    projection: I,
    evolution: E,
    measurement: M,
    readout: P,
    kickstarter: Seq<Seq<T>>,
    states: Seq<Seq<T>>,
    predictions: Seq<Seq<T>>,
) -> bool {
    &&& states.len() == predictions.len() + 2
    &&& drives(projection, evolution, kickstarter, states[0], states[1])
    &&& forall|step: int|
        0 <= step < predictions.len() ==> #[trigger] prediction_step(
            projection,
            evolution,
            measurement,
            readout,
            kickstarter,
            states,
            predictions,
            step,
        )
}

/// An autoregressive run from the kickstarter may lead from `before` to
/// `after` and emit `predictions`.
pub open spec fn predicts<
    T: nalgebra::RealField + Copy,
    I: ReservoirInputProjection<T>,
    E: ReservoirTimeEvolution<T>,
    M: ReservoirStateMeasurement<T>,
    P: ReservoirStateProjection<T>,
>(
    projection: I,
    evolution: E,
    measurement: M,
    readout: P,
    kickstarter: Seq<Seq<T>>,
    before: Seq<T>,
    after: Seq<T>,
    predictions: Seq<Seq<T>>,
) -> bool {
    exists|states: Seq<Seq<T>>|
        {
            &&& #[trigger] is_prediction_run(
                projection,
                evolution,
                measurement,
                readout,
                kickstarter,
                states,
                predictions,
            )
            &&& states.first() == before
            &&& states.last() == after
        }
}

/// The window that a step feeds back reads no prediction after the step's
/// own.
pub proof fn lemma_feedback_window_of_prefix<T>(
    kickstarter: Seq<Seq<T>>,
    predictions: Seq<Seq<T>>,
    longer: Seq<Seq<T>>,
    step: int,
)
    requires
        0 <= step < predictions.len() <= longer.len(),
        predictions == longer.subrange(0, predictions.len() as int),
    ensures
        feedback_window(kickstarter, predictions, step) == feedback_window(
            kickstarter,
            longer,
            step,
        ),
{
    let r = kickstarter.len() as int;
    if step + 1 < r {
        assert(predictions.subrange(0, step + 1) =~= longer.subrange(0, step + 1));
    } else {
        assert(predictions.subrange(step + 1 - r, step + 1) =~= longer.subrange(
            step + 1 - r,
            step + 1,
        ));
    }
}

/// An autoregressive run stays one when one more prediction is read off its
/// last state and the window fed back drives that state on.
pub proof fn lemma_prediction_run_extends<
    T: nalgebra::RealField + Copy,
    I: ReservoirInputProjection<T>,
    E: ReservoirTimeEvolution<T>,
    M: ReservoirStateMeasurement<T>,
    P: ReservoirStateProjection<T>,
>(
    projection: I,
    evolution: E,
    measurement: M,
    readout: P,
    kickstarter: Seq<Seq<T>>,
    states: Seq<Seq<T>>,
    predictions: Seq<Seq<T>>,
    prediction: Seq<T>,
    next: Seq<T>,
)
    requires
        states.len() == predictions.len() + 2,
        forall|step: int|
            0 <= step < predictions.len() ==> #[trigger] prediction_step(
                projection,
                evolution,
                measurement,
                readout,
                kickstarter,
                states,
                predictions,
                step,
            ),
        reads(measurement, readout, states.last(), prediction),
        drives(
            projection,
            evolution,
            feedback_window(kickstarter, predictions.push(prediction), predictions.len() as int),
            states.last(),
            next,
        ),
    ensures
        forall|step: int|
            0 <= step < predictions.len() + 1 ==> #[trigger] prediction_step(
                projection,
                evolution,
                measurement,
                readout,
                kickstarter,
                states.push(next),
                predictions.push(prediction),
                step,
            ),
{
    let more_states = states.push(next);
    let more_predictions = predictions.push(prediction);
    assert forall|step: int| 0 <= step < predictions.len() + 1 implies #[trigger] prediction_step(
        projection,
        evolution,
        measurement,
        readout,
        kickstarter,
        more_states,
        more_predictions,
        step,
    ) by {
        if step < predictions.len() {
            assert(prediction_step(
                projection,
                evolution,
                measurement,
                readout,
                kickstarter,
                states,
                predictions,
                step,
            ));
            assert(predictions =~= more_predictions.subrange(0, predictions.len() as int));
            lemma_feedback_window_of_prefix(kickstarter, predictions, more_predictions, step);
            assert(more_states[step + 1] == states[step + 1]);
            assert(more_states[step + 2] == states[step + 2]);
            assert(more_predictions[step] == predictions[step]);
        } else {
            assert(more_states[step + 1] == states.last());
            assert(more_states[step + 2] == next);
            assert(more_predictions[step] == prediction);
        }
    }
}

/// Driving the reservoir through every window of `input` may lead from
/// `before` to `after`, with output `k` read off the state after window `k`.
pub open spec fn forecasts<
    T: nalgebra::RealField + Copy,
    I: ReservoirInputProjection<T>,
    E: ReservoirTimeEvolution<T>,
    M: ReservoirStateMeasurement<T>,
    P: ReservoirStateProjection<T>,
>(
    projection: I,
    evolution: E,
    measurement: M,
    readout: P,
    input: Seq<Seq<T>>,
    before: Seq<T>,
    after: Seq<T>,
    outputs: Seq<Seq<T>>,
) -> bool {
    exists|states: Seq<Seq<T>>|
        {
            &&& #[trigger] is_trajectory(projection, evolution, input, states)
            &&& states.first() == before
            &&& states.last() == after
            &&& outputs.len() == states.len() - 1
            &&& forall|k: int|
                0 <= k < outputs.len() ==> reads(
                    measurement,
                    readout,
                    states[k + 1],
                    #[trigger] outputs[k],
                )
        }
}

/// Where the projection and the time evolution each give one result, a
/// window drives a state to one state.
pub proof fn lemma_drives_one<
    T: nalgebra::RealField + Copy,
    I: ReservoirInputProjection<T>,
    E: ReservoirTimeEvolution<T>,
>(
    projection: I,
    evolution: E,
    window: Seq<Seq<T>>,
    before: Seq<T>,
    a: Seq<T>,
    b: Seq<T>,
)
    requires
        projects_one(projection),
        evolves_one(evolution),
        drives(projection, evolution, window, before, a),
        drives(projection, evolution, window, before, b),
    ensures
        a == b,
{
    let first = choose|projected: Seq<T>| #[trigger]
        projection.projects(window, projected) && evolution.evolves(before, projected, a);
    let second = choose|projected: Seq<T>| #[trigger]
        projection.projects(window, projected) && evolution.evolves(before, projected, b);
    assert(first == second);
}

/// Where the measurement and the readout each give one result, one output
/// is read off a state.
pub proof fn lemma_reads_one<
    T: nalgebra::RealField + Copy,
    M: ReservoirStateMeasurement<T>,
    P: ReservoirStateProjection<T>,
>(
    measurement: M,
    readout: P,
    state: Seq<T>,
    a: Seq<T>,
    b: Seq<T>,
)
    requires
        measures_one(measurement),
        reads_one(readout),
        reads(measurement, readout, state, a),
        reads(measurement, readout, state, b),
    ensures
        a == b,
{
    let first = choose|measured: Seq<T>| #[trigger]
        measurement.measures(state, measured) && readout.reads_out(measured, a);
    let second = choose|measured: Seq<T>| #[trigger]
        measurement.measures(state, measured) && readout.reads_out(measured, b);
    assert(first == second);
}

/// Two trajectories through the same input from the same state agree in
/// state `k`, where the projection and the time evolution each give one
/// result.
pub proof fn lemma_trajectories_agree<
    T: nalgebra::RealField + Copy,
    I: ReservoirInputProjection<T>,
    E: ReservoirTimeEvolution<T>,
>(
    projection: I,
    evolution: E,
    input: Seq<Seq<T>>,
    states: Seq<Seq<T>>,
    others: Seq<Seq<T>>,
    k: int,
)
    requires
        projects_one(projection),
        evolves_one(evolution),
        is_trajectory(projection, evolution, input, states),
        is_trajectory(projection, evolution, input, others),
        states.len() >= 1,
        states.first() == others.first(),
        0 <= k < states.len(),
    ensures
        states[k] == others[k],
    decreases k,
{
    if k > 0 {
        lemma_trajectories_agree(projection, evolution, input, states, others, k - 1);
        assert(trajectory_step(projection, evolution, input, states, k - 1));
        assert(trajectory_step(projection, evolution, input, others, k - 1));
        lemma_drives_one(
            projection,
            evolution,
            input.subrange(k - 1, k - 1 + projection.window_len()),
            states[k - 1],
            states[k],
            others[k],
        );
    }
}

/// Where the projection and the time evolution each give one result,
/// synchronization leads to one state.
pub proof fn lemma_synchronization_is_determined<
    T: nalgebra::RealField + Copy,
    I: ReservoirInputProjection<T>,
    E: ReservoirTimeEvolution<T>,
>(projection: I, evolution: E, input: Seq<Seq<T>>, before: Seq<T>, a: Seq<T>, b: Seq<T>)
    requires
        projects_one(projection),
        evolves_one(evolution),
        input.len() >= projection.window_len(),
        synchronizes(projection, evolution, input, before, a),
        synchronizes(projection, evolution, input, before, b),
    ensures
        a == b,
{
    let states = choose|states: Seq<Seq<T>>|
        {
            &&& #[trigger] is_trajectory(projection, evolution, input, states)
            &&& states.first() == before
            &&& states.last() == a
        };
    let others = choose|states: Seq<Seq<T>>|
        {
            &&& #[trigger] is_trajectory(projection, evolution, input, states)
            &&& states.first() == before
            &&& states.last() == b
        };
    lemma_trajectories_agree(projection, evolution, input, states, others, states.len() - 1);
}

/// Two autoregressive runs from the same kickstarter and the same state,
/// with as many predictions, agree in their first `n` predictions and in
/// their first `n + 2` states, where every part gives one result.
pub proof fn lemma_prediction_runs_agree<
    T: nalgebra::RealField + Copy,
    I: ReservoirInputProjection<T>,
    E: ReservoirTimeEvolution<T>,
    M: ReservoirStateMeasurement<T>,
    P: ReservoirStateProjection<T>,
>(
    projection: I,
    evolution: E,
    measurement: M,
    readout: P,
    kickstarter: Seq<Seq<T>>,
    states: Seq<Seq<T>>,
    predictions: Seq<Seq<T>>,
    other_states: Seq<Seq<T>>,
    other_predictions: Seq<Seq<T>>,
    n: int,
)
    requires
        projects_one(projection),
        evolves_one(evolution),
        measures_one(measurement),
        reads_one(readout),
        is_prediction_run(
            projection,
            evolution,
            measurement,
            readout,
            kickstarter,
            states,
            predictions,
        ),
        is_prediction_run(
            projection,
            evolution,
            measurement,
            readout,
            kickstarter,
            other_states,
            other_predictions,
        ),
        predictions.len() == other_predictions.len(),
        states.first() == other_states.first(),
        0 <= n <= predictions.len(),
    ensures
        predictions.subrange(0, n) == other_predictions.subrange(0, n),
        states.subrange(0, n + 2) == other_states.subrange(0, n + 2),
    decreases n,
{
    if n == 0 {
        lemma_drives_one(
            projection,
            evolution,
            kickstarter,
            states[0],
            states[1],
            other_states[1],
        );
        assert(predictions.subrange(0, 0) =~= other_predictions.subrange(0, 0));
        assert(states.subrange(0, 2) =~= other_states.subrange(0, 2));
    } else {
        lemma_prediction_runs_agree(
            projection,
            evolution,
            measurement,
            readout,
            kickstarter,
            states,
            predictions,
            other_states,
            other_predictions,
            n - 1,
        );
        let step = n - 1;
        assert(prediction_step(
            projection,
            evolution,
            measurement,
            readout,
            kickstarter,
            states,
            predictions,
            step,
        ));
        assert(prediction_step(
            projection,
            evolution,
            measurement,
            readout,
            kickstarter,
            other_states,
            other_predictions,
            step,
        ));
        assert(states[step + 1] == states.subrange(0, step + 2)[step + 1]);
        assert(other_states[step + 1] == other_states.subrange(0, step + 2)[step + 1]);
        lemma_reads_one(
            measurement,
            readout,
            states[step + 1],
            predictions[step],
            other_predictions[step],
        );
        assert forall|j: int| 0 <= j < n implies predictions[j] == other_predictions[j] by {
            if j < step {
                assert(predictions[j] == predictions.subrange(0, step)[j]);
                assert(other_predictions[j] == other_predictions.subrange(0, step)[j]);
            }
        }
        assert(predictions.subrange(0, n) =~= other_predictions.subrange(0, n));
        lemma_feedback_window_of_prefix(kickstarter, predictions.subrange(0, n), predictions, step);
        lemma_feedback_window_of_prefix(
            kickstarter,
            other_predictions.subrange(0, n),
            other_predictions,
            step,
        );
        lemma_drives_one(
            projection,
            evolution,
            feedback_window(kickstarter, predictions, step),
            states[step + 1],
            states[step + 2],
            other_states[step + 2],
        );
        assert forall|j: int| 0 <= j < n + 2 implies states[j] == other_states[j] by {
            if j < n + 1 {
                assert(states[j] == states.subrange(0, n + 1)[j]);
                assert(other_states[j] == other_states.subrange(0, n + 1)[j]);
            }
        }
        assert(states.subrange(0, n + 2) =~= other_states.subrange(0, n + 2));
    }
}

/// Where every part gives one result, an autoregressive run of a given
/// number of steps emits one sequence of predictions and leads to one state.
pub proof fn lemma_prediction_is_determined<
    T: nalgebra::RealField + Copy,
    I: ReservoirInputProjection<T>,
    E: ReservoirTimeEvolution<T>,
    M: ReservoirStateMeasurement<T>,
    P: ReservoirStateProjection<T>,
>(
    projection: I,
    evolution: E,
    measurement: M,
    readout: P,
    kickstarter: Seq<Seq<T>>,
    before: Seq<T>,
    a: Seq<T>,
    predictions: Seq<Seq<T>>,
    b: Seq<T>,
    other_predictions: Seq<Seq<T>>,
)
    requires
        projects_one(projection),
        evolves_one(evolution),
        measures_one(measurement),
        reads_one(readout),
        predictions.len() == other_predictions.len(),
        predicts(
            projection,
            evolution,
            measurement,
            readout,
            kickstarter,
            before,
            a,
            predictions,
        ),
        predicts(
            projection,
            evolution,
            measurement,
            readout,
            kickstarter,
            before,
            b,
            other_predictions,
        ),
    ensures
        a == b,
        predictions == other_predictions,
{
    let states = choose|states: Seq<Seq<T>>|
        {
            &&& #[trigger] is_prediction_run(
                projection,
                evolution,
                measurement,
                readout,
                kickstarter,
                states,
                predictions,
            )
            &&& states.first() == before
            &&& states.last() == a
        };
    let other_states = choose|states: Seq<Seq<T>>|
        {
            &&& #[trigger] is_prediction_run(
                projection,
                evolution,
                measurement,
                readout,
                kickstarter,
                states,
                other_predictions,
            )
            &&& states.first() == before
            &&& states.last() == b
        };
    let n = predictions.len() as int;
    lemma_prediction_runs_agree(
        projection,
        evolution,
        measurement,
        readout,
        kickstarter,
        states,
        predictions,
        other_states,
        other_predictions,
        n,
    );
    assert(predictions.subrange(0, n) =~= predictions);
    assert(other_predictions.subrange(0, n) =~= other_predictions);
    assert(states.last() == states.subrange(0, n + 2)[n + 1]);
    assert(other_states.last() == other_states.subrange(0, n + 2)[n + 1]);
}

} // verus!
