//! Spectral thermostat — deadband-based control for spectral computation.
//!
//! A thermostat monitors a spectral quantity (e.g. a condition ratio) and
//! applies deadband logic to decide whether to increase or decrease
//! computational effort. Within the deadband the system is "close enough"
//! and no action is taken.
//!
//! Where a reading falls relative to the setpoint and deadband is a question
//! about real numbers; this module takes its answer as two booleans and owns
//! everything that follows from it: the action, the thermostat state, the
//! count of consecutive stable readings and the action history.

use vstd::prelude::*;

verus! {

/// State of the thermostat relative to its setpoint.
#[derive(Debug, Clone, Copy, PartialEq, Eq, Structural)]
pub enum ThermostatState {
    /// Value is below the deadband — needs increase.
    Heating,
    /// Value is above the deadband — needs decrease.
    Cooling,
    /// Value is within the deadband — no action needed.
    Stable,
}

/// Control action decided by the thermostat.
#[derive(Debug, Clone, Copy, PartialEq, Eq, Structural)]
pub enum Action {
    /// Increase the condition ratio (value too low).
    IncreaseCR,
    /// Decrease the condition ratio (value too high).
    DecreaseCR,
    /// Within deadband — no action needed.
    DoNothing,
}

/// The action that a reading calls for: nothing within the deadband,
/// otherwise an increase below the setpoint and a decrease above it.
pub open spec fn action_for(within_deadband: bool, below_setpoint: bool) -> Action {
    if within_deadband {
        Action::DoNothing
    } else if below_setpoint {
        Action::IncreaseCR
    } else {
        Action::DecreaseCR
    }
}

/// The thermostat state that an action puts the controller in.
pub open spec fn state_of(action: Action) -> ThermostatState {
    match action {
        Action::IncreaseCR => ThermostatState::Heating,
        Action::DecreaseCR => ThermostatState::Cooling,
        Action::DoNothing => ThermostatState::Stable,
    }
}

/// The state after a history of actions: `Stable` before any reading,
/// otherwise the state of the last action.
pub open spec fn state_after(actions: Seq<Action>) -> ThermostatState {
    if actions.len() == 0 {
        ThermostatState::Stable
    } else {
        state_of(actions.last())
    }
}

/// Length of the run of `DoNothing` at the end of a history of actions:
/// the number of consecutive stable readings since the last action.
pub open spec fn trailing_stable(actions: Seq<Action>) -> nat
    decreases actions.len(),
{
    if actions.len() == 0 {
        0
    } else if actions.last() == Action::DoNothing {
        trailing_stable(actions.drop_last()) + 1
    } else {
        0
    }
}

/// Number of readings in a history that triggered an action
/// (`IncreaseCR` or `DecreaseCR`).
pub open spec fn active_count(actions: Seq<Action>) -> nat
    decreases actions.len(),
{
    if actions.len() == 0 {
        0
    } else {
        active_count(actions.drop_last()) + if actions.last() == Action::DoNothing {
            0nat
        } else {
            1nat
        }
    }
}

/// Decide the control action for one reading.
///
/// `within_deadband` tells whether the reading lies within
/// `[setpoint − deadband, setpoint + deadband]`; `below_setpoint` whether it
/// lies below the setpoint. Within the deadband the answer is `DoNothing`;
/// outside it, `IncreaseCR` below the setpoint and `DecreaseCR` otherwise.
pub fn decide(within_deadband: bool, below_setpoint: bool) -> (action: Action)
    ensures
        action == action_for(within_deadband, below_setpoint),
        action == Action::DoNothing <==> within_deadband,
        action == Action::IncreaseCR <==> !within_deadband && below_setpoint,
        action == Action::DecreaseCR <==> !within_deadband && !below_setpoint,
{
    if within_deadband {
        Action::DoNothing
    } else if below_setpoint {
        Action::IncreaseCR
    } else {
        Action::DecreaseCR
    }
}

/// The controller of a spectral thermostat: the history of actions it has
/// decided, its current state, and the number of consecutive stable readings.
///
/// The state is always that of the last action (`Stable` before any
/// reading), and the stable count is always the length of the run of
/// `DoNothing` at the end of the history.
pub struct DeadbandController {
    action_history: Vec<Action>,
    state: ThermostatState,
    stable_count: usize,
}

impl DeadbandController {
    /// The state is that of the last action and the stable count is the
    /// length of the trailing stable run.
    pub closed spec fn wf(&self) -> bool {
        &&& self.state == state_after(self.action_history@)
        &&& self.stable_count == trailing_stable(self.action_history@)
    }

    /// Every action decided so far, oldest first.
    pub closed spec fn actions(&self) -> Seq<Action> {
        self.action_history@
    }

    /// A controller that has seen no reading: no history, state `Stable`.
    pub fn new() -> (c: DeadbandController)
        ensures
            c.wf(),
            c.actions() == Seq::<Action>::empty(),
    {
        DeadbandController {
            action_history: Vec::new(),
            state: ThermostatState::Stable,
            stable_count: 0,
        }
    }

    /// Take one reading, given where it falls, and decide the action.
    ///
    /// The action is appended to the history; the state becomes that of the
    /// action; the stable count grows by one on `DoNothing` and drops to zero
    /// on any other action.
    pub fn record_reading(&mut self, within_deadband: bool, below_setpoint: bool) -> (action: Action)
        requires
            old(self).wf(),
        ensures
            final(self).wf(),
            action == action_for(within_deadband, below_setpoint),
            final(self).actions() == old(self).actions().push(action),
            state_after(final(self).actions()) == state_of(action),
            trailing_stable(final(self).actions()) == if action == Action::DoNothing {
                trailing_stable(old(self).actions()) + 1
            } else {
                0
            },
            active_count(final(self).actions()) == active_count(old(self).actions()) + if action
                == Action::DoNothing {
                0nat
            } else {
                1nat
            },
    {
        proof {
            lemma_trailing_stable_bounded(self.action_history@);
        }
        let action = decide(within_deadband, below_setpoint);
        let ghost before = self.action_history@;
        self.action_history.push(action);
        // The run of stable readings is part of the history, whose length fits a usize.
        let readings = self.action_history.len();
        proof {
            assert(self.action_history@.drop_last() =~= before);
            assert(self.stable_count < readings);
        }
        match action {
            Action::DoNothing => {
                self.state = ThermostatState::Stable;
                self.stable_count = self.stable_count + 1;
            },
            Action::IncreaseCR => {
                self.state = ThermostatState::Heating;
                self.stable_count = 0;
            },
            Action::DecreaseCR => {
                self.state = ThermostatState::Cooling;
                self.stable_count = 0;
            },
        }
        action
    }

    /// Number of consecutive stable readings since the last action.
    pub fn stability_duration(&self) -> (n: usize)
        requires
            self.wf(),
        ensures
            n == trailing_stable(self.actions()),
    {
        self.stable_count
    }

    /// Current thermostat state: that of the last action, `Stable` before any reading.
    pub fn state(&self) -> (s: &ThermostatState)
        requires
            self.wf(),
        ensures
            *s == state_after(self.actions()),
    {
        &self.state
    }

    /// The history of all actions taken, oldest first.
    pub fn action_history(&self) -> (h: &Vec<Action>)
        ensures
            h@ == self.actions(),
    {
        &self.action_history
    }

    /// Number of readings taken so far.
    pub fn measurement_count(&self) -> (n: usize)
        ensures
            n == self.actions().len(),
    {
        self.action_history.len()
    }

    /// Number of readings that triggered an action (`IncreaseCR` or
    /// `DecreaseCR`): the numerator of the hysteresis ratio, whose
    /// denominator is [`measurement_count`](Self::measurement_count).
    pub fn action_count(&self) -> (n: usize)
        ensures
            n == active_count(self.actions()),
            n <= self.actions().len(),
    {
        let len = self.action_history.len();
        let mut count: usize = 0;
        let mut i: usize = 0;
        while i < len
            invariant
                len == self.action_history@.len(),
                i <= len,
                count == active_count(self.action_history@.subrange(0, i as int)),
                count <= i,
            decreases len - i,
        {
            proof {
                let s = self.action_history@.subrange(0, i as int + 1);
                assert(s.drop_last() =~= self.action_history@.subrange(0, i as int));
            }
            if self.action_history[i] != Action::DoNothing {
                count = count + 1;
            }
            i = i + 1;
        }
        proof {
            assert(self.action_history@.subrange(0, len as int) =~= self.action_history@);
        }
        count
    }
}

/// The stable count never exceeds the number of readings.
pub proof fn lemma_trailing_stable_bounded(actions: Seq<Action>)
    ensures
        trailing_stable(actions) <= actions.len(),
    decreases actions.len(),
{
    if actions.len() > 0 {
        lemma_trailing_stable_bounded(actions.drop_last());
    }
}

/// The number of readings that triggered an action never exceeds the number
/// of readings, so the hysteresis ratio lies between 0 and 1.
pub proof fn lemma_active_count_bounded(actions: Seq<Action>)
    ensures
        active_count(actions) <= actions.len(),
    decreases actions.len(),
{
    if actions.len() > 0 {
        lemma_active_count_bounded(actions.drop_last());
    }
}

/// A controller that has been stable for at least one reading is in the
/// `Stable` state; one that is not stable has just acted.
pub proof fn lemma_stable_run_means_stable_state(actions: Seq<Action>)
    ensures
        trailing_stable(actions) > 0 ==> state_after(actions) == ThermostatState::Stable,
        actions.len() > 0 && trailing_stable(actions) == 0 ==> state_after(actions)
            != ThermostatState::Stable,
{
}

/// The readings that triggered an action and the trailing stable run are
/// disjoint parts of the history: together they never exceed its length.
pub proof fn lemma_active_and_stable_run_disjoint(actions: Seq<Action>)
    ensures
        active_count(actions) + trailing_stable(actions) <= actions.len(),
    decreases actions.len(),
{
    if actions.len() > 0 {
        lemma_active_and_stable_run_disjoint(actions.drop_last());
        lemma_active_count_bounded(actions.drop_last());
    }
}

/// The stable count is the length of the run of `DoNothing` that ends the
/// history: the last `trailing_stable` actions are all `DoNothing`, and the
/// action just before them, if any, is not.
pub proof fn lemma_trailing_stable_is_final_run(actions: Seq<Action>)
    ensures
        trailing_stable(actions) <= actions.len(),
        forall|i: int|
            actions.len() - trailing_stable(actions) <= i < actions.len() ==> #[trigger] actions[i]
                == Action::DoNothing,
        trailing_stable(actions) < actions.len() ==> actions[actions.len() - trailing_stable(actions)
            - 1] != Action::DoNothing,
    decreases actions.len(),
{
    if actions.len() > 0 {
        let prefix = actions.drop_last();
        lemma_trailing_stable_is_final_run(prefix);
        if actions.last() == Action::DoNothing {
            assert forall|i: int|
                actions.len() - trailing_stable(actions) <= i < actions.len() implies #[trigger] actions[i]
                    == Action::DoNothing by {
                if i < actions.len() - 1 {
                    assert(actions[i] == prefix[i]);
                }
            }
            if trailing_stable(actions) < actions.len() {
                assert(actions[actions.len() - trailing_stable(actions) - 1] == prefix[prefix.len()
                    - trailing_stable(prefix) - 1]);
            }
        }
    }
}

/// The number of readings that triggered an action is the number of actions
/// in the history other than `DoNothing`.
pub proof fn lemma_active_count_counts_actions(actions: Seq<Action>)
    ensures
        active_count(actions) == actions.filter(|a: Action| a != Action::DoNothing).len(),
    decreases actions.len(),
{
    reveal(Seq::filter);
    if actions.len() > 0 {
        lemma_active_count_counts_actions(actions.drop_last());
    }
}

/// The state names the last action: `Heating` exactly after `IncreaseCR`,
/// `Cooling` exactly after `DecreaseCR`, and `Stable` before any reading or
/// after `DoNothing`.
pub proof fn lemma_state_names_last_action(actions: Seq<Action>)
    ensures
        state_after(actions) == ThermostatState::Heating <==> actions.len() > 0 && actions.last()
            == Action::IncreaseCR,
        state_after(actions) == ThermostatState::Cooling <==> actions.len() > 0 && actions.last()
            == Action::DecreaseCR,
        state_after(actions) == ThermostatState::Stable <==> actions.len() == 0 || actions.last()
            == Action::DoNothing,
{
}

} // verus!
