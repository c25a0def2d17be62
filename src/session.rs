use vstd::prelude::*;
use crate::assign::{Action, Step, steps_of};

verus! {

/// Where a run of planned actions stands: the actions, how many were carried
/// out, and the failure that ended the run, if one did.
pub struct RunState {
    pub steps: Seq<Step>,
    pub done: nat,
    pub error: Option<Seq<char>>,
}

pub open spec fn running(s: RunState) -> bool {
    s.error is None && s.done < s.steps.len()
}

pub open spec fn outcome_text(o: Result<(), String>) -> Result<(), Seq<char>> {
    match o {
        Ok(()) => Ok(()),
        Err(e) => Err(e@),
    }
}

/// The state once the action at `done` has had `outcome`: a success moves to
/// the next action, a failure ends the run. A finished run stays as it is.
pub open spec fn after_outcome(s: RunState, outcome: Result<(), Seq<char>>) -> RunState {
    if !running(s) {
        s
    } else {
        match outcome {
            Ok(()) => RunState { done: s.done + 1, ..s },
            Err(e) => RunState { error: Some(e), ..s },
        }
    }
}

/// The state after the outcomes, in order.
pub open spec fn after_outcomes(s: RunState, outcomes: Seq<Result<(), Seq<char>>>) -> RunState
    decreases outcomes.len(),
{
    if outcomes.len() == 0 {
        s
    } else {
        after_outcome(after_outcomes(s, outcomes.drop_last()), outcomes.last())
    }
}

pub open spec fn start(steps: Seq<Step>) -> RunState {
    RunState { steps, done: 0, error: None }
}

/// A run of planned actions, carried out one at a time by the caller, which
/// reports how each went. The first failure ends the run: no later action is
/// handed out, and the actions already carried out stay done.
pub struct Assignment {
    actions: Vec<Action>,
    done: usize,
    error: Option<String>,
}

impl View for Assignment {
    type V = RunState;

    closed spec fn view(&self) -> RunState {
        RunState {
            steps: steps_of(self.actions@),
            done: self.done as nat,
            error: match self.error {
                Some(e) => Some(e@),
                None => None,
            },
        }
    }
}

impl Assignment {
    pub closed spec fn wf(&self) -> bool {
        self.done <= self.actions@.len()
    }

    pub fn new(actions: Vec<Action>) -> (r: Assignment)
        ensures
            r.wf(),
            r@ == start(steps_of(actions@)),
    {
        Assignment { actions, done: 0, error: None }
    }

    /// The action to carry out next; `None` once the run is over.
    pub fn next_action(&self) -> (r: Option<&Action>)
        requires
            self.wf(),
        ensures
            r is Some <==> running(self@),
            r is Some ==> r->0@ == self@.steps[self@.done as int],
    {
        if self.error.is_none() && self.done < self.actions.len() {
            Some(&self.actions[self.done])
        } else {
            None
        }
    }

    /// Records how the action handed out last went.
    pub fn report(&mut self, outcome: Result<(), String>)
        requires
            old(self).wf(),
        ensures
            final(self).wf(),
            final(self)@ == after_outcome(old(self)@, outcome_text(outcome)),
    {
        if self.error.is_none() && self.done < self.actions.len() {
            match outcome {
                Ok(()) => {
                    self.done = self.done + 1;
                },
                Err(e) => {
                    self.error = Some(e);
                },
            }
        }
    }

    /// How the run ended: `None` while it goes on, the failure that ended it,
    /// or success once every action was carried out.
    pub fn outcome(&self) -> (r: Option<Result<(), String>>)
        requires
            self.wf(),
        ensures
            running(self@) ==> r is None,
            !running(self@) ==> r is Some && outcome_text(r->0) == match self@.error {
                Some(e) => Err(e),
                None => Ok(()),
            },
    {
        match &self.error {
            Some(e) => Some(Err(e.clone())),
            None => if self.done < self.actions.len() {
                None
            } else {
                Some(Ok(()))
            },
        }
    }

    /// How many actions were carried out.
    pub fn completed(&self) -> (r: usize)
        ensures
            r as nat == self@.done,
    {
        self.done
    }
}

/// A run whose first `k` actions succeed and whose next one fails with `e`
/// ends there: exactly `k` actions carried out, the failure reported, and no
/// later outcome changes that, so no later action is ever attempted.
pub proof fn lemma_first_failure_ends_run(
    steps: Seq<Step>,
    outcomes: Seq<Result<(), Seq<char>>>,
    k: nat,
    e: Seq<char>,
)
    requires
        k < steps.len(),
        k < outcomes.len(),
        forall|j: int| 0 <= j < k ==> #[trigger] outcomes[j] is Ok,
        outcomes[k as int] == Err::<(), Seq<char>>(e),
    ensures
        after_outcomes(start(steps), outcomes) == (RunState { steps, done: k, error: Some(e) }),
    decreases outcomes.len(),
{
    if outcomes.len() == k + 1 {
        lemma_all_succeed(steps, outcomes.drop_last(), k);
    } else {
        let prefix = outcomes.drop_last();
        assert forall|j: int| 0 <= j < k implies #[trigger] prefix[j] is Ok by {
            assert(prefix[j] == outcomes[j]);
        }
        lemma_first_failure_ends_run(steps, prefix, k, e);
    }
}

/// Successes only, no more of them than there are actions: that many carried
/// out and no failure.
pub proof fn lemma_all_succeed(steps: Seq<Step>, outcomes: Seq<Result<(), Seq<char>>>, k: nat)
    requires
        k <= steps.len(),
        outcomes.len() == k,
        forall|j: int| 0 <= j < k ==> #[trigger] outcomes[j] is Ok,
    ensures
        after_outcomes(start(steps), outcomes) == (RunState { steps, done: k, error: None }),
    decreases k,
{
    if k > 0 {
        let prefix = outcomes.drop_last();
        assert forall|j: int| 0 <= j < k - 1 implies #[trigger] prefix[j] is Ok by {
            assert(prefix[j] == outcomes[j]);
        }
        lemma_all_succeed(steps, prefix, (k - 1) as nat);
        assert(outcomes[k - 1] is Ok);
    }
}

} // verus!
