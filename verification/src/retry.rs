//! Reading a file with a bounded number of attempts.

use vstd::prelude::*;

verus! {

/// How often a read is attempted and how long to wait between attempts.
#[derive(Debug, Clone, Copy, PartialEq, Eq, Structural)]
pub struct RetryPolicy {
    /// The number of attempts after which a read is given up.
    pub max_attempts: usize,
    /// The wait before the next attempt, in milliseconds.
    pub backoff_ms: u64,
}

/// What to do after an attempt.
#[derive(Debug, Clone, Copy, PartialEq, Eq, Structural)]
pub enum RetryStep {
    /// The attempt succeeded: hand on what was read.
    Deliver,
    /// The attempt failed: wait, then try again.
    Wait { millis: u64 },
    /// The attempt failed and was the last: report its failure.
    GiveUp,
}

/// Where a read stands: how many attempts have failed, and how it ended,
/// once it has.
pub struct RetryState {
    pub failures: nat,
    pub verdict: Option<bool>,
}

impl RetryPolicy {
    /// A read that has not been attempted yet.
    pub open spec fn start() -> RetryState {
        RetryState { failures: 0, verdict: None }
    }

    /// What to do after an attempt that was preceded by `failures` failed
    /// ones.
    pub open spec fn decide(self, failures: nat, succeeded: bool) -> RetryStep {
        if succeeded {
            RetryStep::Deliver
        } else if failures + 1 < self.max_attempts {
            RetryStep::Wait { millis: self.backoff_ms }
        } else {
            RetryStep::GiveUp
        }
    }

    /// The state after one more attempt. Once a read has ended, later
    /// attempts change nothing.
    pub open spec fn step(self, state: RetryState, succeeded: bool) -> RetryState {
        if state.verdict is Some {
            state
        } else {
            match self.decide(state.failures, succeeded) {
                RetryStep::Deliver => RetryState { verdict: Some(true), ..state },
                RetryStep::Wait { millis } => RetryState { failures: state.failures + 1, ..state },
                RetryStep::GiveUp => RetryState {
                    failures: state.failures + 1,
                    verdict: Some(false),
                },
            }
        }
    }

    /// What to do after one more attempt on a read in the given state. Once
    /// a read has ended, the answer stays what it was.
    pub open spec fn react(self, state: RetryState, succeeded: bool) -> RetryStep {
        match state.verdict {
            Some(true) => RetryStep::Deliver,
            Some(false) => RetryStep::GiveUp,
            None => self.decide(state.failures, succeeded),
        }
    }

    /// The state after a series of attempts with the given outcomes.
    pub open spec fn run(self, outcomes: Seq<bool>) -> RetryState
        decreases outcomes.len(),
    {
        if outcomes.len() == 0 {
            Self::start()
        } else {
            self.step(self.run(outcomes.drop_last()), outcomes.last())
        }
    }

    /// Whether the attempt `k`, counted from zero, is the first to succeed.
    pub open spec fn first_success(outcomes: Seq<bool>, k: int) -> bool {
        &&& 0 <= k < outcomes.len()
        &&& outcomes[k]
        &&& forall|j: int| 0 <= j < k ==> !outcomes[j]
    }

    /// Whether the first `n` attempts all failed.
    pub open spec fn all_failed(outcomes: Seq<bool>, n: int) -> bool {
        &&& n <= outcomes.len()
        &&& forall|j: int| 0 <= j < n ==> !outcomes[j]
    }

    /// While fewer than `max_attempts` attempts have been made and all have
    /// failed, the read is undecided.
    pub proof fn lemma_undecided(self, outcomes: Seq<bool>)
        requires
            outcomes.len() < self.max_attempts,
            Self::all_failed(outcomes, outcomes.len() as int),
        ensures
            self.run(outcomes) == (RetryState { failures: outcomes.len(), verdict: None }),
        decreases outcomes.len(),
    {
        if outcomes.len() > 0 {
            let before = outcomes.drop_last();
            assert forall|j: int| 0 <= j < before.len() implies !before[j] by {
                assert(before[j] == outcomes[j]);
            }
            self.lemma_undecided(before);
        }
    }

    /// A read whose first success comes within `max_attempts` attempts ends
    /// in success, after as many failures as came before it.
    pub proof fn lemma_success_within_attempts(self, outcomes: Seq<bool>, k: int)
        requires
            k < self.max_attempts,
            Self::first_success(outcomes, k),
        ensures
            self.run(outcomes) == (RetryState { failures: k as nat, verdict: Some(true) }),
        decreases outcomes.len(),
    {
        let before = outcomes.drop_last();
        assert forall|j: int| 0 <= j < before.len() && j < k implies !before[j] by {
            assert(before[j] == outcomes[j]);
        }
        if k == outcomes.len() - 1 {
            self.lemma_undecided(before);
        } else {
            assert(before[k] == outcomes[k]);
            self.lemma_success_within_attempts(before, k);
        }
    }

    /// A read whose first `max_attempts` attempts all fail ends in failure.
    pub proof fn lemma_failure_after_all_attempts(self, outcomes: Seq<bool>)
        requires
            self.max_attempts >= 1,
            Self::all_failed(outcomes, self.max_attempts as int),
        ensures
            self.run(outcomes) == (RetryState {
                failures: self.max_attempts as nat,
                verdict: Some(false),
            }),
        decreases outcomes.len(),
    {
        let before = outcomes.drop_last();
        assert forall|j: int| 0 <= j < before.len() && j < self.max_attempts implies !before[j] by {
            assert(before[j] == outcomes[j]);
        }
        if outcomes.len() == self.max_attempts {
            self.lemma_undecided(before);
            assert(!outcomes[outcomes.len() - 1]);
        } else {
            self.lemma_failure_after_all_attempts(before);
        }
    }

    /// Of any series of attempts one of three things holds: a first success
    /// comes within `max_attempts` attempts, or that many attempts failed,
    /// or fewer were made and all of them failed.
    pub proof fn lemma_cases(self, outcomes: Seq<bool>)
        requires
            self.max_attempts >= 1,
        ensures
            ({
                ||| exists|k: int| k < self.max_attempts && Self::first_success(outcomes, k)
                ||| Self::all_failed(outcomes, self.max_attempts as int)
                ||| (outcomes.len() < self.max_attempts && Self::all_failed(
                    outcomes,
                    outcomes.len() as int,
                ))
            }),
        decreases outcomes.len(),
    {
        if outcomes.len() > 0 {
            let before = outcomes.drop_last();
            let n = before.len() as int;
            self.lemma_cases(before);
            if exists|k: int| k < self.max_attempts && Self::first_success(before, k) {
                let k = choose|k: int| k < self.max_attempts && Self::first_success(before, k);
                assert(outcomes[k] == before[k]);
                assert forall|j: int| 0 <= j < k implies !outcomes[j] by {
                    assert(before[j] == outcomes[j]);
                }
                assert(Self::first_success(outcomes, k));
            } else if Self::all_failed(before, self.max_attempts as int) {
                assert forall|j: int| 0 <= j < self.max_attempts implies !outcomes[j] by {
                    assert(before[j] == outcomes[j]);
                }
            } else {
                assert forall|j: int| 0 <= j < n implies !outcomes[j] by {
                    assert(before[j] == outcomes[j]);
                }
                if outcomes[n] {
                    assert(Self::first_success(outcomes, n));
                } else {
                    assert(Self::all_failed(outcomes, n + 1));
                }
            }
        }
    }

    /// A series of attempts ends in success exactly if one of the first
    /// `max_attempts` attempts succeeds, and in failure exactly if all of
    /// them fail.
    pub proof fn lemma_run_decided(self, outcomes: Seq<bool>)
        requires
            self.max_attempts >= 1,
        ensures
            self.run(outcomes).verdict == Some(true) <==> exists|k: int|
                k < self.max_attempts && Self::first_success(outcomes, k),
            self.run(outcomes).verdict == Some(false) <==> Self::all_failed(
                outcomes,
                self.max_attempts as int,
            ),
    {
        self.lemma_cases(outcomes);
        if exists|k: int| k < self.max_attempts && Self::first_success(outcomes, k) {
            let k = choose|k: int| k < self.max_attempts && Self::first_success(outcomes, k);
            self.lemma_success_within_attempts(outcomes, k);
            if Self::all_failed(outcomes, self.max_attempts as int) {
                assert(!outcomes[k]);
            }
        } else if Self::all_failed(outcomes, self.max_attempts as int) {
            self.lemma_failure_after_all_attempts(outcomes);
        } else {
            self.lemma_undecided(outcomes);
        }
    }

    /// A read that fails on every attempt but the last allowed one, and
    /// succeeds on that, ends in success.
    pub proof fn lemma_success_on_last_attempt(self, outcomes: Seq<bool>)
        requires
            self.max_attempts >= 1,
            outcomes.len() >= self.max_attempts,
            forall|j: int| 0 <= j < self.max_attempts - 1 ==> !outcomes[j],
            outcomes[self.max_attempts - 1],
        ensures
            self.run(outcomes).verdict == Some(true),
            self.run(outcomes).failures == self.max_attempts - 1,
    {
        assert(Self::first_success(outcomes, self.max_attempts - 1));
        self.lemma_success_within_attempts(outcomes, self.max_attempts - 1);
    }
}

impl RetryPolicy {
    /// Decides what to do after an attempt that was preceded by `failures`
    /// failed ones.
    pub fn after_attempt(&self, failures: usize, succeeded: bool) -> (step: RetryStep)
        ensures
            step == self.decide(failures as nat, succeeded),
    {
        if succeeded {
            RetryStep::Deliver
        } else if self.max_attempts > 0 && failures < self.max_attempts - 1 {
            RetryStep::Wait { millis: self.backoff_ms }
        } else {
            RetryStep::GiveUp
        }
    }
}

/// One read with its attempts so far.
#[derive(Debug)]
pub struct ReadRetry {
    policy: RetryPolicy,
    failures: usize,
    verdict: Option<bool>,
}

impl View for ReadRetry {
    type V = RetryState;

    closed spec fn view(&self) -> RetryState {
        RetryState { failures: self.failures as nat, verdict: self.verdict }
    }
}

impl ReadRetry {
    /// The policy that the read follows.
    pub closed spec fn policy(&self) -> RetryPolicy {
        self.policy
    }

    /// Whether the read is in a state that attempts can lead to.
    pub closed spec fn wf(&self) -> bool {
        self.verdict is None ==> self.failures == 0 || self.failures < self.policy.max_attempts
    }

    /// A read that has not been attempted yet.
    pub fn new(policy: RetryPolicy) -> (read: ReadRetry)
        ensures
            read.wf(),
            read.policy() == policy,
            read@ == RetryPolicy::start(),
    {
        ReadRetry { policy, failures: 0, verdict: None }
    }

    /// How many attempts have failed.
    pub fn failures(&self) -> (n: usize)
        ensures
            n == self@.failures,
    {
        self.failures
    }

    /// How the read ended, once it has: `true` for success.
    pub fn verdict(&self) -> (v: Option<bool>)
        ensures
            v == self@.verdict,
    {
        self.verdict
    }

    /// Takes the outcome of one more attempt and says what to do next.
    pub fn record(&mut self, succeeded: bool) -> (step: RetryStep)
        requires
            old(self).wf(),
        ensures
            final(self).wf(),
            final(self).policy() == old(self).policy(),
            final(self)@ == old(self).policy().step(old(self)@, succeeded),
            step == old(self).policy().react(old(self)@, succeeded),
    {
        match self.verdict {
            Some(true) => RetryStep::Deliver,
            Some(false) => RetryStep::GiveUp,
            None => {
                let step = self.policy.after_attempt(self.failures, succeeded);
                match step {
                    RetryStep::Deliver => {
                        self.verdict = Some(true);
                    },
                    RetryStep::Wait { millis } => {
                        self.failures = self.failures + 1;
                    },
                    RetryStep::GiveUp => {
                        self.failures = self.failures + 1;
                        self.verdict = Some(false);
                    },
                }
                step
            },
        }
    }
}

} // verus!
