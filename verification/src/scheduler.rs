//! Bookkeeping for the concurrency-bounded run: how many tests are in
//! flight, how many succeeded or failed, and the failure summary.

use vstd::prelude::*;
use vstd::string::StringExecFns;

use crate::decimal::decimal_seq;
use crate::decimal::usize_to_decimal;

verus! {

/// "test" when the count is exactly one, else "tests".
pub open spec fn spec_test_or_tests(amount: nat) -> Seq<char> {
    if amount == 1 {
        "test"@
    } else {
        "tests"@
    }
}

/// The singular or plural noun for a count of tests.
pub fn test_or_tests(amount: usize) -> (r: &'static str)
    ensures
        r@ == spec_test_or_tests(amount as nat),
{
    if amount == 1 {
        "test"
    } else {
        "tests"
    }
}

/// The failure summary of a run in which `errors` of `total` tests had
/// errors.
pub open spec fn summary_message(errors: nat, total: nat) -> Seq<char> {
    "Error: "@ + decimal_seq(errors) + " "@ + spec_test_or_tests(errors) + " had errors out of "@
        + decimal_seq(total) + " "@ + spec_test_or_tests(total)
}

/// The counters that drive a bounded concurrent run: tests are admitted
/// one at a time while a slot under the ceiling is free, and each
/// finished test frees its slot and lands in exactly one of the two
/// outcome counters.
pub struct Scheduler {
    /// How many tests the run holds.
    pub total: usize,
    /// How many tests have been admitted so far (in flight or finished).
    pub started: usize,
    /// How many tests are in flight right now.
    pub running: usize,
    /// The concurrency ceiling: the most tests ever in flight at once.
    pub max: usize,
    /// How many tests finished successfully.
    pub successes: usize,
    /// How many tests finished with a failure.
    pub errors: usize,
}

impl Scheduler {
    /// Every admitted test is either in flight or counted once as an
    /// outcome; no more than `total` tests are admitted; and the tests
    /// in flight never exceed the ceiling.
    pub open spec fn wf(self) -> bool {
        &&& self.started <= self.total
        &&& self.running <= self.max
        &&& self.successes + self.errors + self.running == self.started
    }

    /// A run of `total` tests under a ceiling of `max`, none admitted
    /// yet.
    pub fn new(total: usize, max: usize) -> (r: Scheduler)
        ensures
            r.total == total,
            r.max == max,
            r.started == 0,
            r.running == 0,
            r.successes == 0,
            r.errors == 0,
            r.wf(),
    {
        Scheduler { total, started: 0, running: 0, max, successes: 0, errors: 0 }
    }

    /// Whether another test may be admitted now: one is left and a slot
    /// under the ceiling is free.
    pub fn can_start(&self) -> (r: bool)
        ensures
            r == (self.started < self.total && self.running < self.max),
    {
        self.started < self.total && self.running < self.max
    }

    /// Admits one queued test into a free slot.  The ceiling keeps
    /// holding: at no point are more tests in flight than `max`.
    pub fn start(&mut self)
        requires
            old(self).wf(),
            old(self).started < old(self).total,
            old(self).running < old(self).max,
        ensures
            final(self).started == old(self).started + 1,
            final(self).running == old(self).running + 1,
            final(self).total == old(self).total,
            final(self).max == old(self).max,
            final(self).successes == old(self).successes,
            final(self).errors == old(self).errors,
            final(self).wf(),
            final(self).running <= final(self).max,
    {
        self.started = self.started + 1;
        self.running = self.running + 1;
    }

    /// Records one finished test, freeing its slot and counting the
    /// outcome.  The ceiling keeps holding.
    pub fn finish(&mut self, success: bool)
        requires
            old(self).wf(),
            old(self).running > 0,
        ensures
            final(self).running == old(self).running - 1,
            final(self).started == old(self).started,
            final(self).total == old(self).total,
            final(self).max == old(self).max,
            success ==> final(self).successes == old(self).successes + 1 && final(self).errors
                == old(self).errors,
            !success ==> final(self).errors == old(self).errors + 1 && final(self).successes
                == old(self).successes,
            final(self).wf(),
            final(self).running <= final(self).max,
    {
        self.running = self.running - 1;
        if success {
            self.successes = self.successes + 1;
        } else {
            self.errors = self.errors + 1;
        }
    }

    /// Whether every test has been admitted and has finished.
    pub fn all_done(&self) -> (r: bool)
        ensures
            r == (self.started == self.total && self.running == 0),
    {
        self.started == self.total && self.running == 0
    }

    /// The run's aggregate outcome: nothing when no test failed, else
    /// the summary naming how many of the tests that ran had errors.
    pub fn summary(&self) -> (r: Option<String>)
        requires
            self.wf(),
        ensures
            (r is Some) <==> self.errors != 0,
            self.errors != 0 ==> r->0@ == summary_message(
                self.errors as nat,
                (self.successes + self.errors) as nat,
            ),
    {
        if self.errors == 0 {
            return None;
        }
        let total = self.successes + self.errors;
        let mut s = String::from_str("Error: ");
        s.append(usize_to_decimal(self.errors).as_str());
        s.append(" ");
        s.append(test_or_tests(self.errors));
        s.append(" had errors out of ");
        s.append(usize_to_decimal(total).as_str());
        s.append(" ");
        s.append(test_or_tests(total));
        Some(s)
    }
}

/// The concurrency ceiling holds in every reachable state: `new`
/// establishes the well-formedness predicate, `start` and `finish`
/// preserve it, and it bounds the tests in flight by the ceiling — so
/// at no point during a run are more than `max` tests in flight.
pub proof fn lemma_concurrency_ceiling(s: Scheduler)
    requires
        s.wf(),
    ensures
        s.running <= s.max,
{
}

} // verus!
