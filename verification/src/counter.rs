//! Call counters: each call pattern carries one, tracking the declared minimum
//! number of invocations, an exactness qualifier and the actual count.

use vstd::prelude::*;

use crate::error::MockError;
use crate::error::MockErrorModel;
use crate::error::errors_model;

verus! {

/// Qualifies how the declared minimum of a counter is to be read.
///
/// Merging through [`CallCounter::add_to_minimum`] only ever widens the
/// constraint: a later quantification may re-pin or loosen the qualifier, but
/// an `Exact` qualifier is never silently downgraded by a pending
/// `AtLeastPlusOne`.
#[derive(Clone, Copy, PartialEq, Eq, Structural, Debug)]
pub enum Exactness {
    /// The pattern must be called exactly `minimum` times; once that quota is
    /// reached the pattern no longer matches.
    Exact,
    /// The pattern must be called at least `minimum` times.
    AtLeast,
    /// The pattern must be called at least `minimum + 1` times; the extra one
    /// stands in for a response step that was declared but not yet quantified.
    AtLeastPlusOne,
}

/// {minimum, exactness, actual} for one call pattern.
#[derive(Clone, Copy, PartialEq, Eq, Structural, Debug)]
pub struct CallCounter {
    pub minimum: usize,
    pub exactness: Exactness,
    pub actual: usize,
}

/// How an incoming exactness qualifier merges into the current one: a new
/// explicit quantification wins, while `AtLeastPlusOne` survives only on top
/// of an `Exact` qualifier, as the pending extra response step.
pub open spec fn merge_exactness(cur: Exactness, incoming: Exactness) -> Exactness {
    match incoming {
        Exactness::Exact => Exactness::Exact,
        Exactness::AtLeast => if cur is Exact {
            Exactness::Exact
        } else {
            Exactness::AtLeast
        },
        Exactness::AtLeastPlusOne => if cur is Exact {
            Exactness::AtLeastPlusOne
        } else {
            cur
        },
    }
}

/// The number of invocations a counter actually demands at teardown.
pub open spec fn required_minimum(c: CallCounter) -> nat {
    if c.exactness is AtLeastPlusOne {
        (c.minimum + 1) as nat
    } else {
        c.minimum as nat
    }
}

/// Whether an `Exact` quota is used up, which removes the pattern from
/// unordered-mode matching.
pub open spec fn counter_exhausted(c: CallCounter) -> bool {
    c.exactness is Exact && c.actual >= c.minimum
}

/// The errors that verifying one counter contributes: never applied when the
/// pattern saw no call at all, unfulfilled when it saw some but fewer than the
/// required minimum, and nothing once the minimum is reached.
pub open spec fn counter_verify_model(c: CallCounter, name: Seq<char>, pat_index: nat) -> Seq<
    MockErrorModel,
> {
    if c.actual == 0 {
        seq![MockErrorModel::NeverApplied { name, pat_index }]
    } else if (c.actual as nat) < required_minimum(c) {
        seq![
            MockErrorModel::Unfulfilled {
                name,
                pat_index,
                minimum: c.minimum as nat,
                actual: c.actual as nat,
            },
        ]
    } else {
        seq![]
    }
}

impl CallCounter {
    /// A fresh counter with no recorded invocations.
    pub fn new(minimum: usize, exactness: Exactness) -> (r: CallCounter)
        ensures
            r == (CallCounter { minimum, exactness, actual: 0 }),
    {
        CallCounter { minimum, exactness, actual: 0 }
    }

    /// Raises the declared minimum by `delta` and merges the incoming
    /// exactness qualifier; the actual count is untouched.
    pub fn add_to_minimum(&mut self, delta: usize, exactness: Exactness)
        requires
            old(self).minimum + delta <= usize::MAX,
        ensures
            *final(self) == (CallCounter {
                minimum: (old(self).minimum + delta) as usize,
                exactness: merge_exactness(old(self).exactness, exactness),
                actual: old(self).actual,
            }),
    {
        self.minimum = self.minimum + delta;
        self.exactness = match (self.exactness, exactness) {
            (_, Exactness::Exact) => Exactness::Exact,
            (Exactness::Exact, Exactness::AtLeast) => Exactness::Exact,
            (_, Exactness::AtLeast) => Exactness::AtLeast,
            (Exactness::Exact, Exactness::AtLeastPlusOne) => Exactness::AtLeastPlusOne,
            (cur, Exactness::AtLeastPlusOne) => cur,
        };
    }

    /// The concrete call quota, available only under an `Exact` qualifier;
    /// sequence-mode assembly is gated on this.
    pub fn get_expected_exact_count(&self) -> (r: Option<usize>)
        ensures
            r == if self.exactness is Exact {
                Some(self.minimum)
            } else {
                Option::<usize>::None
            },
    {
        match self.exactness {
            Exactness::Exact => Some(self.minimum),
            _ => None,
        }
    }

    /// Records one invocation and returns the pre-increment ordinal, which
    /// selects the active response step. The count saturates at the machine
    /// limit.
    pub fn fetch_add(&mut self) -> (r: usize)
        ensures
            r == old(self).actual,
            *final(self) == (CallCounter {
                actual: if old(self).actual < usize::MAX {
                    (old(self).actual + 1) as usize
                } else {
                    usize::MAX
                },
                ..*old(self)
            }),
    {
        let pre = self.actual;
        self.actual = self.actual.saturating_add(1);
        pre
    }

    /// Checks this counter's contract at teardown: flags the pattern as never
    /// applied iff it saw no call, as unfulfilled iff it saw some calls but
    /// fewer than the required minimum, and flags nothing otherwise.
    pub fn verify(&self, name: &str, pat_index: usize, errors: &mut Vec<MockError>)
        ensures
            errors_model(final(errors)@) == errors_model(old(errors)@) + counter_verify_model(
                *self,
                name@,
                pat_index as nat,
            ),
    {
        let unmet = match self.exactness {
            Exactness::AtLeastPlusOne => self.actual <= self.minimum,
            _ => self.actual < self.minimum,
        };
        if self.actual == 0 {
            errors.push(MockError::NeverApplied { name: name.to_owned(), pat_index });
        } else if unmet {
            errors.push(
                MockError::Unfulfilled {
                    name: name.to_owned(),
                    pat_index,
                    minimum: self.minimum,
                    actual: self.actual,
                },
            );
        }
        proof {
            assert(errors_model(final(errors)@) =~= errors_model(old(errors)@)
                + counter_verify_model(*self, name@, pat_index as nat));
        }
    }
}

} // verus!
