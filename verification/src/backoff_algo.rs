//! Exponential-backoff sequence generator.
//!
//! Each step produces `power + jitter % power` and then doubles `power`,
//! so with zero jitter the produced values are `base, 2*base, 4*base, ...`.
//! A step whose value exceeds `max` reports exhaustion instead of a value,
//! but the internal state still reflects the attempted computation.

use vstd::prelude::*;

verus! {

/// Forward-only retry-delay sequence: not resettable, not rewindable.
/// A new attempt requires a fresh instance.
#[derive(Debug, PartialEq)]
pub struct BackoffAlgorithm {
    /// The largest value the generator may produce.
    pub max: usize,
    /// The first value produced, and the seed of the doubling sequence.
    pub base: usize,
    /// The doubling multiplier the next step will use; starts at `base`.
    pub power: usize,
    /// The most recently computed value (updated even on exhaustion).
    pub value: usize,
    /// Caller-supplied jitter, reduced modulo the current power each step;
    /// `None` means zero jitter.
    pub rand: Option<usize>,
}

impl BackoffAlgorithm {
    /// The jitter added on each step: the caller-supplied value, or zero.
    pub open spec fn spec_jitter(self) -> usize {
        match self.rand {
            Some(r) => r,
            None => 0,
        }
    }

    /// The value the next step computes: the current power, plus the
    /// jitter reduced modulo that power.
    pub open spec fn spec_step_value(self) -> int {
        self.power + self.spec_jitter() as int % self.power as int
    }

    /// Creates a generator whose first produced value is `base` (plus
    /// jitter) and whose values never exceed `max`.
    pub fn new(base: usize, max: usize, rand: Option<usize>) -> (r: BackoffAlgorithm)
        requires
            1 <= base,
        ensures
            r.base == base,
            r.max == max,
            r.rand == rand,
            r.value == base,
            r.power == base,
    {
        BackoffAlgorithm { base, max, power: base, value: base, rand }
    }

    /// The most recently computed value, even after exhaustion.
    pub fn get(&self) -> (r: usize)
        ensures
            r == self.value,
    {
        self.value
    }

    /// Advances the sequence: computes the next value and doubles the
    /// power.  Returns the value, or `None` when it exceeds `max`
    /// (exhaustion); the internal state keeps the attempted computation
    /// either way.
    pub fn next(&mut self) -> (r: Option<usize>)
        requires
            1 <= old(self).power <= usize::MAX / 2,
        ensures
            final(self).value == old(self).spec_step_value(),
            final(self).power == 2 * old(self).power,
            final(self).base == old(self).base,
            final(self).max == old(self).max,
            final(self).rand == old(self).rand,
            r == (if final(self).value <= final(self).max {
                Some(final(self).value)
            } else {
                None::<usize>
            }),
    {
        let jitter = match self.rand {
            Some(r) => r,
            None => 0,
        };
        self.value = self.power + jitter % self.power;
        self.power = self.power + self.power;

        if self.value <= self.max {
            Some(self.value)
        } else {
            None
        }
    }
}

/// With zero jitter each step produces exactly the current power.  Since a
/// step doubles the power, the state reached after one step (any `s2` with
/// twice the power and the same zero jitter) produces exactly twice as
/// much: the sequence `base, 2*base, 4*base, ...` strictly doubles until
/// it is exhausted.
pub proof fn lemma_backoff_zero_jitter_doubles(s1: BackoffAlgorithm, s2: BackoffAlgorithm)
    requires
        s1.spec_jitter() == 0,
        s2.spec_jitter() == 0,
        1 <= s1.power,
        s2.power == 2 * s1.power,
    ensures
        s1.spec_step_value() == s1.power,
        s2.spec_step_value() == 2 * s1.spec_step_value(),
{
}

/// Whatever the jitter, the value a step computes lies in
/// `[power, 2*power)`: jitter never makes a delay shorter than the
/// deterministic value nor as long as the next doubling.
pub proof fn lemma_backoff_value_range(s: BackoffAlgorithm)
    requires
        1 <= s.power,
    ensures
        s.power <= s.spec_step_value() < 2 * s.power,
{
}

} // verus!
