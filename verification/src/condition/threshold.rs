//! N-of-M threshold condition.
use super::{count_holding, Condition};
use crate::bignum::decimal;
use crate::outside::usize_to_string;
use vstd::prelude::*;
use vstd::string::StringExecFns;

verus! {

/// N-of-M threshold condition.
///
/// Satisfied when at least `threshold` of the `subconditions` verify. A
/// subcondition can be any [`Condition`], including a nested threshold.
#[derive(Debug, PartialEq, Eq)]
pub struct Threshold {
    /// Minimum number of valid subconditions required.
    pub threshold: usize,
    /// Subconditions to evaluate.
    pub subconditions: Vec<Condition>,
}

/// Threshold verification errors.
#[derive(Debug, Clone, Copy, PartialEq, Eq, Structural)]
pub enum Error {
    /// The threshold was zero.
    ZeroThreshold,
    /// The threshold exceeds the number of subconditions and can never be met.
    ThresholdUnsatisfiable {
        /// Minimum number of valid subconditions required.
        required: usize,
        /// Number of subconditions present.
        available: usize,
    },
    /// Fewer than the required number of subconditions were satisfied.
    ThresholdNotMet {
        /// Minimum number of valid subconditions required.
        required: usize,
        /// Number of verified subconditions.
        satisfied: usize,
    },
}

impl Error {
    /// The error's message.
    pub open spec fn message_spec(self) -> Seq<char> {
        match self {
            Error::ZeroThreshold => "threshold must be greater than zero"@,
            Error::ThresholdUnsatisfiable { required, available } => "threshold "@ + decimal(
                required as nat,
            ) + " exceeds the "@ + decimal(available as nat) + " subconditions available"@,
            Error::ThresholdNotMet { required, satisfied } => "needed at least "@ + decimal(
                required as nat,
            ) + " passes, but only "@ + decimal(satisfied as nat) + " succeeded"@,
        }
    }

    /// The error's message.
    pub fn message(&self) -> (s: String)
        ensures
            s@ == self.message_spec(),
    {
        match self {
            Error::ZeroThreshold => String::from_str("threshold must be greater than zero"),
            Error::ThresholdUnsatisfiable { required, available } => {
                let mut s = String::from_str("threshold ");
                s.append(usize_to_string(*required).as_str());
                s.append(" exceeds the ");
                s.append(usize_to_string(*available).as_str());
                s.append(" subconditions available");
                s
            },
            Error::ThresholdNotMet { required, satisfied } => {
                let mut s = String::from_str("needed at least ");
                s.append(usize_to_string(*required).as_str());
                s.append(" passes, but only ");
                s.append(usize_to_string(*satisfied).as_str());
                s.append(" succeeded");
                s
            },
        }
    }
}

impl Threshold {
    /// The error verification reports when the threshold is not met.
    pub open spec fn verify_error_spec(self) -> Error {
        if self.threshold == 0 {
            Error::ZeroThreshold
        } else if self.threshold > self.subconditions@.len() {
            Error::ThresholdUnsatisfiable {
                required: self.threshold,
                available: self.subconditions@.len() as usize,
            }
        } else {
            Error::ThresholdNotMet {
                required: self.threshold,
                satisfied: count_holding(self.subconditions@) as usize,
            }
        }
    }

    /// Verifies that at least `self.threshold` subconditions are satisfied.
    ///
    /// A threshold of zero is rejected as malformed, and so is a threshold above
    /// the number of subconditions, which can never be met.
    pub fn verify(&self) -> (r: Result<(), Error>)
        ensures
            r is Ok <==> Condition::Threshold(*self).holds(),
            r is Err ==> r == Err::<(), Error>(self.verify_error_spec()),
        decreases self, 1nat,
    {
        if self.threshold == 0 {
            Err(Error::ZeroThreshold)
        } else if self.threshold > self.subconditions.len() {
            Err(
                Error::ThresholdUnsatisfiable {
                    required: self.threshold,
                    available: self.subconditions.len(),
                },
            )
        } else {
            let satisfied = self.count_satisfied();
            if satisfied >= self.threshold {
                Ok(())
            } else {
                Err(Error::ThresholdNotMet { required: self.threshold, satisfied })
            }
        }
    }

    /// Counts the subconditions that verify. A subcondition that fails simply
    /// does not count.
    pub fn count_satisfied(&self) -> (n: usize)
        ensures
            n == count_holding(self.subconditions@),
        decreases self, 0nat,
    {
        let mut n: usize = 0;
        let mut i: usize = 0;
        while i < self.subconditions.len()
            invariant
                i <= self.subconditions@.len(),
                n == count_holding(self.subconditions@.subrange(0, i as int)),
                n <= i,
            decreases self.subconditions@.len() - i,
        {
            proof {
                assert(decreases_to!(self => self.subconditions));
                assert(decreases_to!(self.subconditions => self.subconditions@));
                assert(decreases_to!(self.subconditions@ => self.subconditions@[i as int]));
                assert(self.subconditions@.subrange(0, i + 1).drop_last() =~= self.subconditions@.subrange(0, i as int));
            }
            if self.subconditions[i].verify().is_ok() {
                n = n + 1;
            }
            i = i + 1;
        }
        assert(self.subconditions@.subrange(0, i as int) =~= self.subconditions@);
        n
    }
}

} // verus!
