//! Execution strategies: the pass/fail policy applied to an aggregated
//! tally.

use vstd::prelude::*;
use crate::state::StateSnapshot;
use crate::uint256::{p256, U256};

verus! {

/// Vote counts by direction.
#[derive(Clone, Copy, PartialEq, Eq, Structural, Debug)]
pub struct Tally {
    pub yes: U256,
    pub no: U256,
    pub abstain: U256,
}

impl Tally {
    /// The sum of the three counts, as a mathematical integer.
    pub open spec fn total(&self) -> nat {
        self.yes@ + self.no@ + self.abstain@
    }
}

/// The majority-threshold policy: more than half of the total supply must
/// participate, and the yes votes must be a strict majority of the
/// non-abstaining votes.  Integer division means an exact half fails both
/// gates.
pub open spec fn spec_majority_passes(total_supply: nat, yes: nat, no: nat, abstain: nat) -> bool {
    if yes + no + abstain <= total_supply / 2 {
        false
    } else {
        yes > (yes + no) / 2
    }
}

/// The Majority Threshold execution strategy.
pub struct MajorityVoting;

impl MajorityVoting {
    /// Decides pass or fail from the tally and the total-supply figure; a
    /// pure function of its inputs.
    pub fn proof_execution(&self, _env: &StateSnapshot, total_supply: &U256, tally: &Tally) -> (r:
        bool)
        requires
            tally.total() < p256(),
        ensures
            r == spec_majority_passes(total_supply@, tally.yes@, tally.no@, tally.abstain@),
    {
        let yes_votes = tally.yes;
        let no_votes = tally.no;
        let abstain_votes = tally.abstain;
        let non_abstain = match yes_votes.checked_add(&no_votes) {
            Some(s) => s,
            None => {
                proof {
                    assert(false);
                }
                yes_votes
            },
        };
        let total_votes = match non_abstain.checked_add(&abstain_votes) {
            Some(s) => s,
            None => {
                proof {
                    assert(false);
                }
                non_abstain
            },
        };
        let two = U256::from_u64(2);
        // More than half of the total supply must have voted.
        let participation_gate = total_supply.div_rem(&two).0;
        if !total_votes.gt(&participation_gate) {
            return false;
        }
        // Yes must be a strict majority of the non-abstaining votes.
        let threshold = non_abstain.div_rem(&two).0;
        yes_votes.gt(&threshold)
    }
}

} // verus!
