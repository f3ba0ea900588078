//! The validator registry: eligibility, activity bookkeeping and the
//! decaying performance score, kept on the consensus state.

use vstd::prelude::*;
use vstd::pervasive::VecAdditionalExecFns;
use crate::codec::{bytes_eq, copy_bytes};
use crate::types::{
    ConsensusState, ConsensusStateModel, ValidatorEntry, ValidatorEntryModel, ValidatorInfo,
    models_of, lemma_models_push, lemma_models_update,
};

verus! {

/// The activity window of the score rule: five minutes, in seconds.
pub const ACTIVITY_WINDOW_SECONDS: i64 = 300;

/// Whether the registry holds an active validator with this identity.
pub open spec fn spec_is_eligible(validators: Seq<ValidatorEntryModel>, id: Seq<u8>) -> bool {
    exists|i: int|
        0 <= i < validators.len() && (#[trigger] validators[i]).node_id == id
            && validators[i].info.is_active
}

/// A validator's bookkeeping after one tick: the score rises by ten
/// hundredths, capped at one hundred, if the validator produced activity
/// within the window; otherwise it falls by five hundredths, floored at
/// zero.
pub open spec fn spec_decay_info(info: ValidatorInfo, now: i64) -> ValidatorInfo {
    if now - info.last_block_time < ACTIVITY_WINDOW_SECONDS {
        ValidatorInfo {
            performance_score: if info.performance_score >= 90 {
                100
            } else {
                (info.performance_score + 10) as u32
            },
            ..info
        }
    } else {
        ValidatorInfo {
            performance_score: if info.performance_score <= 5 {
                0
            } else {
                (info.performance_score - 5) as u32
            },
            ..info
        }
    }
}

/// The whole registry after one tick of the score rule.
pub open spec fn spec_decay_validators(vs: Seq<ValidatorEntryModel>, now: i64) -> Seq<
    ValidatorEntryModel,
> {
    vs.map_values(
        |e: ValidatorEntryModel| ValidatorEntryModel {
            node_id: e.node_id,
            info: spec_decay_info(e.info, now),
        },
    )
}

/// The registry after noting activity: every entry with the given
/// identity takes the given time as its last block time.
pub open spec fn spec_record_activity(vs: Seq<ValidatorEntryModel>, id: Seq<u8>, at: i64) -> Seq<
    ValidatorEntryModel,
> {
    vs.map_values(
        |e: ValidatorEntryModel|
            if e.node_id == id {
                ValidatorEntryModel {
                    node_id: e.node_id,
                    info: ValidatorInfo { last_block_time: at, ..e.info },
                }
            } else {
                e
            },
    )
}

impl ConsensusState {
    /// True exactly when a validator with this identity is present and
    /// active.
    #[verifier::loop_isolation(false)]
    pub fn is_eligible(&self, node_id: &[u8]) -> (r: bool)
        ensures
            r == spec_is_eligible(self@.validators, node_id@),
    {
        let mut i: usize = 0;
        while i < self.validators.len()
            invariant
                i <= self.validators@.len(),
                forall|k: int|
                    0 <= k < i ==> !((#[trigger] self@.validators[k]).node_id == node_id@
                        && self@.validators[k].info.is_active),
            decreases self.validators@.len() - i,
        {
            if self.validators[i].info.is_active
                && bytes_eq(self.validators[i].node_id.as_slice(), node_id) {
                assert(self@.validators[i as int].node_id == node_id@);
                return true;
            }
            i = i + 1;
        }
        false
    }

    /// Notes that the validator with this identity produced activity at
    /// the given time.
    #[verifier::loop_isolation(false)]
    pub fn record_activity(&mut self, node_id: &[u8], at: i64)
        ensures
            final(self)@ == (ConsensusStateModel {
                validators: spec_record_activity(old(self)@.validators, node_id@, at),
                ..old(self)@
            }),
    {
        let ghost vs = models_of(self.validators@);
        let mut updated: Vec<ValidatorEntry> = Vec::new();
        let mut i: usize = 0;
        assert(models_of(updated@) =~= spec_record_activity(vs, node_id@, at).take(0));
        while i < self.validators.len()
            invariant
                self.validators == old(self).validators,
                self.current_block == old(self).current_block,
                self.total_stake == old(self).total_stake,
                self.epoch == old(self).epoch,
                vs == models_of(self.validators@),
                i <= vs.len(),
                models_of(updated@) =~= spec_record_activity(vs, node_id@, at).take(i as int),
            decreases vs.len() - i,
        {
            let ghost pre = updated@;
            let id = copy_bytes(self.validators[i].node_id.as_slice());
            let e = if bytes_eq(self.validators[i].node_id.as_slice(), node_id) {
                ValidatorEntry {
                    node_id: id,
                    info: ValidatorInfo { last_block_time: at, ..self.validators[i].info },
                }
            } else {
                ValidatorEntry { node_id: id, info: self.validators[i].info }
            };
            updated.push(e);
            proof {
                lemma_models_push(pre, e);
                assert(models_of(updated@) =~= spec_record_activity(vs, node_id@, at).take(i + 1));
            }
            i = i + 1;
        }
        assert(spec_record_activity(vs, node_id@, at).take(i as int) =~= spec_record_activity(
            vs,
            node_id@,
            at,
        ));
        self.validators = updated;
        assert(self@ =~= (ConsensusStateModel {
            validators: spec_record_activity(old(self)@.validators, node_id@, at),
            ..old(self)@
        }));
    }

    /// Runs one tick of the score rule over every validator.
    #[verifier::loop_isolation(false)]
    pub fn decay_scores(&mut self, now: i64)
        ensures
            final(self)@ == (ConsensusStateModel {
                validators: spec_decay_validators(old(self)@.validators, now),
                ..old(self)@
            }),
    {
        let ghost vs = models_of(self.validators@);
        let mut updated: Vec<ValidatorEntry> = Vec::new();
        let mut i: usize = 0;
        assert(models_of(updated@) =~= spec_decay_validators(vs, now).take(0));
        while i < self.validators.len()
            invariant
                self.validators == old(self).validators,
                self.current_block == old(self).current_block,
                self.total_stake == old(self).total_stake,
                self.epoch == old(self).epoch,
                vs == models_of(self.validators@),
                i <= vs.len(),
                models_of(updated@) =~= spec_decay_validators(vs, now).take(i as int),
            decreases vs.len() - i,
        {
            let ghost pre = updated@;
            let info = self.validators[i].info;
            let active_recently = (now as i128) - (info.last_block_time as i128)
                < (ACTIVITY_WINDOW_SECONDS as i128);
            let score = if active_recently {
                if info.performance_score >= 90 {
                    100
                } else {
                    info.performance_score + 10
                }
            } else {
                if info.performance_score <= 5 {
                    0
                } else {
                    info.performance_score - 5
                }
            };
            let e = ValidatorEntry {
                node_id: copy_bytes(self.validators[i].node_id.as_slice()),
                info: ValidatorInfo { performance_score: score, ..info },
            };
            updated.push(e);
            proof {
                lemma_models_push(pre, e);
                assert(e@.info == spec_decay_info(vs[i as int].info, now));
                assert(models_of(updated@) =~= spec_decay_validators(vs, now).take(i + 1));
            }
            i = i + 1;
        }
        assert(spec_decay_validators(vs, now).take(i as int) =~= spec_decay_validators(vs, now));
        self.validators = updated;
        assert(self@ =~= (ConsensusStateModel {
            validators: spec_decay_validators(old(self)@.validators, now),
            ..old(self)@
        }));
    }
}

/// LAW.  The score rule keeps every score within its bounds: a score in
/// `0 ..= 100` stays in `0 ..= 100` after any tick.
pub proof fn lemma_decay_score_bounded(info: ValidatorInfo, now: i64)
    requires
        info.performance_score <= 100,
    ensures
        spec_decay_info(info, now).performance_score <= 100,
{
}

/// LAW.  An inactive validator's score falls by exactly five hundredths
/// per tick until it reaches zero, and stays there.
pub proof fn lemma_decay_score_inactive(info: ValidatorInfo, now: i64)
    requires
        now - info.last_block_time >= ACTIVITY_WINDOW_SECONDS,
    ensures
        info.performance_score > 5 ==> spec_decay_info(info, now).performance_score
            == info.performance_score - 5,
        info.performance_score <= 5 ==> spec_decay_info(info, now).performance_score == 0,
{
}

} // verus!
