use vstd::prelude::*;

use crate::decode::{decode_records, decoded_delegations};
use crate::records::{AccountId, DelegationRecord, StakeAccountRecord};

verus! {

/// A delegation must stake strictly more than this many lamports to be
/// considered for next-staker selection.
pub const MINIMUM_STAKER_STAKE: u64 = 1000000000;

/// The selection first looks for a delegation activated exactly this many
/// epochs before the query epoch.
pub const LOOKBACK_EPOCHS: u64 = 11;

/// Why next-staker selection can fail before looking at any record.
#[derive(Clone, Copy, PartialEq, Eq, Debug)]
pub enum SelectError {
    /// The query epoch is smaller than the lookback distance, so the lookback
    /// key cannot be formed.
    EpochUnderflow,
}

/// A delegation qualifies for selection when it deactivates strictly after
/// the query epoch and stakes strictly more than the minimum.
pub open spec fn qualifies(d: DelegationRecord, epoch: u64) -> bool {
    d.delegation.deactivation_epoch > epoch && d.delegation.stake_amount > MINIMUM_STAKER_STAKE
}

/// The mapping from activation epoch to account address over the qualifying
/// delegations, built in input order: a later delegation with the same
/// activation epoch overwrites an earlier one (last write wins).
pub open spec fn selection_map(ds: Seq<DelegationRecord>, epoch: u64) -> Map<u64, AccountId>
    decreases ds.len(),
{
    if ds.len() == 0 {
        Map::empty()
    } else {
        let m = selection_map(ds.drop_last(), epoch);
        if qualifies(ds.last(), epoch) {
            m.insert(ds.last().delegation.activation_epoch, ds.last().account_id)
        } else {
            m
        }
    }
}

/// `k` is the smallest activation epoch present in the mapping.
pub open spec fn is_min_key(m: Map<u64, AccountId>, k: u64) -> bool {
    &&& m.contains_key(k)
    &&& forall|j: u64| m.contains_key(j) ==> k <= j
}

/// The account the mapping selects: the entry at the lookback key when there
/// is one, otherwise the entry at the smallest activation epoch, and nothing
/// when the mapping is empty.
pub open spec fn selected_from_map(m: Map<u64, AccountId>, lookback: u64) -> Option<AccountId> {
    if m.contains_key(lookback) {
        Some(m[lookback])
    } else if exists|k: u64| m.contains_key(k) {
        Some(m[choose|k: u64| is_min_key(m, k)])
    } else {
        None
    }
}

/// Selects the next staker among the decoded delegations for `epoch`:
/// the qualifying delegation activated exactly `LOOKBACK_EPOCHS` before
/// `epoch` when one exists, otherwise the qualifying delegation with the
/// smallest activation epoch, under the last-write-wins rule for shared
/// activation epochs.  Fails exactly when `epoch` is too small for the
/// lookback, and selects nothing exactly when no delegation qualifies.
pub fn select_next_staker(delegations: &Vec<DelegationRecord>, epoch: u64) -> (r: Result<
    Option<AccountId>,
    SelectError,
>)
    ensures
        epoch < LOOKBACK_EPOCHS ==> r == Err::<Option<AccountId>, SelectError>(
            SelectError::EpochUnderflow,
        ),
        epoch >= LOOKBACK_EPOCHS ==> r == Ok::<Option<AccountId>, SelectError>(
            selected_from_map(selection_map(delegations@, epoch), (epoch - LOOKBACK_EPOCHS) as u64),
        ),
{
    if epoch < LOOKBACK_EPOCHS {
        return Err(SelectError::EpochUnderflow);
    }
    let lookback: u64 = epoch - LOOKBACK_EPOCHS;
    let ghost mut gm: Map<u64, AccountId> = Map::empty();
    let mut lookback_hit: Option<AccountId> = None;
    let mut best: Option<(u64, AccountId)> = None;
    let mut i: usize = 0;
    while i < delegations.len()
        invariant
            i <= delegations.len(),
            gm == selection_map(delegations@.take(i as int), epoch),
            lookback_hit == if gm.contains_key(lookback) {
                Some(gm[lookback])
            } else {
                None::<AccountId>
            },
            best is None ==> forall|k: u64| !gm.contains_key(k),
            best matches Some(kv) ==> is_min_key(gm, kv.0) && gm[kv.0] == kv.1,
        decreases delegations.len() - i,
    {
        proof {
            assert(delegations@.take(i as int + 1).drop_last() =~= delegations@.take(i as int));
            assert(delegations@.take(i as int + 1).last() == delegations@[i as int]);
        }
        let d = delegations[i];
        if d.delegation.deactivation_epoch > epoch && d.delegation.stake_amount
            > MINIMUM_STAKER_STAKE {
            let act = d.delegation.activation_epoch;
            proof {
                gm = gm.insert(act, d.account_id);
            }
            if act == lookback {
                lookback_hit = Some(d.account_id);
            }
            best = match best {
                None => Some((act, d.account_id)),
                Some((k, v)) => if act <= k {
                    Some((act, d.account_id))
                } else {
                    Some((k, v))
                },
            };
        }
        i = i + 1;
    }
    proof {
        assert(delegations@.take(delegations@.len() as int) =~= delegations@);
    }
    match lookback_hit {
        Some(id) => Ok(Some(id)),
        None => match best {
            None => Ok(None),
            Some((k, v)) => {
                proof {
                    assert(is_min_key(gm, k));
                    let kc = choose|j: u64| is_min_key(gm, j);
                    assert(is_min_key(gm, kc));
                    assert(kc <= k);
                    assert(k <= kc);
                }
                Ok(Some(v))
            },
        },
    }
}

/// Selects the next staker from raw records for `epoch`: records that do not
/// decode to a stake delegation are skipped, and the decoded delegations are
/// processed in input order.
pub fn process_stake_accounts_info_for_staker(
    epoch: u64,
    records: &Vec<StakeAccountRecord>,
) -> (r: Result<Option<AccountId>, SelectError>)
    ensures
        epoch < LOOKBACK_EPOCHS ==> r == Err::<Option<AccountId>, SelectError>(
            SelectError::EpochUnderflow,
        ),
        epoch >= LOOKBACK_EPOCHS ==> r == Ok::<Option<AccountId>, SelectError>(
            selected_from_map(
                selection_map(decoded_delegations(records@), epoch),
                (epoch - LOOKBACK_EPOCHS) as u64,
            ),
        ),
{
    let delegations = decode_records(records);
    select_next_staker(&delegations, epoch)
}

/// With no input there is nothing to sum and nothing to select: the total for
/// any epoch is 0 and the selection mapping is empty, so no staker is chosen.
pub proof fn lemma_empty_input_yields_nothing(epoch: u64, lookback: u64)
    ensures
        crate::aggregate::total_active_stake_spec(Seq::<DelegationRecord>::empty(), epoch) == 0,
        selection_map(Seq::<DelegationRecord>::empty(), epoch) == Map::<u64, AccountId>::empty(),
        selected_from_map(selection_map(Seq::<DelegationRecord>::empty(), epoch), lookback)
            is None,
{
    let m = selection_map(Seq::<DelegationRecord>::empty(), epoch);
    assert(forall|k: u64| !m.contains_key(k));
}

} // verus!
