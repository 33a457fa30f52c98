use vstd::prelude::*;
use vstd::seq_lib::commutative_foldr;
use vstd::seq_lib::lemma_fold_right_permutation;

use crate::decode::{decode_of, decode_records, decoded_delegations, delegation_of};
use crate::records::{DelegationRecord, StakeAccountRecord, StakeDelegation};

verus! {

/// A delegation counts toward an epoch's total exactly when it activated
/// strictly before the epoch and deactivates strictly after it.
pub open spec fn delegation_active(d: StakeDelegation, epoch: u64) -> bool {
    d.activation_epoch < epoch && d.deactivation_epoch > epoch
}

/// What one delegation contributes to the total for an epoch.
pub open spec fn active_contribution(d: DelegationRecord, epoch: u64) -> int {
    if delegation_active(d.delegation, epoch) {
        d.delegation.stake_amount as int
    } else {
        0
    }
}

/// The total stake active during an epoch, summed over a delegation sequence.
pub open spec fn total_active_stake_spec(ds: Seq<DelegationRecord>, epoch: u64) -> int
    decreases ds.len(),
{
    if ds.len() == 0 {
        0
    } else {
        total_active_stake_spec(ds.drop_last(), epoch) + active_contribution(ds.last(), epoch)
    }
}

/// What one raw record contributes to the total for an epoch: the stake of
/// its decoded delegation when it decodes and is active, and 0 otherwise.
spec fn record_contribution(r: StakeAccountRecord, epoch: u64) -> int {
    match decode_of(r.data@) {
        Some(t) => if delegation_active(delegation_of(t), epoch) {
            delegation_of(t).stake_amount as int
        } else {
            0
        },
        None => 0,
    }
}

/// The fold step that accumulates record contributions.
spec fn contribution_fold_fn(epoch: u64) -> spec_fn(StakeAccountRecord, int) -> int {
    |r: StakeAccountRecord, acc: int| acc + record_contribution(r, epoch)
}

proof fn lemma_total_active_stake_bounds(ds: Seq<DelegationRecord>, epoch: u64)
    ensures
        0 <= total_active_stake_spec(ds, epoch) <= ds.len() * (u64::MAX as int),
    decreases ds.len(),
{
    if ds.len() > 0 {
        lemma_total_active_stake_bounds(ds.drop_last(), epoch);
    }
}

/// Sums the stake of every delegation active during `epoch` in a 128-bit
/// accumulator, which cannot overflow.
pub fn compute_total_active_stake(delegations: &Vec<DelegationRecord>, epoch: u64) -> (total:
    u128)
    ensures
        total as int == total_active_stake_spec(delegations@, epoch),
{
    let mut total: u128 = 0;
    let mut i: usize = 0;
    while i < delegations.len()
        invariant
            i <= delegations.len(),
            total as int == total_active_stake_spec(delegations@.take(i as int), epoch),
        decreases delegations.len() - i,
    {
        proof {
            assert(delegations@.take(i as int + 1).drop_last() =~= delegations@.take(i as int));
            assert(delegations@.take(i as int + 1).last() == delegations@[i as int]);
            lemma_total_active_stake_bounds(delegations@.take(i as int), epoch);
            assert((i as int) * (u64::MAX as int) + (u64::MAX as int) <= u128::MAX as int)
                by (nonlinear_arith)
                requires
                    0 <= i as int <= u64::MAX as int,
            ;
        }
        let d = delegations[i];
        if d.delegation.activation_epoch < epoch && d.delegation.deactivation_epoch > epoch {
            total = total + d.delegation.stake_amount as u128;
        }
        i = i + 1;
    }
    proof {
        assert(delegations@.take(delegations@.len() as int) =~= delegations@);
    }
    total
}

/// The total stake active during an epoch, computed from raw records:
/// records that do not decode to a stake delegation are skipped, and each
/// decoded delegation counts exactly when it is active during `epoch`.
pub fn process_stake_accounts_info_for_total_stake(
    epoch: u64,
    records: &Vec<StakeAccountRecord>,
) -> (total: u128)
    ensures
        total as int == total_active_stake_spec(decoded_delegations(records@), epoch),
{
    let delegations = decode_records(records);
    compute_total_active_stake(&delegations, epoch)
}

/// The total over the decoded sequence equals the fold of the record
/// contributions over the raw sequence.
proof fn lemma_total_of_decoded(records: Seq<StakeAccountRecord>, epoch: u64)
    ensures
        total_active_stake_spec(decoded_delegations(records), epoch) == records.fold_right(
            contribution_fold_fn(epoch),
            0,
        ),
    decreases records.len(),
{
    lemma_fold_shifts_accumulator(records, epoch, 0);
    lemma_total_equals_record_total(records, epoch);
}

/// The record-level recursive total.
spec fn record_total_spec(records: Seq<StakeAccountRecord>, epoch: u64) -> int
    decreases records.len(),
{
    if records.len() == 0 {
        0
    } else {
        record_total_spec(records.drop_last(), epoch) + record_contribution(records.last(), epoch)
    }
}

proof fn lemma_total_equals_record_total(records: Seq<StakeAccountRecord>, epoch: u64)
    ensures
        total_active_stake_spec(decoded_delegations(records), epoch) == record_total_spec(
            records,
            epoch,
        ),
    decreases records.len(),
{
    if records.len() > 0 {
        lemma_total_equals_record_total(records.drop_last(), epoch);
        let rest = decoded_delegations(records.drop_last());
        match decode_of(records.last().data@) {
            Some(t) => {
                let dr = DelegationRecord {
                    account_id: records.last().account_id,
                    delegation: delegation_of(t),
                };
                assert(rest.push(dr).drop_last() =~= rest);
                assert(rest.push(dr).last() == dr);
            },
            None => {},
        }
    }
}

proof fn lemma_fold_shifts_accumulator(records: Seq<StakeAccountRecord>, epoch: u64, acc: int)
    ensures
        records.fold_right(contribution_fold_fn(epoch), acc) == record_total_spec(records, epoch)
            + acc,
    decreases records.len(),
{
    if records.len() > 0 {
        let f = contribution_fold_fn(epoch);
        lemma_fold_shifts_accumulator(records.drop_last(), epoch, f(records.last(), acc));
    }
}

/// The total active stake is order-independent: two record sequences that
/// hold the same records, in any order, give the same total.
pub proof fn lemma_total_active_stake_order_independent(
    s: Seq<StakeAccountRecord>,
    t: Seq<StakeAccountRecord>,
    epoch: u64,
)
    requires
        s.to_multiset() == t.to_multiset(),
    ensures
        total_active_stake_spec(decoded_delegations(s), epoch) == total_active_stake_spec(
            decoded_delegations(t),
            epoch,
        ),
{
    let f = contribution_fold_fn(epoch);
    assert(commutative_foldr(f)) by {
        assert(forall|x: StakeAccountRecord, y: StakeAccountRecord, v: int| #[trigger] f(
            x,
            f(y, v),
        ) == f(y, f(x, v)));
    }
    lemma_fold_right_permutation(s, t, f, 0);
    lemma_total_of_decoded(s, epoch);
    lemma_total_of_decoded(t, epoch);
}

/// A delegation whose activation epoch is at or after the query epoch, or
/// whose deactivation epoch is at or before it, is excluded from the total.
pub proof fn lemma_boundary_epoch_excluded(
    ds: Seq<DelegationRecord>,
    d: DelegationRecord,
    epoch: u64,
)
    requires
        d.delegation.activation_epoch >= epoch || d.delegation.deactivation_epoch <= epoch,
    ensures
        total_active_stake_spec(ds.push(d), epoch) == total_active_stake_spec(ds, epoch),
{
    assert(ds.push(d).drop_last() =~= ds);
    assert(ds.push(d).last() == d);
}

} // verus!
