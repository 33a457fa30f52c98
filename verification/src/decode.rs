use vstd::prelude::*;

use solana_sdk::account::Account;
use solana_sdk::account_utils::StateMut;
use solana_sdk::pubkey::Pubkey;
use solana_sdk::stake::state::StakeStateV2;

use crate::records::{DelegationRecord, StakeAccountRecord, StakeDelegation};

verus! {

/// The stake delegation encoded in an account's data, as
/// `(stake_amount, activation_epoch, deactivation_epoch)`, or `None` where
/// the bytes do not decode to the delegated-stake variant of the stake-state
/// enumeration.  The decoded value is a function of the bytes alone.
pub uninterp spec fn decode_of(data: Seq<u8>) -> Option<(u64, u64, u64)>;

/// Relies on `solana_sdk`'s stake-state deserialization
/// (`StateMut::<StakeStateV2>::state` on an account holding these data
/// bytes): the result is a function of the bytes alone; accounts that do not
/// hold the `Stake` variant decode to `None`.
#[verifier::external_body]
fn decode_stake_delegation(data: &Vec<u8>) -> (r: Option<(u64, u64, u64)>)
    ensures
        r == decode_of(data@),
{
    let owner = Pubkey::default();
    let account =
        Account { lamports: 0, data: data.clone(), owner, executable: false, rent_epoch: 0 };
    let state: Result<StakeStateV2, _> = StateMut::state(&account);
    match state {
        Ok(StakeStateV2::Stake(_meta, stake, _flags)) => {
            let d = stake.delegation;
            Some((d.stake, d.activation_epoch, d.deactivation_epoch))
        },
        _ => None,
    }
}

/// The library's delegation value for one decoded triple.
pub open spec fn delegation_of(t: (u64, u64, u64)) -> StakeDelegation {
    StakeDelegation { stake_amount: t.0, activation_epoch: t.1, deactivation_epoch: t.2 }
}

/// The delegations decoded from a record sequence, in input order; records
/// whose data do not decode are skipped.
pub open spec fn decoded_delegations(records: Seq<StakeAccountRecord>) -> Seq<DelegationRecord>
    decreases records.len(),
{
    if records.len() == 0 {
        Seq::empty()
    } else {
        let rest = decoded_delegations(records.drop_last());
        match decode_of(records.last().data@) {
            Some(t) => rest.push(
                DelegationRecord { account_id: records.last().account_id, delegation: delegation_of(t) },
            ),
            None => rest,
        }
    }
}

/// Decodes every record, keeping input order and skipping records whose data
/// do not decode to a stake delegation.
pub fn decode_records(records: &Vec<StakeAccountRecord>) -> (delegations: Vec<DelegationRecord>)
    ensures
        delegations@ == decoded_delegations(records@),
{
    let mut delegations: Vec<DelegationRecord> = Vec::new();
    let mut i: usize = 0;
    while i < records.len()
        invariant
            i <= records.len(),
            delegations@ == decoded_delegations(records@.take(i as int)),
        decreases records.len() - i,
    {
        proof {
            assert(records@.take(i as int + 1).drop_last() =~= records@.take(i as int));
            assert(records@.take(i as int + 1).last() == records@[i as int]);
        }
        match decode_stake_delegation(&records[i].data) {
            Some(t) => {
                delegations.push(DelegationRecord {
                    account_id: records[i].account_id,
                    delegation: StakeDelegation {
                        stake_amount: t.0,
                        activation_epoch: t.1,
                        deactivation_epoch: t.2,
                    },
                });
            },
            None => {},
        }
        i = i + 1;
    }
    proof {
        assert(records@.take(records@.len() as int) =~= records@);
    }
    delegations
}

} // verus!
