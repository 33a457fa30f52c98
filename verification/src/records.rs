use vstd::prelude::*;

verus! {

/// A fixed-size 32-byte account address.
#[derive(Clone, Copy, PartialEq, Eq, Debug)]
pub struct AccountId(pub [u8; 32]);

/// A stake delegation decoded from a stake account's data: the delegated
/// amount in lamports and the epoch window in which it is active.  A
/// `deactivation_epoch` of `u64::MAX` means the delegation never deactivates.
#[derive(Clone, Copy, PartialEq, Eq, Debug)]
pub struct StakeDelegation {
    pub stake_amount: u64,
    pub activation_epoch: u64,
    pub deactivation_epoch: u64,
}

/// A raw account as fetched from the ledger-state service: its address and
/// its undecoded data bytes.  Decoding happens only during aggregation.
pub struct StakeAccountRecord {
    pub account_id: AccountId,
    pub data: Vec<u8>,
}

/// An account address together with the delegation decoded from its data.
#[derive(Clone, Copy)]
pub struct DelegationRecord {
    pub account_id: AccountId,
    pub delegation: StakeDelegation,
}

/// Total delegated stake that was active during one epoch.
#[derive(Clone, Copy, PartialEq, Eq, Debug)]
pub struct ValidatorStakeForEpoch {
    pub total_stake: u128,
    pub epoch: u64,
}

impl ValidatorStakeForEpoch {
    pub fn new(total_stake: u128, epoch: u64) -> (s: Self)
        ensures
            s.total_stake == total_stake,
            s.epoch == epoch,
    {
        ValidatorStakeForEpoch { total_stake, epoch }
    }
}

} // verus!
