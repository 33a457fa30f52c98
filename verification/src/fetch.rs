use vstd::prelude::*;

use crate::records::AccountId;

verus! {

/// How many times one fetch may be attempted before it is exhausted.
pub const RPC_CALL_MAX_RETRIES: u64 = 5;

/// Byte offset of the stake-state enumeration discriminant in account data.
pub const STAKE_VARIANT_FILTER_OFFSET: u64 = 0;

/// Byte offset of the delegated vote account's address in account data.
pub const VOTER_PUBKEY_FILTER_OFFSET: u64 = 124;

/// Why a fetch fails.
#[derive(Clone, Copy, PartialEq, Eq, Debug)]
pub enum FetchError {
    /// Every permitted attempt failed.
    Exhausted,
}

/// A byte-level match predicate applied by the ledger-state service: the
/// account data at `offset` must equal `bytes`.
pub struct MemcmpFilter {
    pub offset: u64,
    pub bytes: Vec<u8>,
}

/// The 4-byte discriminant marking the `Stake` variant of the stake-state
/// enumeration.
pub open spec fn stake_variant_discriminant() -> Seq<u8> {
    seq![2u8, 0u8, 0u8, 0u8]
}

/// The filter pair for one fetch: the account must be in the `Stake` variant
/// and must delegate to the given vote account.  The two filters are always
/// built together; a fetch with only one of them is not a supported mode.
pub fn stake_account_filters(vote_account: &AccountId) -> (filters: Vec<MemcmpFilter>)
    ensures
        filters@.len() == 2,
        filters@[0].offset == STAKE_VARIANT_FILTER_OFFSET,
        filters@[0].bytes@ == stake_variant_discriminant(),
        filters@[1].offset == VOTER_PUBKEY_FILTER_OFFSET,
        filters@[1].bytes@ == vote_account.0@,
{
    let mut discriminant: Vec<u8> = Vec::new();
    discriminant.push(2u8);
    discriminant.push(0u8);
    discriminant.push(0u8);
    discriminant.push(0u8);
    proof {
        assert(discriminant@ =~= stake_variant_discriminant());
    }
    let mut vote_bytes: Vec<u8> = Vec::new();
    let mut i: usize = 0;
    while i < 32
        invariant
            i <= 32,
            vote_bytes@ =~= vote_account.0@.take(i as int),
        decreases 32 - i,
    {
        vote_bytes.push(vote_account.0[i]);
        i = i + 1;
    }
    proof {
        assert(vote_account.0@.take(32) =~= vote_account.0@);
    }
    let mut filters: Vec<MemcmpFilter> = Vec::new();
    filters.push(MemcmpFilter { offset: STAKE_VARIANT_FILTER_OFFSET, bytes: discriminant });
    filters.push(MemcmpFilter { offset: VOTER_PUBKEY_FILTER_OFFSET, bytes: vote_bytes });
    filters
}

/// The retry bookkeeping for one fetch: how many attempts have failed and how
/// many are permitted in all.  The caller performs one attempt whenever
/// `should_attempt` allows it, records each failure, and gives up with
/// `FetchError::Exhausted` once attempts are no longer permitted.
pub struct RetryTracker {
    pub max_attempts: u64,
    pub failures: u64,
}

impl RetryTracker {
    /// Every permitted attempt has failed.
    pub open spec fn exhausted(&self) -> bool {
        self.failures >= self.max_attempts
    }

    pub fn new(max_attempts: u64) -> (t: Self)
        ensures
            t.max_attempts == max_attempts,
            t.failures == 0,
    {
        RetryTracker { max_attempts, failures: 0 }
    }

    /// Whether one more attempt is permitted.
    pub fn should_attempt(&self) -> (b: bool)
        ensures
            b == !self.exhausted(),
    {
        self.failures < self.max_attempts
    }

    /// Records one failed attempt.
    pub fn record_failure(&mut self)
        requires
            !old(self).exhausted(),
        ensures
            final(self).failures == old(self).failures + 1,
            final(self).max_attempts == old(self).max_attempts,
    {
        self.failures = self.failures + 1;
    }
}

} // verus!
