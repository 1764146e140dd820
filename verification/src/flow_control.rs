//! Permit accounting for the provider streams.
//!
//! A permit entitles the server to deliver one more request. The client opens
//! a stream with twice the batch size and grants one further batch whenever a
//! response brings the balance down to the batch size.

use vstd::prelude::*;

verus! {

/// The default number of permits granted at a time.
pub const PERMITS_BATCH_SIZE: i64 = 3;

/// The load factor announced with every command subscription.
pub const COMMAND_LOAD_FACTOR: i32 = 100;

/// The capacity of the queue between the inbound and the outbound side of a
/// worker.
pub const RESPONSE_QUEUE_CAPACITY: usize = 10;

/// Whether `permits` is a balance that the account can rest at.
pub open spec fn balance_in_bounds(permits: int, batch: int) -> bool {
    0 < batch && batch < permits <= 2 * batch
}

/// Whether the response emitted at balance `permits` is followed by a grant.
pub open spec fn grants_after_response(permits: int, batch: int) -> bool {
    permits - 1 <= batch
}

/// The balance after one response emitted at balance `permits`.
pub open spec fn balance_after_response(permits: int, batch: int) -> int {
    if grants_after_response(permits, batch) {
        permits - 1 + batch
    } else {
        permits - 1
    }
}

/// The balance after `responses` responses.
pub open spec fn balance_after(permits: int, batch: int, responses: nat) -> int
    decreases responses,
{
    if responses == 0 {
        permits
    } else {
        balance_after_response(balance_after(permits, batch, (responses - 1) as nat), batch)
    }
}

/// The number of grants that accompany `responses` responses.
pub open spec fn grants_during(permits: int, batch: int, responses: nat) -> nat
    decreases responses,
{
    if responses == 0 {
        0
    } else {
        let before = (responses - 1) as nat;
        let earlier = grants_during(permits, batch, before);
        if grants_after_response(balance_after(permits, batch, before), batch) {
            earlier + 1
        } else {
            earlier
        }
    }
}

/// The balance never leaves its bounds: between any two instructions it is
/// positive and at most twice the batch size, and when the account rests it is
/// above the batch size.
pub proof fn lemma_balance_stays_in_bounds(permits: int, batch: int, responses: nat)
    requires
        balance_in_bounds(permits, batch),
    ensures
        balance_in_bounds(balance_after(permits, batch, responses), batch),
        0 < balance_after(permits, batch, responses) - 1,
        0 < balance_after(permits, batch, responses) <= 2 * batch,
    decreases responses,
{
    if responses > 0 {
        lemma_balance_stays_in_bounds(permits, batch, (responses - 1) as nat);
    }
}

/// Where the account stands after `responses` responses, for at most one batch
/// of them: the balance falls by one each time until it reaches the batch size,
/// is topped up once, and falls again.
proof fn lemma_within_one_batch(permits: int, batch: int, responses: nat)
    requires
        balance_in_bounds(permits, batch),
        responses <= batch,
    ensures
        responses < permits - batch ==> balance_after(permits, batch, responses) == permits
            - responses && grants_during(permits, batch, responses) == 0,
        responses >= permits - batch ==> balance_after(permits, batch, responses) == 2 * batch - (
        responses - (permits - batch)) && grants_during(permits, batch, responses) == 1,
    decreases responses,
{
    if responses > 0 {
        lemma_within_one_batch(permits, batch, (responses - 1) as nat);
    }
}

/// Over any run of as many responses as the batch size, exactly one grant is
/// emitted, and the balance ends where it began.
pub proof fn lemma_one_grant_per_batch(permits: int, batch: int)
    requires
        balance_in_bounds(permits, batch),
    ensures
        grants_during(permits, batch, batch as nat) == 1,
        balance_after(permits, batch, batch as nat) == permits,
{
    lemma_within_one_batch(permits, batch, batch as nat);
}

/// The permit balance of one provider stream.
#[derive(Debug)]
pub struct PermitAccount {
    permits: i64,
    batch: i64,
}

impl PermitAccount {
    #[verifier::type_invariant]
    spec fn within_bounds(&self) -> bool {
        balance_in_bounds(self.permits as int, self.batch as int) && 2 * self.batch <= i64::MAX
    }

    /// The permits that the server still holds.
    pub closed spec fn permits(&self) -> int {
        self.permits as int
    }

    /// The number of permits granted at a time.
    pub closed spec fn batch(&self) -> int {
        self.batch as int
    }

    /// An account with the default batch size, holding the initial grant.
    pub fn new() -> (account: Self)
        ensures
            account.batch() == PERMITS_BATCH_SIZE,
            account.permits() == 2 * PERMITS_BATCH_SIZE,
    {
        PermitAccount { permits: 2 * PERMITS_BATCH_SIZE, batch: PERMITS_BATCH_SIZE }
    }

    /// An account with batch size `batch`, holding the initial grant; `None`
    /// where the batch size is not positive or twice it does not fit.
    pub fn with_batch_size(batch: i64) -> (account: Option<Self>)
        ensures
            account.is_some() <==> 0 < batch && 2 * batch <= i64::MAX,
            account matches Some(a) ==> a.batch() == batch && a.permits() == 2 * batch,
    {
        if batch <= 0 || batch > i64::MAX / 2 {
            None
        } else {
            Some(PermitAccount { permits: 2 * batch, batch })
        }
    }

    /// The permits that the server still holds.
    pub fn balance(&self) -> (permits: i64)
        ensures
            permits == self.permits(),
            0 < permits <= 2 * self.batch(),
    {
        proof {
            use_type_invariant(self);
        }
        self.permits
    }

    /// The number of permits granted at a time.
    pub fn batch_size(&self) -> (batch: i64)
        ensures
            batch == self.batch(),
            0 < batch,
    {
        proof {
            use_type_invariant(self);
        }
        self.batch
    }

    /// Accounts for one emitted response. Returns the number of permits to
    /// grant right after it, if the balance has come down to the batch size.
    pub fn consume(&mut self) -> (grant: Option<i64>)
        ensures
            final(self).batch() == old(self).batch(),
            final(self).permits() == balance_after_response(old(self).permits(), old(self).batch()),
            grant.is_some() <==> grants_after_response(old(self).permits(), old(self).batch()),
            grant matches Some(permits) ==> permits == old(self).batch(),
            0 < final(self).permits() <= 2 * final(self).batch(),
            0 < old(self).permits() - 1,
    {
        proof {
            use_type_invariant(&*self);
        }
        let remaining: i64 = self.permits - 1;
        if remaining <= self.batch {
            self.permits = remaining + self.batch;
            Some(self.batch)
        } else {
            self.permits = remaining;
            None
        }
    }
}

} // verus!
