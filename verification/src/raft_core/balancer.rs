//! The share of the requests of the application among the messages a node
//! handles in one round, adjusted so that neither channel starves.

use vstd::prelude::*;

verus! {

/// Balances the number of requests of the application against the number of
/// notifications handled in each round.
#[derive(Debug)]
pub struct Balancer {
    total: u64,
    /// The number of requests of the application to handle in each round.
    api_message: u64,
}

/// The requests' share after notifications get more: a sixteenth less, but
/// at least one.
pub open spec fn shrunk_share(api: u64) -> int {
    if api * 15 / 16 == 0 {
        1
    } else {
        api * 15 / 16
    }
}

/// The requests' share after they get more: a sixteenth more, but at most
/// half of `total`.
pub open spec fn grown_share(total: u64, api: u64) -> int {
    if api * 17 / 16 > total / 2 {
        (total / 2) as int
    } else {
        api * 17 / 16
    }
}

/// With a budget of at least two, a share of at most half the budget stays
/// at most half whichever channel gets more: the notifications always keep
/// half of each round.
pub proof fn lemma_share_at_most_half(total: u64, api: u64)
    requires
        total >= 2,
        api <= total / 2,
    ensures
        shrunk_share(api) <= total / 2,
        grown_share(total, api) <= total / 2,
        total / 10 <= total / 2,
{
}

impl Balancer {
    /// What every balancer keeps from its creation on: with a budget of at
    /// least two, the requests' share is at most half of it.
    pub open spec fn keeps_half(&self) -> bool {
        self.total() >= 2 ==> self.api_share() <= self.total() / 2
    }

    /// In every state a balancer reaches with a budget of at least two, the
    /// two shares make up the whole budget, and giving the requests more
    /// never lowers their share.
    pub proof fn lemma_reachable(&self)
        requires
            self.keeps_half(),
            self.total() >= 2,
        ensures
            self.api_share() <= self.total() / 2,
            self.api_share() + (self.total() - self.api_share()) == self.total(),
            grown_share(self.total(), self.api_share()) >= self.api_share(),
            shrunk_share(self.api_share()) <= self.api_share() || self.api_share() == 0,
    {
    }

    /// The number of messages handled in each round.
    pub closed spec fn total(&self) -> u64 {
        self.total
    }

    /// The number of requests of the application handled in each round.
    pub closed spec fn api_share(&self) -> u64 {
        self.api_message
    }

    /// A balancer for `total` messages per round, a tenth of them requests of
    /// the application: the internal messages are drained first.
    pub fn new(total: u64) -> (r: Self)
        ensures
            r.total() == total,
            r.api_share() == total / 10,
            r.keeps_half(),
    {
        Balancer { total, api_message: total / 10 }
    }

    /// The number of requests of the application to handle in this round.
    pub fn api_message(&self) -> (r: u64)
        ensures
            r == self.api_share(),
    {
        self.api_message
    }

    /// The number of notifications to handle in this round: the rest of the
    /// budget.
    pub fn notification(&self) -> (r: u64)
        requires
            self.api_share() <= self.total(),
        ensures
            r == self.total() - self.api_share(),
    {
        self.total - self.api_message
    }

    /// Gives notifications a larger share: the requests' share shrinks by a
    /// sixteenth, but not below one.
    pub fn increase_notification(&mut self)
        requires
            old(self).api_share() * 15 <= u64::MAX,
        ensures
            final(self).total() == old(self).total(),
            final(self).api_share() == shrunk_share(old(self).api_share()),
            old(self).keeps_half() ==> final(self).keeps_half(),
    {
        self.api_message = self.api_message * 15 / 16;
        if self.api_message == 0 {
            self.api_message = 1;
        }
    }

    /// Gives the requests of the application a larger share: it grows by a
    /// sixteenth, but never past half the budget, so that the other channel
    /// always keeps some.
    pub fn increase_api_message(&mut self)
        requires
            old(self).api_share() * 17 <= u64::MAX,
        ensures
            final(self).total() == old(self).total(),
            final(self).api_share() == grown_share(old(self).total(), old(self).api_share()),
            final(self).api_share() <= old(self).total() / 2,
            final(self).keeps_half(),
    {
        self.api_message = self.api_message * 17 / 16;
        if self.api_message > self.total / 2 {
            self.api_message = self.total / 2;
        }
    }

    /// Adjusts the shares after a round in which `api_processed` requests
    /// and `notify_processed` notifications were handled: a channel that used
    /// its whole budget may have more queued, so it gets a larger share, the
    /// notifications first.
    pub fn rebalance(&mut self, api_processed: u64, notify_processed: u64)
        requires
            old(self).api_share() <= old(self).total(),
            notify_processed == old(self).total() - old(self).api_share() ==> old(self).api_share()
                * 15 <= u64::MAX,
            (notify_processed != old(self).total() - old(self).api_share() && api_processed
                == old(self).api_share()) ==> old(self).api_share() * 17 <= u64::MAX,
        ensures
            final(self).total() == old(self).total(),
            if notify_processed == old(self).total() - old(self).api_share() {
                final(self).api_share() == shrunk_share(old(self).api_share())
            } else if api_processed == old(self).api_share() {
                final(self).api_share() == grown_share(old(self).total(), old(self).api_share())
            } else {
                final(self).api_share() == old(self).api_share()
            },
            old(self).keeps_half() ==> final(self).keeps_half(),
    {
        if notify_processed == self.notification() {
            self.increase_notification();
        } else if api_processed == self.api_message() {
            self.increase_api_message();
        }
    }
}

} // verus!
