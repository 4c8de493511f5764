//! The handle through which pending transactions are collected. Subscribing
//! and streaming are the caller's business; what is fixed here is which
//! provider is used and which topic is subscribed to.

use std::sync::Arc;
use vstd::prelude::*;

verus! {

/// A collector of pending transactions from the mempool, over a shared
/// provider.
pub struct MempoolCollector<M> {
    provider: Arc<M>,
}

impl<M> MempoolCollector<M> {
    /// The provider that this collector subscribes through.
    pub closed spec fn spec_provider(self) -> Arc<M> {
        self.provider
    }

    pub fn new(provider: Arc<M>) -> (collector: Self)
        ensures
            collector.spec_provider() == provider,
    {
        Self { provider }
    }

    pub fn provider(&self) -> (provider: &Arc<M>)
        ensures
            *provider == self.spec_provider(),
    {
        &self.provider
    }

    /// The topic to subscribe to, so that transactions arrive with their
    /// bodies and not as hashes.
    pub fn subscription_topic() -> (topic: &'static str)
        ensures
            topic@ == "newPendingTransactionsWithBody"@,
    {
        "newPendingTransactionsWithBody"
    }
}

} // verus!
