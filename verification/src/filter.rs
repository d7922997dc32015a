//! A cap on the number of channels that are open at once for one client key.

use std::collections::HashMap;
use vstd::prelude::*;
use vstd::std_specs::hash::*;

verus! {

broadcast use vstd::std_specs::hash::group_hash_axioms;

/// Counts the open channels of each key and refuses a channel whose key has
/// as many open as the limit allows. The key of a channel is its maker's
/// choice, the address of the client for one.
pub struct ChannelFilter {
    channels_per_key: u32,
    key_counts: HashMap<u64, u32>,
}

impl ChannelFilter {
    /// Every key that is counted has a channel open, and none has more open
    /// than the limit allows.
    pub closed spec fn wf(&self) -> bool {
        forall|key: u64| #[trigger]
            self.key_counts@.contains_key(key) ==> 0 < self.key_counts@[key]
                <= self.channels_per_key
    }

    /// The number of channels that may be open at once for one key.
    pub closed spec fn limit(&self) -> u32 {
        self.channels_per_key
    }

    /// The number of channels that are open for `key`.
    pub closed spec fn open_channels(&self, key: u64) -> nat {
        if self.key_counts@.contains_key(key) {
            self.key_counts@[key] as nat
        } else {
            0
        }
    }

    /// No key ever has more channels open than the limit allows.
    pub proof fn lemma_within_limit(&self, key: u64)
        requires
            self.wf(),
        ensures
            self.open_channels(key) <= self.limit(),
    {
    }

    /// A filter that accepts up to `channels_per_key` channels per key at once.
    pub fn new(channels_per_key: u32) -> (filter: Self)
        ensures
            filter.wf(),
            filter.limit() == channels_per_key,
            forall|key: u64| filter.open_channels(key) == 0,
    {
        ChannelFilter { channels_per_key, key_counts: HashMap::new() }
    }

    /// The number of channels that are open for `key`.
    pub fn channels(&self, key: u64) -> (n: u32)
        requires
            self.wf(),
        ensures
            n == self.open_channels(key),
    {
        match self.key_counts.get(&key) {
            Some(count) => *count,
            None => 0,
        }
    }

    /// Decides on a new channel for `key`: it is accepted, and counted, if
    /// fewer channels are open for the key than the limit allows; else it is
    /// to be dropped.
    pub fn accept(&mut self, key: u64) -> (accepted: bool)
        requires
            old(self).wf(),
        ensures
            final(self).wf(),
            final(self).limit() == old(self).limit(),
            accepted == (old(self).open_channels(key) < old(self).limit()),
            final(self).open_channels(key) == old(self).open_channels(key) + (if accepted {
                1nat
            } else {
                0nat
            }),
            forall|other: u64|
                other != key ==> final(self).open_channels(other) == old(self).open_channels(other),
    {
        let open = self.channels(key);
        if open < self.channels_per_key {
            self.key_counts.insert(key, open + 1);
            true
        } else {
            false
        }
    }

    /// Takes note that a channel of `key` has closed. A key with no channel
    /// open is left as it is.
    pub fn release(&mut self, key: u64)
        requires
            old(self).wf(),
        ensures
            final(self).wf(),
            final(self).limit() == old(self).limit(),
            final(self).open_channels(key) == (if old(self).open_channels(key) == 0 {
                0nat
            } else {
                (old(self).open_channels(key) - 1) as nat
            }),
            forall|other: u64|
                other != key ==> final(self).open_channels(other) == old(self).open_channels(other),
    {
        let open = self.channels(key);
        if open > 1 {
            self.key_counts.insert(key, open - 1);
        } else {
            self.key_counts.remove(&key);
        }
    }
}

} // verus!
