use vstd::prelude::*;

verus! {

/// Node-wide delivery counters: bundles received, duplicates seen, bundles
/// forwarded, bundles delivered locally, and bundles that could not be
/// handled. Each only ever grows during a process lifetime.
#[derive(Debug)]
pub struct DtnStatistics {
    pub incoming: u64,
    pub dups: u64,
    pub outgoing: u64,
    pub delivered: u64,
    pub broken: u64,
}

impl DtnStatistics {
    pub fn new() -> (r: DtnStatistics)
        ensures
            r.incoming == 0,
            r.dups == 0,
            r.outgoing == 0,
            r.delivered == 0,
            r.broken == 0,
    {
        DtnStatistics { incoming: 0, dups: 0, outgoing: 0, delivered: 0, broken: 0 }
    }

    /// Counts one received bundle.
    pub fn inc_incoming(&mut self)
        requires
            old(self).incoming < u64::MAX,
        ensures
            final(self).incoming == old(self).incoming + 1,
            final(self).dups == old(self).dups,
            final(self).outgoing == old(self).outgoing,
            final(self).delivered == old(self).delivered,
            final(self).broken == old(self).broken,
    {
        self.incoming = self.incoming + 1;
    }

    /// Counts one duplicate bundle.
    pub fn inc_dups(&mut self)
        requires
            old(self).dups < u64::MAX,
        ensures
            final(self).dups == old(self).dups + 1,
            final(self).incoming == old(self).incoming,
            final(self).outgoing == old(self).outgoing,
            final(self).delivered == old(self).delivered,
            final(self).broken == old(self).broken,
    {
        self.dups = self.dups + 1;
    }

    /// Counts one forwarded bundle.
    pub fn inc_outgoing(&mut self)
        requires
            old(self).outgoing < u64::MAX,
        ensures
            final(self).outgoing == old(self).outgoing + 1,
            final(self).incoming == old(self).incoming,
            final(self).dups == old(self).dups,
            final(self).delivered == old(self).delivered,
            final(self).broken == old(self).broken,
    {
        self.outgoing = self.outgoing + 1;
    }

    /// Counts one locally delivered bundle.
    pub fn inc_delivered(&mut self)
        requires
            old(self).delivered < u64::MAX,
        ensures
            final(self).delivered == old(self).delivered + 1,
            final(self).incoming == old(self).incoming,
            final(self).dups == old(self).dups,
            final(self).outgoing == old(self).outgoing,
            final(self).broken == old(self).broken,
    {
        self.delivered = self.delivered + 1;
    }

    /// Counts one bundle the node could not handle.
    pub fn inc_broken(&mut self)
        requires
            old(self).broken < u64::MAX,
        ensures
            final(self).broken == old(self).broken + 1,
            final(self).incoming == old(self).incoming,
            final(self).dups == old(self).dups,
            final(self).outgoing == old(self).outgoing,
            final(self).delivered == old(self).delivered,
    {
        self.broken = self.broken + 1;
    }
}

impl Clone for DtnStatistics {
    fn clone(&self) -> (r: Self)
        ensures
            r == *self,
    {
        DtnStatistics {
            incoming: self.incoming,
            dups: self.dups,
            outgoing: self.outgoing,
            delivered: self.delivered,
            broken: self.broken,
        }
    }
}

impl Default for DtnStatistics {
    fn default() -> (r: Self)
        ensures
            r.incoming == 0,
            r.dups == 0,
            r.outgoing == 0,
            r.delivered == 0,
            r.broken == 0,
    {
        DtnStatistics::new()
    }
}

} // verus!
