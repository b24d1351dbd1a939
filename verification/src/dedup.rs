use vstd::prelude::*;

verus! {

/// State of the adjacency-only deduplication reducer: the last fingerprint
/// it emitted, how many it has emitted, and how many it has seen in total.
pub struct DedupState {
    pub last_emitted: Option<u64>,
    pub emitted_count: u64,
    pub total_count: u64,
}

/// The deduplicated form of a fingerprint sequence: each maximal run of
/// equal consecutive fingerprints is collapsed to a single entry, in order.
pub open spec fn dedup_seq(fps: Seq<u64>) -> Seq<u64>
    decreases fps.len(),
{
    if fps.len() == 0 {
        Seq::empty()
    } else {
        let prefix = dedup_seq(fps.drop_last());
        if prefix.len() > 0 && prefix.last() == fps.last() {
            prefix
        } else {
            prefix.push(fps.last())
        }
    }
}

/// The deduplicated sequence is never longer than its source.
pub proof fn lemma_dedup_seq_len(fps: Seq<u64>)
    ensures
        dedup_seq(fps).len() <= fps.len(),
    decreases fps.len(),
{
    if fps.len() > 0 {
        lemma_dedup_seq_len(fps.drop_last());
    }
}

impl DedupState {
    /// An observation is emitted exactly when it differs from the last
    /// emitted fingerprint; the very first observation is always emitted.
    pub open spec fn emits(self, fp: u64) -> bool {
        self.last_emitted != Some(fp)
    }

    pub fn new() -> (r: DedupState)
        ensures
            r.last_emitted == None::<u64>,
            r.emitted_count == 0,
            r.total_count == 0,
    {
        DedupState { last_emitted: None, emitted_count: 0, total_count: 0 }
    }

    /// Feed one fingerprint to the reducer.  The total count always grows
    /// by one; the fingerprint is handed back exactly when it differs from
    /// the previously emitted one, and then becomes the new `last_emitted`.
    pub fn observe(&mut self, fp: u64) -> (r: Option<u64>)
        requires
            old(self).total_count < u64::MAX,
            old(self).emitted_count < u64::MAX,
        ensures
            final(self).total_count == old(self).total_count + 1,
            old(self).emits(fp) ==> r == Some(fp) && final(self).last_emitted == Some(fp)
                && final(self).emitted_count == old(self).emitted_count + 1,
            !old(self).emits(fp) ==> r == None::<u64> && final(self).last_emitted == old(
                self,
            ).last_emitted && final(self).emitted_count == old(self).emitted_count,
    {
        self.total_count = self.total_count + 1;
        let emit = match self.last_emitted {
            None => true,
            Some(prev) => prev != fp,
        };
        if emit {
            self.last_emitted = Some(fp);
            self.emitted_count = self.emitted_count + 1;
            Some(fp)
        } else {
            None
        }
    }
}

} // verus!
