//! The lifecycle of one batch of delivered entries inside a worker.
//!
//! A worker reads a batch, fans out one probe per entry, records for
//! each entry whether its result row was durably persisted, and only
//! then acknowledges. The acknowledgment list is exactly the ids of
//! the entries whose result was persisted — an entry whose persistence
//! failed is left out, so it stays pending and is processed again.

use vstd::prelude::*;

use crate::event::StreamMessage;

verus! {

/// One batch of delivered entries, tracking per entry whether a probe
/// result was durably persisted for it. `None` means the entry's
/// probe has not reported yet; `Some(p)` that it finished and its
/// result row was persisted (`p == true`) or not (`p == false`).
pub struct Batch {
    pub entries: Vec<StreamMessage>,
    pub outcomes: Vec<Option<bool>>,
}

/// The entry ids owed to the acknowledgment call: the ids of exactly
/// those entries whose result row was persisted, in delivery order.
pub open spec fn acked_ids_spec(
    entries: Seq<StreamMessage>,
    outcomes: Seq<Option<bool>>,
) -> Seq<Seq<char>>
    decreases entries.len(),
{
    if entries.len() == 0 || outcomes.len() == 0 {
        Seq::empty()
    } else if outcomes[0] == Some(true) {
        seq![entries[0].id@] + acked_ids_spec(entries.skip(1), outcomes.skip(1))
    } else {
        acked_ids_spec(entries.skip(1), outcomes.skip(1))
    }
}

/// How many entries have a persisted result row.
pub open spec fn persisted_count(outcomes: Seq<Option<bool>>) -> nat
    decreases outcomes.len(),
{
    if outcomes.len() == 0 {
        0
    } else if outcomes[0] == Some(true) {
        1 + persisted_count(outcomes.skip(1))
    } else {
        persisted_count(outcomes.skip(1))
    }
}

/// After draining a batch, the number of acknowledged entry ids
/// equals the number of entries whose result row was persisted, and
/// never exceeds the size of the batch.
pub proof fn lemma_ack_count_is_persisted_count(
    entries: Seq<StreamMessage>,
    outcomes: Seq<Option<bool>>,
)
    requires
        entries.len() == outcomes.len(),
    ensures
        acked_ids_spec(entries, outcomes).len() == persisted_count(outcomes),
        persisted_count(outcomes) <= entries.len(),
    decreases entries.len(),
{
    if entries.len() > 0 {
        lemma_ack_count_is_persisted_count(entries.skip(1), outcomes.skip(1));
    }
}

impl Batch {
    /// One outcome slot per entry.
    pub open spec fn wf(self) -> bool {
        self.outcomes@.len() == self.entries@.len()
    }

    /// Every probe of the batch has reported, one way or the other:
    /// the batch is drained and may be acknowledged.
    pub open spec fn drained(self) -> bool {
        forall|i: int| 0 <= i < self.outcomes@.len() ==> #[trigger] self.outcomes@[i] is Some
    }

    /// Start the lifecycle of one delivered batch: no probe has
    /// reported yet.
    pub fn new(entries: Vec<StreamMessage>) -> (b: Batch)
        ensures
            b.wf(),
            b.entries@ == entries@,
            b.outcomes@.len() == entries@.len(),
            forall|i: int| 0 <= i < b.outcomes@.len() ==> #[trigger] b.outcomes@[i] is None,
    {
        let n = entries.len();
        let mut outcomes: Vec<Option<bool>> = Vec::new();
        let mut i: usize = 0;
        while i < n
            invariant
                i <= n,
                outcomes@.len() == i,
                forall|j: int| 0 <= j < i ==> #[trigger] outcomes@[j] is None,
            decreases n - i,
        {
            outcomes.push(None);
            i = i + 1;
        }
        Batch { entries, outcomes }
    }

    /// Number of entries in the batch.
    pub fn len(&self) -> (n: usize)
        ensures
            n == self.entries@.len(),
    {
        self.entries.len()
    }

    /// Record that entry `i`'s probe finished and whether its result
    /// row was durably persisted.
    pub fn record(&mut self, i: usize, persisted: bool)
        requires
            old(self).wf(),
            i < old(self).entries@.len(),
        ensures
            final(self).wf(),
            final(self).entries == old(self).entries,
            final(self).outcomes@ == old(self).outcomes@.update(i as int, Some(persisted)),
    {
        self.outcomes.set(i, Some(persisted));
    }

    /// Whether the batch is drained: every probe has reported.
    pub fn all_recorded(&self) -> (r: bool)
        requires
            self.wf(),
        ensures
            r == self.drained(),
    {
        let mut i: usize = 0;
        while i < self.outcomes.len()
            invariant
                i <= self.outcomes@.len(),
                forall|j: int| 0 <= j < i ==> #[trigger] self.outcomes@[j] is Some,
            decreases self.outcomes@.len() - i,
        {
            if self.outcomes[i].is_none() {
                return false;
            }
            i = i + 1;
        }
        true
    }

    /// The ids to acknowledge for a drained batch: exactly the ids of
    /// the entries whose result row was persisted — never more — so
    /// that a failed persistence leaves its entry pending for
    /// redelivery.
    pub fn ack_list(&self) -> (r: Vec<String>)
        requires
            self.wf(),
            self.drained(),
        ensures
            r@.map_values(|id: String| id@) == acked_ids_spec(self.entries@, self.outcomes@),
            r@.len() == persisted_count(self.outcomes@),
            r@.len() <= self.entries@.len(),
    {
        let mut r: Vec<String> = Vec::new();
        let mut i: usize = 0;
        proof {
            assert(self.entries@.skip(0) =~= self.entries@);
            assert(self.outcomes@.skip(0) =~= self.outcomes@);
            assert(r@.map_values(|id: String| id@) =~= Seq::<Seq<char>>::empty());
            assert(Seq::<Seq<char>>::empty() + acked_ids_spec(self.entries@, self.outcomes@)
                =~= acked_ids_spec(self.entries@, self.outcomes@));
        }
        while i < self.entries.len()
            invariant
                self.wf(),
                i <= self.entries@.len(),
                r@.map_values(|id: String| id@) + acked_ids_spec(
                    self.entries@.skip(i as int),
                    self.outcomes@.skip(i as int),
                ) == acked_ids_spec(self.entries@, self.outcomes@),
            decreases self.entries@.len() - i,
        {
            proof {
                assert(self.entries@.skip(i as int)[0] == self.entries@[i as int]);
                assert(self.outcomes@.skip(i as int)[0] == self.outcomes@[i as int]);
                assert(self.entries@.skip(i as int).skip(1) =~= self.entries@.skip(i as int + 1));
                assert(self.outcomes@.skip(i as int).skip(1) =~= self.outcomes@.skip(i as int + 1));
            }
            match self.outcomes[i] {
                Some(true) => {
                    let ghost prev = r@;
                    r.push(self.entries[i].id.clone());
                    proof {
                        assert(prev.push(self.entries@[i as int].id).map_values(|id: String| id@)
                            =~= prev.map_values(|id: String| id@) + seq![
                            self.entries@[i as int].id@,
                        ]);
                        assert((prev.map_values(|id: String| id@) + seq![
                            self.entries@[i as int].id@,
                        ]) + acked_ids_spec(
                            self.entries@.skip(i as int + 1),
                            self.outcomes@.skip(i as int + 1),
                        ) =~= prev.map_values(|id: String| id@) + (seq![
                            self.entries@[i as int].id@,
                        ] + acked_ids_spec(
                            self.entries@.skip(i as int + 1),
                            self.outcomes@.skip(i as int + 1),
                        )));
                    }
                },
                _ => {},
            }
            i = i + 1;
        }
        proof {
            assert(acked_ids_spec(self.entries@.skip(i as int), self.outcomes@.skip(i as int))
                =~= Seq::<Seq<char>>::empty());
            assert(r@.map_values(|id: String| id@) + Seq::<Seq<char>>::empty() =~= r@.map_values(
                |id: String| id@,
            ));
            lemma_ack_count_is_persisted_count(self.entries@, self.outcomes@);
        }
        r
    }
}

} // verus!
