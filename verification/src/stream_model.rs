//! A model of the broker's stream state: the append-only log and the
//! per-region consumer groups with their read cursors and pending
//! (delivered-but-unacknowledged) entries. The broker owns this state
//! at run time; the model pins down the semantics the producer and
//! worker rely on — group setup is idempotent, publishing N events
//! appends exactly N fresh entries, a group read delivers previously
//! undelivered entries in order and marks them pending, and an
//! acknowledgment removes exactly the given ids from pending, so an
//! unacknowledged entry stays eligible for redelivery.

use vstd::prelude::*;

use crate::event::WebsiteEvent;

verus! {

/// One entry of the append-only log: a broker-assigned, strictly
/// increasing id and the published payload.
#[derive(Debug)]
pub struct StreamEntry {
    pub entry_id: u64,
    pub event: WebsiteEvent,
}

impl StreamEntry {
    /// An identical copy of the entry.
    pub fn duplicate(&self) -> (r: StreamEntry)
        ensures
            r == *self,
    {
        StreamEntry {
            entry_id: self.entry_id,
            event: WebsiteEvent { url: self.event.url.clone(), id: self.event.id.clone() },
        }
    }
}

/// One region's consumer group: how far its read cursor has advanced
/// and which delivered entries are still unacknowledged.
#[derive(Debug)]
pub struct ConsumerGroup {
    pub region_id: String,
    pub cursor: usize,
    pub pending: Vec<u64>,
}

/// The entry ids of a run of entries, in order.
pub open spec fn ids_of(entries: Seq<StreamEntry>) -> Seq<u64> {
    entries.map_values(|e: StreamEntry| e.entry_id)
}

/// The pending ids left after acknowledging the given ids, in order.
pub open spec fn remove_ids(pending: Seq<u64>, acked: Seq<u64>) -> Seq<u64>
    decreases pending.len(),
{
    if pending.len() == 0 {
        Seq::empty()
    } else if acked.contains(pending[0]) {
        remove_ids(pending.skip(1), acked)
    } else {
        seq![pending[0]] + remove_ids(pending.skip(1), acked)
    }
}

/// A non-empty sequence holds an id exactly when its head is that id
/// or its tail holds it.
proof fn lemma_head_tail_contains(s: Seq<u64>, id: u64)
    requires
        s.len() > 0,
    ensures
        s.contains(id) <==> (s[0] == id || s.skip(1).contains(id)),
{
    if s.contains(id) {
        let k = choose|k: int| 0 <= k < s.len() && s[k] == id;
        if k > 0 {
            assert(s.skip(1)[k - 1] == id);
        }
    }
    if s.skip(1).contains(id) {
        let k = choose|k: int| 0 <= k < s.skip(1).len() && s.skip(1)[k] == id;
        assert(s[k + 1] == id);
    }
}

/// Prepending one id to a sequence holds an id exactly when the
/// prepended id is it or the sequence holds it.
proof fn lemma_cons_contains(x: u64, s: Seq<u64>, id: u64)
    ensures
        (seq![x] + s).contains(id) <==> (x == id || s.contains(id)),
{
    let c = seq![x] + s;
    assert(c[0] == x);
    if c.contains(id) {
        let k = choose|k: int| 0 <= k < c.len() && c[k] == id;
        if k > 0 {
            assert(s[k - 1] == id);
        }
    }
    if s.contains(id) {
        let k = choose|k: int| 0 <= k < s.len() && s[k] == id;
        assert(c[k + 1] == id);
    }
}

/// An id stays pending exactly when it was pending and was not among
/// the acknowledged ids: an acknowledgment removes the given ids and
/// no others, so an unacknowledged entry remains eligible for
/// redelivery.
pub proof fn lemma_remove_ids_membership(pending: Seq<u64>, acked: Seq<u64>, id: u64)
    ensures
        remove_ids(pending, acked).contains(id) <==> (pending.contains(id) && !acked.contains(
            id,
        )),
    decreases pending.len(),
{
    if pending.len() > 0 {
        let rest = pending.skip(1);
        lemma_remove_ids_membership(rest, acked, id);
        lemma_head_tail_contains(pending, id);
        if !acked.contains(pending[0]) {
            lemma_cons_contains(pending[0], remove_ids(rest, acked), id);
        }
    }
}

/// The broker-side stream state.
#[derive(Debug)]
pub struct StreamModel {
    pub entries: Vec<StreamEntry>,
    pub next_id: u64,
    pub groups: Vec<ConsumerGroup>,
}

/// A consumer group for `region` exists.
pub open spec fn has_group(m: StreamModel, region: Seq<char>) -> bool {
    exists|i: int| 0 <= i < m.groups@.len() && (#[trigger] m.groups@[i]).region_id@ == region
}

/// The index of `region`'s consumer group; meaningful whenever
/// `has_group` holds, and unique because regions are distinct.
pub open spec fn group_index(m: StreamModel, region: Seq<char>) -> int {
    choose|i: int| 0 <= i < m.groups@.len() && (#[trigger] m.groups@[i]).region_id@ == region
}

/// Find the position of `region`'s consumer group.
fn group_position(groups: &Vec<ConsumerGroup>, region: &String) -> (gi: usize)
    requires
        exists|i: int| 0 <= i < groups@.len() && (#[trigger] groups@[i]).region_id@ == region@,
    ensures
        gi < groups@.len(),
        groups@[gi as int].region_id@ == region@,
{
    let mut i: usize = 0;
    while i < groups.len()
        invariant
            i <= groups@.len(),
            forall|j: int| 0 <= j < i ==> (#[trigger] groups@[j]).region_id@ != region@,
        decreases groups@.len() - i,
    {
        if groups[i].region_id.eq(region) {
            return i;
        }
        i = i + 1;
    }
    proof {
        assert(false);
    }
    0
}

impl StreamModel {
    /// Entry ids are strictly increasing and below the next fresh id,
    /// every cursor stays within the log, and regions are distinct.
    pub open spec fn wf(self) -> bool {
        &&& forall|i: int|
            0 <= i < self.entries@.len() ==> (#[trigger] self.entries@[i]).entry_id < self.next_id
        &&& forall|i: int, j: int|
            0 <= i < j < self.entries@.len() ==> (#[trigger] self.entries@[i]).entry_id < (
            #[trigger] self.entries@[j]).entry_id
        &&& forall|g: int|
            0 <= g < self.groups@.len() ==> (#[trigger] self.groups@[g]).cursor
                <= self.entries@.len()
        &&& forall|g: int, h: int|
            0 <= g < h < self.groups@.len() ==> (#[trigger] self.groups@[g]).region_id@ != (
            #[trigger] self.groups@[h]).region_id@
    }

    /// An empty stream with no groups.
    pub fn new() -> (m: StreamModel)
        ensures
            m.wf(),
            m.entries@.len() == 0,
            m.groups@.len() == 0,
            m.next_id == 0,
    {
        StreamModel { entries: Vec::new(), next_id: 0, groups: Vec::new() }
    }

    /// Create `region`'s consumer group, starting at the beginning of
    /// the stream, if it is absent; a second call for the same region
    /// succeeds and changes nothing, so group setup is idempotent.
    pub fn ensure_group(&mut self, region: &String)
        requires
            old(self).wf(),
        ensures
            final(self).wf(),
            final(self).entries == old(self).entries,
            final(self).next_id == old(self).next_id,
            has_group(*final(self), region@),
            has_group(*old(self), region@) ==> *final(self) == *old(self),
            !has_group(*old(self), region@) ==> {
                &&& final(self).groups@.len() == old(self).groups@.len() + 1
                &&& final(self).groups@.subrange(0, old(self).groups@.len() as int) == old(
                    self,
                ).groups@
                &&& final(self).groups@.last().region_id@ == region@
                &&& final(self).groups@.last().cursor == 0
                &&& final(self).groups@.last().pending@ == Seq::<u64>::empty()
            },
    {
        let mut i: usize = 0;
        while i < self.groups.len()
            invariant
                i <= self.groups@.len(),
                *self == *old(self),
                old(self).wf(),
                forall|j: int| 0 <= j < i ==> (#[trigger] self.groups@[j]).region_id@ != region@,
            decreases self.groups@.len() - i,
        {
            if self.groups[i].region_id.eq(region) {
                proof {
                    assert(self.groups@[i as int].region_id@ == region@);
                }
                return ;
            }
            i = i + 1;
        }
        let ghost prev = self.groups@;
        self.groups.push(
            ConsumerGroup { region_id: region.clone(), cursor: 0, pending: Vec::new() },
        );
        proof {
            assert(self.groups@.subrange(0, prev.len() as int) =~= prev);
            assert(self.groups@[prev.len() as int].region_id@ == region@);
        }
    }

    /// Append one entry per event, in order, with fresh ids: the log
    /// grows by exactly the number of published events — never fewer —
    /// and every added entry carries an id no earlier entry had.
    /// Publishing the same event twice yields two independent entries.
    pub fn publish_bulk(&mut self, events: &Vec<WebsiteEvent>)
        requires
            old(self).wf(),
            old(self).next_id + events@.len() <= u64::MAX,
        ensures
            final(self).wf(),
            final(self).groups == old(self).groups,
            final(self).next_id == old(self).next_id + events@.len(),
            final(self).entries@.len() == old(self).entries@.len() + events@.len(),
            final(self).entries@.subrange(0, old(self).entries@.len() as int) == old(
                self,
            ).entries@,
            forall|k: int|
                0 <= k < events@.len() ==> (#[trigger] final(self).entries@[old(
                    self,
                ).entries@.len() + k]).event@ == events@[k]@ && final(self).entries@[old(
                    self,
                ).entries@.len() + k].entry_id == old(self).next_id + k,
            forall|k: int, j: int|
                old(self).entries@.len() <= k < final(self).entries@.len() && 0 <= j < old(
                    self,
                ).entries@.len() ==> (#[trigger] final(self).entries@[k]).entry_id != (
                #[trigger] final(self).entries@[j]).entry_id,
    {
        let ghost prev = self.entries@;
        let ghost first_id = self.next_id;
        let mut i: usize = 0;
        proof {
            assert(self.entries@.subrange(0, prev.len() as int) =~= prev);
        }
        while i < events.len()
            invariant
                self.wf(),
                i <= events@.len(),
                first_id + events@.len() <= u64::MAX,
                self.next_id == first_id + i,
                self.groups == old(self).groups,
                self.entries@.len() == prev.len() + i,
                self.entries@.subrange(0, prev.len() as int) == prev,
                forall|k: int|
                    0 <= k < i ==> (#[trigger] self.entries@[prev.len() + k]).event@ == events@[k]@
                        && self.entries@[prev.len() + k].entry_id == first_id + k,
            decreases events@.len() - i,
        {
            let ghost before = self.entries@;
            self.entries.push(
                StreamEntry {
                    entry_id: self.next_id,
                    event: WebsiteEvent { url: events[i].url.clone(), id: events[i].id.clone() },
                },
            );
            self.next_id = self.next_id + 1;
            proof {
                assert(self.entries@.subrange(0, prev.len() as int) =~= before.subrange(
                    0,
                    prev.len() as int,
                ));
            }
            i = i + 1;
        }
    }

    /// Deliver up to `count` previously undelivered entries to
    /// `region`'s group, in log order: the group's cursor advances
    /// over exactly the delivered run and their ids become pending.
    /// `None` — not an error — when nothing new is available.
    pub fn read_group(&mut self, region: &String, count: usize) -> (r: Option<Vec<StreamEntry>>)
        requires
            old(self).wf(),
            has_group(*old(self), region@),
        ensures
            final(self).wf(),
            final(self).entries == old(self).entries,
            final(self).next_id == old(self).next_id,
            final(self).groups@.len() == old(self).groups@.len(),
            forall|j: int|
                0 <= j < old(self).groups@.len() && j != group_index(*old(self), region@)
                    ==> #[trigger] final(self).groups@[j] == old(self).groups@[j],
            final(self).groups@[group_index(*old(self), region@)].region_id@ == region@,
            ({
                let gi = group_index(*old(self), region@);
                let g = old(self).groups@[gi];
                let avail = old(self).entries@.len() - g.cursor;
                let n = if count <= avail {
                    count as int
                } else {
                    avail
                };
                let delivered = old(self).entries@.subrange(g.cursor as int, g.cursor + n);
                &&& (r is None <==> n == 0)
                &&& (n == 0 ==> final(self).groups@[gi] == g)
                &&& (r matches Some(v) ==> {
                    &&& v@ == delivered
                    &&& v@.len() == n
                    &&& final(self).groups@[gi].cursor == g.cursor + n
                    &&& final(self).groups@[gi].pending@ == g.pending@ + ids_of(delivered)
                })
            }),
    {
        let gi = group_position(&self.groups, region);
        proof {
            let gj = group_index(*self, region@);
            assert(0 <= gj < self.groups@.len() && self.groups@[gj].region_id@ == region@);
            if (gi as int) < gj {
                assert(self.groups@[gi as int].region_id@ != self.groups@[gj].region_id@);
            }
            if gj < (gi as int) {
                assert(self.groups@[gj].region_id@ != self.groups@[gi as int].region_id@);
            }
            assert(gi as int == gj);
        }
        let cursor = self.groups[gi].cursor;
        let avail = self.entries.len() - cursor;
        let n = if count <= avail {
            count
        } else {
            avail
        };
        if n == 0 {
            return None;
        }
        let mut v: Vec<StreamEntry> = Vec::new();
        let mut k: usize = 0;
        while k < n
            invariant
                k <= n,
                cursor + n <= usize::MAX,
                cursor + n <= self.entries@.len(),
                v@.len() == k,
                forall|t: int| 0 <= t < k ==> #[trigger] v@[t] == self.entries@[cursor + t],
            decreases n - k,
        {
            proof {
                assert(cursor + k < self.entries@.len());
            }
            v.push(self.entries[cursor + k].duplicate());
            k = k + 1;
        }
        let ghost delivered = self.entries@.subrange(cursor as int, cursor as int + n as int);
        proof {
            assert(v@ =~= delivered);
        }
        let group = &mut self.groups[gi];
        let ghost pending_before = group.pending@;
        group.cursor = cursor + n;
        let mut k2: usize = 0;
        proof {
            assert(ids_of(v@.subrange(0, 0)) =~= Seq::<u64>::empty());
            assert(pending_before + Seq::<u64>::empty() =~= pending_before);
        }
        while k2 < n
            invariant
                k2 <= n,
                n == v@.len(),
                group.pending@ == pending_before + ids_of(v@.subrange(0, k2 as int)),
                group.cursor == cursor + n,
                group.region_id@ == region@,
            decreases n - k2,
        {
            group.pending.push(v[k2].entry_id);
            proof {
                assert(ids_of(v@.subrange(0, k2 + 1 as int)) =~= ids_of(
                    v@.subrange(0, k2 as int),
                ).push(v@[k2 as int].entry_id));
                assert(pending_before + ids_of(v@.subrange(0, k2 as int)).push(
                    v@[k2 as int].entry_id,
                ) =~= (pending_before + ids_of(v@.subrange(0, k2 as int))).push(
                    v@[k2 as int].entry_id,
                ));
            }
            k2 = k2 + 1;
        }
        proof {
            assert(v@.subrange(0, n as int) =~= v@);
        }
        Some(v)
    }

    /// Acknowledge the given entry ids for `region`'s group in one
    /// call: exactly those ids leave the pending set; every other
    /// pending entry stays pending, eligible for redelivery.
    pub fn ack_bulk(&mut self, region: &String, acked: &Vec<u64>)
        requires
            old(self).wf(),
            has_group(*old(self), region@),
        ensures
            final(self).wf(),
            final(self).entries == old(self).entries,
            final(self).next_id == old(self).next_id,
            final(self).groups@.len() == old(self).groups@.len(),
            forall|j: int|
                0 <= j < old(self).groups@.len() && j != group_index(*old(self), region@)
                    ==> #[trigger] final(self).groups@[j] == old(self).groups@[j],
            ({
                let gi = group_index(*old(self), region@);
                let g = old(self).groups@[gi];
                &&& final(self).groups@[gi].region_id@ == region@
                &&& final(self).groups@[gi].cursor == g.cursor
                &&& final(self).groups@[gi].pending@ == remove_ids(g.pending@, acked@)
            }),
    {
        let gi = group_position(&self.groups, region);
        proof {
            let gj = group_index(*self, region@);
            assert(0 <= gj < self.groups@.len() && self.groups@[gj].region_id@ == region@);
            if (gi as int) < gj {
                assert(self.groups@[gi as int].region_id@ != self.groups@[gj].region_id@);
            }
            if gj < (gi as int) {
                assert(self.groups@[gj].region_id@ != self.groups@[gi as int].region_id@);
            }
            assert(gi as int == gj);
        }
        let group = &mut self.groups[gi];
        let ghost pending_before = group.pending@;
        let mut kept: Vec<u64> = Vec::new();
        let mut k: usize = 0;
        proof {
            assert(pending_before.skip(0) =~= pending_before);
            assert(kept@ + remove_ids(pending_before, acked@) =~= remove_ids(
                pending_before,
                acked@,
            ));
        }
        while k < group.pending.len()
            invariant
                k <= group.pending@.len(),
                group.pending@ == pending_before,
                kept@ + remove_ids(pending_before.skip(k as int), acked@) == remove_ids(
                    pending_before,
                    acked@,
                ),
            decreases group.pending@.len() - k,
        {
            proof {
                assert(pending_before.skip(k as int)[0] == pending_before[k as int]);
                assert(pending_before.skip(k as int).skip(1) =~= pending_before.skip(
                    k as int + 1,
                ));
            }
            if !contains_u64(acked, group.pending[k]) {
                let ghost prev = kept@;
                kept.push(group.pending[k]);
                proof {
                    assert(prev.push(pending_before[k as int]) + remove_ids(
                        pending_before.skip(k as int + 1),
                        acked@,
                    ) =~= prev + (seq![pending_before[k as int]] + remove_ids(
                        pending_before.skip(k as int + 1),
                        acked@,
                    )));
                }
            }
            k = k + 1;
        }
        proof {
            assert(remove_ids(pending_before.skip(k as int), acked@) =~= Seq::<u64>::empty());
            assert(kept@ + Seq::<u64>::empty() =~= kept@);
        }
        group.pending = kept;
    }
}

/// Linear membership test.
fn contains_u64(v: &Vec<u64>, x: u64) -> (r: bool)
    ensures
        r == v@.contains(x),
{
    let mut i: usize = 0;
    while i < v.len()
        invariant
            i <= v@.len(),
            forall|j: int| 0 <= j < i ==> v@[j] != x,
        decreases v@.len() - i,
    {
        if v[i] == x {
            return true;
        }
        i = i + 1;
    }
    proof {
        assert(forall|j: int| 0 <= j < v@.len() ==> v@[j] != x);
    }
    false
}

} // verus!
