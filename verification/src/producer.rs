//! One producer cycle, reduced to its pure part: map every website of
//! the registry snapshot to one check-request event and to one append
//! command. Publishing N events therefore issues exactly N appends,
//! each adding one stream entry — at least N new entries per cycle,
//! duplicates across overlapping cycles tolerated, never fewer.

use vstd::prelude::*;

use crate::commands::{Arg, args_view, xadd_args, xadd_spec};
use crate::event::WebsiteEvent;
use crate::registry::Website;

verus! {

/// Map a registry snapshot to check-request events, one per website,
/// in order.
pub fn events_for(websites: &Vec<Website>) -> (r: Vec<WebsiteEvent>)
    ensures
        r@.len() == websites@.len(),
        forall|i: int|
            0 <= i < websites@.len() ==> (#[trigger] r@[i])@.url == websites@[i].url@
                && r@[i]@.id == websites@[i].id@,
{
    let mut r: Vec<WebsiteEvent> = Vec::new();
    let mut i: usize = 0;
    while i < websites.len()
        invariant
            i <= websites@.len(),
            r@.len() == i,
            forall|j: int|
                0 <= j < i ==> (#[trigger] r@[j])@.url == websites@[j].url@ && r@[j]@.id
                    == websites@[j].id@,
        decreases websites@.len() - i,
    {
        r.push(
            WebsiteEvent { url: websites[i].url.clone(), id: websites[i].id.clone() },
        );
        i = i + 1;
    }
    r
}

/// The append commands of one producer cycle over a batch of events:
/// exactly one append command per event, in order, so a cycle over N
/// events adds N entries to the stream.
pub fn publish_commands(events: &Vec<WebsiteEvent>) -> (r: Vec<Vec<Arg>>)
    ensures
        r@.len() == events@.len(),
        forall|i: int|
            0 <= i < events@.len() ==> args_view((#[trigger] r@[i])@) == xadd_spec(
                events@[i].url@,
                events@[i].id@,
            ),
{
    let mut r: Vec<Vec<Arg>> = Vec::new();
    let mut i: usize = 0;
    while i < events.len()
        invariant
            i <= events@.len(),
            r@.len() == i,
            forall|j: int|
                0 <= j < i ==> args_view((#[trigger] r@[j])@) == xadd_spec(
                    events@[j].url@,
                    events@[j].id@,
                ),
        decreases events@.len() - i,
    {
        r.push(xadd_args(&events[i]));
        i = i + 1;
    }
    r
}

/// One full producer cycle over a registry snapshot: one append
/// command per website, carrying that website's URL and id.
pub fn cycle_commands(websites: &Vec<Website>) -> (r: Vec<Vec<Arg>>)
    ensures
        r@.len() == websites@.len(),
        forall|i: int|
            0 <= i < websites@.len() ==> args_view((#[trigger] r@[i])@) == xadd_spec(
                websites@[i].url@,
                websites@[i].id@,
            ),
{
    let events = events_for(websites);
    publish_commands(&events)
}

} // verus!
