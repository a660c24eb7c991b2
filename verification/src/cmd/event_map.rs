use crate::cmd::events::Event;
use std::collections::BTreeMap;
use vstd::prelude::*;

verus! {

broadcast use vstd::laws_cmp::group_laws_cmp;

/// The map of events by id after `events` have been put in, one after the
/// other: of two events with one id the later stays.
pub open spec fn spec_event_map(m: Map<u16, Event>, events: Seq<Event>) -> Map<u16, Event>
    decreases events.len(),
{
    if events.len() == 0 {
        m
    } else {
        spec_event_map(m.insert(events[0].id, events[0]), events.skip(1))
    }
}

/// Puts `events` into the map of events by id, as [`spec_event_map`] says.
pub fn into_event_map(out: &mut BTreeMap<u16, Event>, events: Vec<Event>)
    ensures
        final(out)@ == spec_event_map(old(out)@, events@),
{
    let mut events = events;
    let ghost all = events@;
    while events.len() > 0
        invariant
            spec_event_map(out@, events@) == spec_event_map(old(out)@, all),
        decreases events@.len(),
    {
        proof {
            assert(events@.remove(0) =~= events@.skip(1));
        }
        let event = events.remove(0);
        out.insert(event.id, event);
    }
}

} // verus!
