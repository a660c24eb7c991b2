use std::collections::HashMap;
use vstd::prelude::*;

verus! {

broadcast use vstd::std_specs::hash::group_hash_axioms;

/// What is to be done with a packet.
#[derive(Debug, Clone, Copy, PartialEq, Eq, Structural)]
pub enum Route {
    /// The sink of the PID takes the packet.
    Forward,
    /// The packet goes nowhere.
    Drop,
    /// A sink is to be asked for, and [`Demuxer::sink_made`] told the answer.
    MakeSink,
}

/// The routing table of the packets of a transport stream: for each PID
/// that has had a sink, whether the sink is still open.
pub struct Demuxer {
    sinks: HashMap<u16, bool>,
}

impl View for Demuxer {
    type V = Map<u16, bool>;

    closed spec fn view(&self) -> Map<u16, bool> {
        self.sinks@
    }
}

/// Where a packet of the PID `pid` goes: to the sink of the PID if it has
/// one that is open, nowhere if its sink has closed, and to a sink that is
/// yet to be made if it never had one.
pub open spec fn spec_route(sinks: Map<u16, bool>, pid: u16) -> Route {
    if !sinks.contains_key(pid) {
        Route::MakeSink
    } else if sinks[pid] {
        Route::Forward
    } else {
        Route::Drop
    }
}

impl Demuxer {
    /// A routing table without any sink.
    pub fn new() -> (d: Demuxer)
        ensures
            d@ == Map::<u16, bool>::empty(),
    {
        Demuxer { sinks: HashMap::new() }
    }

    /// Tells where a packet of the PID `pid` goes, as [`spec_route`] says.
    pub fn start_send(&self, pid: u16) -> (r: Route)
        ensures
            r == spec_route(self@, pid),
    {
        match self.sinks.get(&pid) {
            Some(open) => if *open {
                Route::Forward
            } else {
                Route::Drop
            },
            None => Route::MakeSink,
        }
    }

    /// Takes in the answer to a request for a sink. Where one was made, the
    /// PID has an open sink from now on and the packet goes to it; where
    /// none was made, the packet goes nowhere and the table stays as it is.
    pub fn sink_made(&mut self, pid: u16, made: bool) -> (r: Route)
        ensures
            made ==> r == Route::Forward && final(self)@ == old(self)@.insert(pid, true),
            !made ==> r == Route::Drop && final(self)@ == old(self)@,
    {
        if made {
            self.sinks.insert(pid, true);
            Route::Forward
        } else {
            Route::Drop
        }
    }

    /// Takes in that the sink of the PID `pid` has failed: it is closed for
    /// good, and the packets of the PID go nowhere from now on.
    pub fn sink_failed(&mut self, pid: u16)
        ensures
            final(self)@ == old(self)@.insert(pid, false),
    {
        self.sinks.insert(pid, false);
    }
}

} // verus!
