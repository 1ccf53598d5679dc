//! An observer for tests and development whose observations are set by hand.
use crate::assoc::StringMap;
use crate::domain::identity::Instant;
use crate::domain::observation::{ObservationSnapshot, ObservedUsage, ServerObservation};
use crate::domain::resource::{Resource, ResourceView};
use vstd::prelude::*;

verus! {

/// The server an observed use is on: a GPU's server; rooms have none.
pub fn server_of(usage: &ObservedUsage) -> (s: Option<String>)
    ensures
        match usage.resource@ {
            ResourceView::Gpu(g) => s matches Some(x) && x@ == g.server,
            ResourceView::Room { .. } => s is None,
        },
{
    match &usage.resource {
        Resource::Gpu(gpu) => Some(gpu.server.clone()),
        Resource::Room { .. } => None,
    }
}

/// Whether the use is of a GPU on the named server.
pub open spec fn on_server(u: ObservedUsage, name: Seq<char>) -> bool {
    u.resource@ matches ResourceView::Gpu(g) && g.server == name
}

/// An observer that gives back the snapshot it was last given.
#[derive(Debug)]
pub struct MockResourceUsageObserver {
    pub snapshot: ObservationSnapshot,
}

impl MockResourceUsageObserver {
    /// An observer that has seen nothing.
    pub fn new() -> (o: MockResourceUsageObserver)
        ensures
            o.snapshot.usages@.len() == 0,
            o.snapshot.servers.entries@.len() == 0,
            o.snapshot.gpu_activities@.len() == 0,
    {
        MockResourceUsageObserver {
            snapshot: ObservationSnapshot {
                usages: Vec::new(),
                servers: StringMap::new(),
                gpu_activities: Vec::new(),
            },
        }
    }

    /// Replaces what is observed: the uses, with each server they are on observed at `now`.
    pub fn set_active_usages(&mut self, usages: Vec<ObservedUsage>, now: Instant)
        ensures
            final(self).snapshot.usages@ == usages@,
            final(self).snapshot.servers.wf(),
            final(self).snapshot.gpu_activities@.len() == 0,
            forall|name: Seq<char>| #![trigger final(self).snapshot.servers.get_spec(name)]
                final(self).snapshot.servers.get_spec(name) == if exists|k: int| 0 <= k < usages@.len() && on_server(#[trigger] usages@[k], name) {
                    Some(ServerObservation::Observed { generated_at: now })
                } else {
                    None
                },
    {
        let mut servers: StringMap<ServerObservation> = StringMap::new();
        let mut i: usize = 0;
        while i < usages.len()
            invariant
                i <= usages@.len(),
                servers.wf(),
                forall|name: Seq<char>| #![trigger servers.get_spec(name)]
                    servers.get_spec(name) == if exists|k: int| 0 <= k < i && on_server(#[trigger] usages@[k], name) {
                        Some(ServerObservation::Observed { generated_at: now })
                    } else {
                        None
                    },
            decreases usages@.len() - i,
        {
            let ghost before = servers;
            match server_of(&usages[i]) {
                Some(server) => {
                    let ghost sv = server@;
                    servers.insert(server, ServerObservation::Observed { generated_at: now });
                    proof {
                        assert forall|name: Seq<char>| #![trigger servers.get_spec(name)]
                            servers.get_spec(name) == if exists|k: int| 0 <= k < i + 1 && on_server(#[trigger] usages@[k], name) {
                                Some(ServerObservation::Observed { generated_at: now })
                            } else {
                                None
                            } by {
                            if name == sv {
                                assert(on_server(usages@[i as int], name));
                            } else {
                                assert(servers.get_spec(name) == before.get_spec(name));
                                if exists|k: int| 0 <= k < i + 1 && on_server(#[trigger] usages@[k], name) {
                                    let k = choose|k: int| 0 <= k < i + 1 && on_server(#[trigger] usages@[k], name);
                                    assert(k < i);
                                }
                            }
                        }
                    }
                },
                None => {
                    proof {
                        assert forall|name: Seq<char>| #![trigger servers.get_spec(name)]
                            servers.get_spec(name) == if exists|k: int| 0 <= k < i + 1 && on_server(#[trigger] usages@[k], name) {
                                Some(ServerObservation::Observed { generated_at: now })
                            } else {
                                None
                            } by {
                            if exists|k: int| 0 <= k < i + 1 && on_server(#[trigger] usages@[k], name) {
                                let k = choose|k: int| 0 <= k < i + 1 && on_server(#[trigger] usages@[k], name);
                                assert(k < i);
                            }
                        }
                    }
                },
            }
            i = i + 1;
        }
        self.snapshot = ObservationSnapshot { usages, servers, gpu_activities: Vec::new() };
    }

    /// Replaces what is observed.
    pub fn set_snapshot(&mut self, snapshot: ObservationSnapshot)
        ensures
            final(self).snapshot == snapshot,
    {
        self.snapshot = snapshot;
    }

    /// What is observed.
    pub fn observe_active_usages(&self) -> (s: &ObservationSnapshot)
        ensures
            *s == self.snapshot,
    {
        &self.snapshot
    }
}

} // verus!
