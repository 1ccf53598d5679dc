//! What was seen of the real use of the servers.
use crate::assoc::StringMap;
use crate::domain::identity::{ExternalIdentity, Instant};
use crate::domain::resource::{Gpu, Resource};
use crate::text::str_equal;
use vstd::prelude::*;

verus! {

/// A use of a resource seen on a server: by whom, since when, and the memory it holds.
#[derive(Debug)]
pub struct ObservedUsage {
    pub resource: Resource,
    pub external_identity: ExternalIdentity,
    pub active_since: Instant,
    /// The memory held, in MiB, when it could be read.
    pub used_memory_mib: Option<u64>,
}

impl ObservedUsage {
    /// A use of the resource by the identity since the instant, its memory unknown.
    pub fn new(resource: Resource, external_identity: ExternalIdentity, active_since: Instant) -> (u:
        ObservedUsage)
        ensures
            u.resource@ == resource@,
            u.external_identity@ == external_identity@,
            u.active_since == active_since,
            u.used_memory_mib is None,
    {
        ObservedUsage { resource, external_identity, active_since, used_memory_mib: None }
    }

    /// A copy of the use.
    pub fn duplicate(&self) -> (u: ObservedUsage)
        ensures
            u.resource@ == self.resource@,
            u.external_identity@ == self.external_identity@,
            u.active_since == self.active_since,
            u.used_memory_mib == self.used_memory_mib,
    {
        ObservedUsage {
            resource: self.resource.duplicate(),
            external_identity: self.external_identity.duplicate(),
            active_since: self.active_since,
            used_memory_mib: self.used_memory_mib,
        }
    }

    /// The same use, holding the memory.
    pub fn with_used_memory(self, used_memory_mib: u64) -> (u: ObservedUsage)
        ensures
            u.resource@ == self.resource@,
            u.external_identity@ == self.external_identity@,
            u.active_since == self.active_since,
            u.used_memory_mib == Some(used_memory_mib),
    {
        ObservedUsage { used_memory_mib: Some(used_memory_mib), ..self }
    }
}

/// What became of a server's report.
#[derive(Debug, Clone, Copy, PartialEq, Eq, Structural)]
pub enum ServerObservation {
    /// Read, as of the instant it was made.
    Observed { generated_at: Instant },
    /// No report arrived.
    Missing,
    /// A report arrived but could not be read.
    Unreadable,
    /// The report is too old to trust.
    Stale { generated_at: Instant },
}

/// How hard a device was working during the observation window.
#[derive(Debug, Clone, Copy, PartialEq, Eq, Structural)]
pub struct GpuActivity {
    /// The highest utilization seen, in percent.
    pub peak_utilization_percent: u32,
}

impl GpuActivity {
    /// An activity with the peak utilization.
    pub fn new(peak_utilization_percent: u32) -> (a: GpuActivity)
        ensures
            a.peak_utilization_percent == peak_utilization_percent,
    {
        GpuActivity { peak_utilization_percent }
    }
}

/// The activity of the first entry for the device, if any.
pub open spec fn activity_lookup(
    entries: Seq<(String, u32, GpuActivity)>,
    server: Seq<char>,
    device: u32,
) -> Option<GpuActivity>
    decreases entries.len(),
{
    if entries.len() == 0 {
        None
    } else {
        match activity_lookup(entries.drop_last(), server, device) {
            Some(a) => Some(a),
            None => if entries.last().0@ == server && entries.last().1 == device {
                Some(entries.last().2)
            } else {
                None
            },
        }
    }
}

/// Everything seen in one round: the uses, what became of each server's report, and how
/// hard each reported device worked.
#[derive(Debug)]
pub struct ObservationSnapshot {
    pub usages: Vec<ObservedUsage>,
    pub servers: StringMap<ServerObservation>,
    pub gpu_activities: Vec<(String, u32, GpuActivity)>,
}

impl ObservationSnapshot {
    /// Whether the server's use is known: its report was read.
    pub open spec fn covered(&self, server: Seq<char>) -> bool {
        self.servers.get_spec(server) matches Some(ServerObservation::Observed { .. })
    }

    /// Whether the server's use is known from a report that was read.
    pub fn covers(&self, server: &str) -> (b: bool)
        ensures
            b == self.covered(server@),
    {
        match self.servers.get(server) {
            Some(ServerObservation::Observed { .. }) => true,
            _ => false,
        }
    }

    /// What became of each server's report, in the order the servers were read.
    pub fn servers(&self) -> (s: &[(String, ServerObservation)])
        ensures
            s@ == self.servers.entries@,
    {
        self.servers.entries.as_slice()
    }

    /// The uses seen.
    pub fn usages(&self) -> (u: &[ObservedUsage])
        ensures
            u@ == self.usages@,
    {
        self.usages.as_slice()
    }

    /// How hard the GPU worked, when its report said.
    pub fn gpu_activity_of(&self, gpu: &Gpu) -> (a: Option<GpuActivity>)
        ensures
            a == activity_lookup(self.gpu_activities@, gpu.server@, gpu.device_number),
    {
        let entries = self.gpu_activities.as_slice();
        let mut i: usize = 0;
        while i < entries.len()
            invariant
                entries@ == self.gpu_activities@,
                i <= entries@.len(),
                activity_lookup(entries@.subrange(0, i as int), gpu.server@, gpu.device_number)
                    is None,
            decreases entries@.len() - i,
        {
            let ghost p = entries@.subrange(0, i + 1);
            assert(p.drop_last() =~= entries@.subrange(0, i as int));
            assert(p.last() == entries@[i as int]);
            if str_equal(entries[i].0.as_str(), gpu.server.as_str()) && entries[i].1
                == gpu.device_number {
                proof {
                    lemma_activity_lookup_extends(
                        entries@,
                        i as int,
                        gpu.server@,
                        gpu.device_number,
                    );
                }
                return Some(entries[i].2);
            }
            i = i + 1;
        }
        assert(entries@.subrange(0, entries@.len() as int) =~= entries@);
        None
    }
}

/// A match found in a prefix is the first match of the whole.
proof fn lemma_activity_lookup_extends(
    entries: Seq<(String, u32, GpuActivity)>,
    i: int,
    server: Seq<char>,
    device: u32,
)
    requires
        0 <= i < entries.len(),
        activity_lookup(entries.subrange(0, i + 1), server, device) == Some(entries[i].2),
    ensures
        activity_lookup(entries, server, device) == Some(entries[i].2),
    decreases entries.len(),
{
    if entries.len() == i + 1 {
        assert(entries.subrange(0, i + 1) =~= entries);
    } else {
        let t = entries.drop_last();
        assert(t.subrange(0, i + 1) =~= entries.subrange(0, i + 1));
        lemma_activity_lookup_extends(t, i, server, device);
    }
}

/// Replacing an entry by one with the same device leaves the other devices' activities.
proof fn lemma_activity_update(
    e: Seq<(String, u32, GpuActivity)>,
    i: int,
    x: (String, u32, GpuActivity),
    server: Seq<char>,
    device: u32,
)
    requires
        0 <= i < e.len(),
        x.0@ == e[i].0@,
        x.1 == e[i].1,
        !(x.0@ == server && x.1 == device),
    ensures
        activity_lookup(e.update(i, x), server, device) == activity_lookup(e, server, device),
    decreases e.len(),
{
    let u = e.update(i, x);
    if i < e.len() - 1 {
        assert(u.drop_last() =~= e.drop_last().update(i, x));
        lemma_activity_update(e.drop_last(), i, x, server, device);
        assert(u.last() == e.last());
    } else {
        assert(u.drop_last() =~= e.drop_last());
    }
}

/// Appending an entry for another device leaves this device's activity.
proof fn lemma_activity_push_other(
    e: Seq<(String, u32, GpuActivity)>,
    x: (String, u32, GpuActivity),
    server: Seq<char>,
    device: u32,
)
    requires
        !(x.0@ == server && x.1 == device),
    ensures
        activity_lookup(e.push(x), server, device) == activity_lookup(e, server, device),
{
    assert(e.push(x).drop_last() =~= e);
}

/// No entry for the device means no activity for it, and the first entry for it gives it.
proof fn lemma_activity_lookup_shape(e: Seq<(String, u32, GpuActivity)>, server: Seq<char>, device: u32)
    ensures
        match activity_lookup(e, server, device) {
            Some(a) => exists|j: int| 0 <= j < e.len() && (#[trigger] e[j]).0@ == server && e[j].1 == device && e[j].2 == a
                && forall|k: int| 0 <= k < j ==> !((#[trigger] e[k]).0@ == server && e[k].1 == device),
            None => forall|k: int| 0 <= k < e.len() ==> !((#[trigger] e[k]).0@ == server && e[k].1 == device),
        },
    decreases e.len(),
{
    if e.len() > 0 {
        lemma_activity_lookup_shape(e.drop_last(), server, device);
        match activity_lookup(e.drop_last(), server, device) {
            Some(a) => {
                let j = choose|j: int| 0 <= j < e.drop_last().len() && (#[trigger] e.drop_last()[j]).0@ == server && e.drop_last()[j].1 == device && e.drop_last()[j].2 == a
                    && forall|k: int| 0 <= k < j ==> !((#[trigger] e.drop_last()[k]).0@ == server && e.drop_last()[k].1 == device);
                assert(e[j] == e.drop_last()[j]);
                assert forall|k: int| 0 <= k < j implies !((#[trigger] e[k]).0@ == server && e[k].1 == device) by {
                    assert(e[k] == e.drop_last()[k]);
                }
            },
            None => {
                assert forall|k: int| 0 <= k < e.len() - 1 implies !((#[trigger] e[k]).0@ == server && e[k].1 == device) by {
                    assert(e[k] == e.drop_last()[k]);
                }
            },
        }
    }
}

/// Sets the activity of a device: replaces the entry for it, or adds one.
pub fn set_activity(entries: &mut Vec<(String, u32, GpuActivity)>, server: String, device: u32, a: GpuActivity)
    ensures
        activity_lookup(final(entries)@, server@, device) == Some(a),
        forall|s: Seq<char>, d: u32| !(s == server@ && d == device) ==> #[trigger] activity_lookup(final(entries)@, s, d)
            == activity_lookup(old(entries)@, s, d),
{
    let ghost e = entries@;
    let mut i: usize = 0;
    while i < entries.len()
        invariant
            e == entries@,
            e == old(entries)@,
            i <= e.len(),
            forall|k: int| 0 <= k < i ==> !((#[trigger] e[k]).0@ == server@ && e[k].1 == device),
        decreases e.len() - i,
    {
        if str_equal(entries[i].0.as_str(), server.as_str()) && entries[i].1 == device {
            let ghost x = (server, device, a);
            entries.set(i, (server, device, a));
            proof {
                let u = entries@;
                assert(u == e.update(i as int, x));
                assert forall|s: Seq<char>, d: u32| !(s == x.0@ && d == device) implies #[trigger] activity_lookup(u, s, d)
                    == activity_lookup(e, s, d) by {
                    lemma_activity_update(e, i as int, x, s, d);
                }
                lemma_activity_lookup_shape(u, x.0@, device);
                if activity_lookup(u, x.0@, device) != Some(a) {
                    match activity_lookup(u, x.0@, device) {
                        Some(b) => {
                            let j = choose|j: int| 0 <= j < u.len() && (#[trigger] u[j]).0@ == x.0@ && u[j].1 == device && u[j].2 == b
                                && forall|k: int| 0 <= k < j ==> !((#[trigger] u[k]).0@ == x.0@ && u[k].1 == device);
                            if j < i {
                                assert(u[j] == e[j]);
                            } else if j > i {
                                assert(u[i as int] == x);
                            }
                        },
                        None => {
                            assert(u[i as int] == x);
                        },
                    }
                }
            }
            return;
        }
        i = i + 1;
    }
    let ghost x = (server, device, a);
    entries.push((server, device, a));
    proof {
        let u = entries@;
        assert(u == e.push(x));
        assert(u.drop_last() =~= e);
        lemma_activity_lookup_shape(e, x.0@, device);
        assert forall|s: Seq<char>, d: u32| !(s == x.0@ && d == device) implies #[trigger] activity_lookup(u, s, d)
            == activity_lookup(e, s, d) by {
            lemma_activity_push_other(e, x, s, d);
        }
    }
}

} // verus!
