//! Reading the GPU usage reports each server writes to a shared directory.
use crate::assoc::StringMap;
use crate::domain::identity::{ExternalIdentity, ExternalIdentityView, ExternalSystem, ExternalSystemView, Instant};
use crate::domain::observation::{
    activity_lookup, set_activity, GpuActivity, ObservationSnapshot, ObservedUsage,
    ServerObservation,
};
use crate::domain::resource::{Gpu, GpuView, Resource, ResourceView};
use crate::infrastructure::config::resource_config::{first_server_named, ResourceConfig};
use crate::infrastructure::repositories::resource_usage::google_calendar::gpu_spec::device_model;
use crate::infrastructure::repositories::resource_usage::id_mapper::lookup_last;

use vstd::prelude::*;

verus! {

/// One server's report: who uses which device since when, and how hard each device worked.
#[derive(Debug)]
pub struct GpuUsageReport {
    /// The server's name, as in the resource file.
    pub server: String,
    /// When the report was made.
    pub generated_at: Instant,
    pub processes: Vec<GpuUsageProcessEntry>,
    /// Empty where utilization cannot be read: then it is unknown, not zero.
    pub devices: Vec<GpuUsageDeviceEntry>,
}

/// The use of one device by one user.
#[derive(Debug)]
pub struct GpuUsageProcessEntry {
    pub device_number: u32,
    /// The user's OS user name.
    pub os_user: String,
    /// When the user's oldest process on the device started.
    pub started_at: Instant,
    /// The memory the user's processes hold on the device, in MiB, when it can be read.
    pub used_memory_mib: Option<u64>,
}

/// How hard one device worked during the observation window.
#[derive(Debug)]
pub struct GpuUsageDeviceEntry {
    pub device_number: u32,
    /// The highest utilization seen, in percent.
    pub peak_utilization_percent: u32,
}

/// Model of an observed use: resource, identity, start and memory.
pub open spec fn observed_view(u: ObservedUsage) -> (ResourceView, ExternalIdentityView, Instant, Option<u64>) {
    (u.resource@, u.external_identity@, u.active_since, u.used_memory_mib)
}

/// The uses a server's processes show, for those on configured devices, in order.
pub open spec fn process_usages(
    server: Seq<char>,
    devices: Seq<crate::infrastructure::config::resource_config::DeviceConfig>,
    ps: Seq<GpuUsageProcessEntry>,
) -> Seq<(ResourceView, ExternalIdentityView, Instant, Option<u64>)>
    decreases ps.len(),
{
    if ps.len() == 0 {
        Seq::empty()
    } else {
        let rest = process_usages(server, devices, ps.drop_last());
        let p = ps.last();
        match device_model(devices, p.device_number) {
            Some(model) => rest.push(
                (
                    ResourceView::Gpu(GpuView { server, device_number: p.device_number, model }),
                    ExternalIdentityView {
                        system: ExternalSystemView::Os { server },
                        user_id: p.os_user@,
                    },
                    p.started_at,
                    p.used_memory_mib,
                ),
            ),
            None => rest,
        }
    }
}

/// The activities a server's report gives, for configured devices, in order.
pub open spec fn device_activities(
    server: Seq<char>,
    devices: Seq<crate::infrastructure::config::resource_config::DeviceConfig>,
    ds: Seq<GpuUsageDeviceEntry>,
) -> Seq<(Seq<char>, u32, u32)>
    decreases ds.len(),
{
    if ds.len() == 0 {
        Seq::empty()
    } else {
        let rest = device_activities(server, devices, ds.drop_last());
        let d = ds.last();
        if device_model(devices, d.device_number) is Some {
            rest.push((server, d.device_number, d.peak_utilization_percent))
        } else {
            rest
        }
    }
}

/// Model of activity entries: server, device and peak utilization.
pub open spec fn activities_view(v: Seq<(String, u32, GpuActivity)>) -> Seq<(Seq<char>, u32, u32)> {
    v.map_values(|e: (String, u32, GpuActivity)| (e.0@, e.1, e.2.peak_utilization_percent))
}

/// What was read of one server's report.
#[derive(Debug)]
pub struct ServerReading {
    pub observation: ServerObservation,
    pub usages: Vec<ObservedUsage>,
    pub gpu_activities: Vec<(String, u32, GpuActivity)>,
}

impl ServerReading {
    /// A reading that tells nothing of the server's use, and why.
    pub fn unavailable(observation: ServerObservation) -> (r: ServerReading)
        ensures
            r.observation == observation,
            r.usages@.len() == 0,
            r.gpu_activities@.len() == 0,
    {
        ServerReading { observation, usages: Vec::new(), gpu_activities: Vec::new() }
    }
}

/// Whether a report made at `generated_at` is older than `max_staleness_secs` at `now`.
pub open spec fn is_stale(now: Instant, generated_at: Instant, max_staleness_secs: i64) -> bool {
    (now.seconds - generated_at.seconds) * 1_000_000_000 + (now.nanos - generated_at.nanos)
        > max_staleness_secs * 1_000_000_000
}

/// The uses a report shows, given the resource settings.
pub open spec fn report_usages(config: ResourceConfig, report: GpuUsageReport) -> Seq<
    (ResourceView, ExternalIdentityView, Instant, Option<u64>),
> {
    match first_server_named(config.servers@, report.server@) {
        Some(i) => process_usages(report.server@, config.servers@[i].devices@, report.processes@),
        None => Seq::empty(),
    }
}

/// The activities a report gives, given the resource settings.
pub open spec fn report_activities(config: ResourceConfig, report: GpuUsageReport) -> Seq<
    (Seq<char>, u32, u32),
> {
    match first_server_named(config.servers@, report.server@) {
        Some(i) => device_activities(report.server@, config.servers@[i].devices@, report.devices@),
        None => Seq::empty(),
    }
}

/// The reading of a report too old to trust.
pub open spec fn stale_reading(r: ServerReading, report: GpuUsageReport) -> bool {
    &&& r.observation == (ServerObservation::Stale { generated_at: report.generated_at })
    &&& r.usages@.len() == 0
    &&& r.gpu_activities@.len() == 0
}

/// The reading of a fresh report.
pub open spec fn observed_reading(r: ServerReading, config: ResourceConfig, report: GpuUsageReport) -> bool {
    &&& r.observation == (ServerObservation::Observed { generated_at: report.generated_at })
    &&& r.usages@.map_values(|u: ObservedUsage| observed_view(u)) == report_usages(config, report)
    &&& activities_view(r.gpu_activities@) == report_activities(config, report)
}

/// Reads the usage reports the servers write to a shared directory.
pub struct SharedFileResourceUsageObserver {
    /// The shared directory of the reports.
    pub directory: String,
    pub resource_config: ResourceConfig,
    /// The age, in seconds, from which a report is ignored.
    pub max_staleness_secs: i64,
}

impl SharedFileResourceUsageObserver {
    /// An observer of the directory for the configured servers.
    pub fn new(directory: String, resource_config: ResourceConfig, max_staleness_secs: i64) -> (o:
        SharedFileResourceUsageObserver)
        ensures
            o.directory@ == directory@,
            o.resource_config == resource_config,
            o.max_staleness_secs == max_staleness_secs,
    {
        SharedFileResourceUsageObserver { directory, resource_config, max_staleness_secs }
    }

    /// Whether a report made at `generated_at` is too old to trust at `now`.
    pub fn report_is_stale(&self, now: Instant, generated_at: Instant) -> (b: bool)
        ensures
            b == is_stale(now, generated_at, self.max_staleness_secs),
    {
        let age: i128 = (now.seconds as i128 - generated_at.seconds as i128) * 1_000_000_000
            + (now.nanos as i128 - generated_at.nanos as i128);
        age > (self.max_staleness_secs as i128) * 1_000_000_000
    }

    /// The activities of the report's configured devices (none for an unknown server).
    pub fn build_gpu_activities(&self, report: &GpuUsageReport) -> (r: Vec<(String, u32, GpuActivity)>)
        ensures
            activities_view(r@) == report_activities(self.resource_config, *report),
    {
        let mut r: Vec<(String, u32, GpuActivity)> = Vec::new();
        match self.resource_config.server_index(report.server.as_str()) {
            None => {
                assert(activities_view(r@) =~= Seq::<(Seq<char>, u32, u32)>::empty());
                r
            },
            Some(k) => {
                let devices = self.resource_config.servers[k].devices.as_slice();
                let ghost ds = report.devices@;
                let mut i: usize = 0;
                while i < report.devices.len()
                    invariant
                        ds == report.devices@,
                        devices@ == self.resource_config.servers@[k as int].devices@,
                        i <= ds.len(),
                        activities_view(r@) == device_activities(
                            report.server@,
                            devices@,
                            ds.subrange(0, i as int),
                        ),
                    decreases ds.len() - i,
                {
                    let ghost p = ds.subrange(0, i + 1);
                    assert(p.drop_last() =~= ds.subrange(0, i as int));
                    assert(p.last() == ds[i as int]);
                    let d = &report.devices[i];
                    if configured_model(devices, d.device_number).is_some() {
                        let ghost before = activities_view(r@);
                        r.push(
                            (
                                report.server.clone(),
                                d.device_number,
                                GpuActivity::new(d.peak_utilization_percent),
                            ),
                        );
                        assert(activities_view(r@) =~= before.push(
                            (report.server@, d.device_number, d.peak_utilization_percent),
                        ));
                    }
                    i = i + 1;
                }
                assert(ds.subrange(0, ds.len() as int) =~= ds);
                r
            },
        }
    }

    /// The uses the report's processes show on configured devices (none for an unknown
    /// server): the GPU with its configured model, the user as an OS identity of the server.
    pub fn build_observed_usages(&self, report: &GpuUsageReport) -> (r: Vec<ObservedUsage>)
        ensures
            r@.map_values(|u: ObservedUsage| observed_view(u)) == report_usages(
                self.resource_config,
                *report,
            ),
    {
        let mut r: Vec<ObservedUsage> = Vec::new();
        match self.resource_config.server_index(report.server.as_str()) {
            None => {
                assert(r@.map_values(|u: ObservedUsage| observed_view(u)) =~= Seq::<
                    (ResourceView, ExternalIdentityView, Instant, Option<u64>),
                >::empty());
                r
            },
            Some(k) => {
                let devices = self.resource_config.servers[k].devices.as_slice();
                let ghost ps = report.processes@;
                let mut i: usize = 0;
                while i < report.processes.len()
                    invariant
                        ps == report.processes@,
                        devices@ == self.resource_config.servers@[k as int].devices@,
                        i <= ps.len(),
                        r@.map_values(|u: ObservedUsage| observed_view(u)) == process_usages(
                            report.server@,
                            devices@,
                            ps.subrange(0, i as int),
                        ),
                    decreases ps.len() - i,
                {
                    let ghost p = ps.subrange(0, i + 1);
                    assert(p.drop_last() =~= ps.subrange(0, i as int));
                    assert(p.last() == ps[i as int]);
                    let process = &report.processes[i];
                    match configured_model(devices, process.device_number) {
                        Some(model) => {
                            let resource = Resource::Gpu(
                                Gpu::new(report.server.clone(), process.device_number, model),
                            );
                            let identity = ExternalIdentity::new(
                                ExternalSystem::Os { server: report.server.clone() },
                                process.os_user.clone(),
                            );
                            let observed = ObservedUsage::new(resource, identity, process.started_at);
                            let observed = match process.used_memory_mib {
                                Some(mib) => observed.with_used_memory(mib),
                                None => observed,
                            };
                            let ghost before = r@.map_values(|u: ObservedUsage| observed_view(u));
                            let ghost v = observed_view(observed);
                            r.push(observed);
                            assert(r@.map_values(|u: ObservedUsage| observed_view(u)) =~= before.push(v));
                        },
                        None => {},
                    }
                    i = i + 1;
                }
                assert(ps.subrange(0, ps.len() as int) =~= ps);
                r
            },
        }
    }

    /// What the report says, read at `now`: nothing when it is too old (stale, with when it
    /// was made), else the server is observed as of then, with the uses and activities.
    pub fn reading_from_report(&self, report: &GpuUsageReport, now: Instant) -> (r: ServerReading)
        ensures
            is_stale(now, report.generated_at, self.max_staleness_secs) ==> stale_reading(r, *report),
            !is_stale(now, report.generated_at, self.max_staleness_secs) ==> observed_reading(
                r,
                self.resource_config,
                *report,
            ),
    {
        if self.report_is_stale(now, report.generated_at) {
            return ServerReading::unavailable(
                ServerObservation::Stale { generated_at: report.generated_at },
            );
        }
        ServerReading {
            observation: ServerObservation::Observed { generated_at: report.generated_at },
            usages: self.build_observed_usages(report),
            gpu_activities: self.build_gpu_activities(report),
        }
    }
}

/// The model of the first configured device with the number, if any.
fn configured_model(
    devices: &[crate::infrastructure::config::resource_config::DeviceConfig],
    id: u32,
) -> (r: Option<String>)
    ensures
        match device_model(devices@, id) {
            Some(m) => r matches Some(s) && s@ == m,
            None => r is None,
        },
{
    let ghost ids = devices@.map_values(
        |d: crate::infrastructure::config::resource_config::DeviceConfig| d.id,
    );
    let mut i: usize = 0;
    while i < devices.len()
        invariant
            ids == devices@.map_values(
                |d: crate::infrastructure::config::resource_config::DeviceConfig| d.id,
            ),
            i <= devices@.len(),
            forall|j: int| 0 <= j < i ==> ids[j] != id,
        decreases devices@.len() - i,
    {
        if devices[i].id == id {
            proof {
                crate::text::lemma_first_index_is(ids, id, i as int);
            }
            return Some(devices[i].model.clone());
        }
        i = i + 1;
    }
    proof {
        crate::text::lemma_first_index(ids, id);
        if crate::text::first_index(ids, id) is Some {
            let j = crate::text::first_index(ids, id)->0;
            assert(ids[j] == id);
        }
    }
    None
}

/// The uses of all readings, reading after reading.
pub open spec fn all_usages(readings: Seq<(String, ServerReading)>) -> Seq<
    (ResourceView, ExternalIdentityView, Instant, Option<u64>),
>
    decreases readings.len(),
{
    if readings.len() == 0 {
        Seq::empty()
    } else {
        all_usages(readings.drop_last()) + readings.last().1.usages@.map_values(
            |u: ObservedUsage| observed_view(u),
        )
    }
}

/// The activities of all readings, reading after reading.
pub open spec fn all_activities(readings: Seq<(String, ServerReading)>) -> Seq<
    (String, u32, GpuActivity),
>
    decreases readings.len(),
{
    if readings.len() == 0 {
        Seq::empty()
    } else {
        all_activities(readings.drop_last()) + readings.last().1.gpu_activities@
    }
}

/// The activity of the last entry for the device, if any.
pub open spec fn activity_last(e: Seq<(String, u32, GpuActivity)>, server: Seq<char>, device: u32) -> Option<
    GpuActivity,
>
    decreases e.len(),
{
    if e.len() == 0 {
        None
    } else if e.last().0@ == server && e.last().1 == device {
        Some(e.last().2)
    } else {
        activity_last(e.drop_last(), server, device)
    }
}

/// The observation of the server in the last reading for it, if any.
pub open spec fn observation_last(readings: Seq<(String, ServerReading)>, server: Seq<char>) -> Option<
    ServerObservation,
> {
    match lookup_last(readings, server) {
        Some(r) => Some(r.observation),
        None => None,
    }
}

/// One round's snapshot from the readings of the servers: all uses in order, each server's
/// observation (the last for a name read twice), each device's activity (the last given).
pub fn snapshot_from_readings(readings: &[(String, ServerReading)]) -> (s: ObservationSnapshot)
    ensures
        s.servers.wf(),
        s.usages@.map_values(|u: ObservedUsage| observed_view(u)) == all_usages(readings@),
        forall|name: Seq<char>| #![trigger s.servers.get_spec(name)] s.servers.get_spec(name)
            == observation_last(readings@, name),
        forall|server: Seq<char>, device: u32| #[trigger] activity_lookup(s.gpu_activities@, server, device)
            == activity_last(all_activities(readings@), server, device),
{
    let mut usages: Vec<ObservedUsage> = Vec::new();
    let mut servers: StringMap<ServerObservation> = StringMap::new();
    let mut activities: Vec<(String, u32, GpuActivity)> = Vec::new();
    let mut i: usize = 0;
    while i < readings.len()
        invariant
            i <= readings@.len(),
            servers.wf(),
            usages@.map_values(|u: ObservedUsage| observed_view(u)) == all_usages(
                readings@.subrange(0, i as int),
            ),
            forall|name: Seq<char>| #![trigger servers.get_spec(name)] servers.get_spec(name)
                == observation_last(readings@.subrange(0, i as int), name),
            forall|server: Seq<char>, device: u32| #[trigger] activity_lookup(activities@, server, device)
                == activity_last(all_activities(readings@.subrange(0, i as int)), server, device),
        decreases readings@.len() - i,
    {
        let ghost p = readings@.subrange(0, i + 1);
        assert(p.drop_last() =~= readings@.subrange(0, i as int));
        assert(p.last() == readings@[i as int]);
        let reading = &readings[i].1;
        let mut j: usize = 0;
        let ghost base_usages = usages@.map_values(|u: ObservedUsage| observed_view(u));
        while j < reading.usages.len()
            invariant
                j <= reading.usages@.len(),
                usages@.map_values(|u: ObservedUsage| observed_view(u)) == base_usages
                    + reading.usages@.subrange(0, j as int).map_values(
                    |u: ObservedUsage| observed_view(u),
                ),
            decreases reading.usages@.len() - j,
        {
            let ghost before = usages@.map_values(|u: ObservedUsage| observed_view(u));
            usages.push(reading.usages[j].duplicate());
            assert(usages@.map_values(|u: ObservedUsage| observed_view(u)) =~= before.push(
                observed_view(reading.usages@[j as int]),
            ));
            assert(reading.usages@.subrange(0, j + 1).map_values(|u: ObservedUsage| observed_view(u))
                =~= reading.usages@.subrange(0, j as int).map_values(
                |u: ObservedUsage| observed_view(u),
            ).push(observed_view(reading.usages@[j as int])));
            j = j + 1;
        }
        assert(reading.usages@.subrange(0, reading.usages@.len() as int) =~= reading.usages@);
        let ghost before_servers = servers;
        servers.insert(readings[i].0.clone(), reading.observation);
        proof {
            assert forall|name: Seq<char>| #![trigger servers.get_spec(name)] servers.get_spec(name)
                == observation_last(p, name) by {
                if name != readings@[i as int].0@ {
                    assert(servers.get_spec(name) == before_servers.get_spec(name));
                }
            }
        }
        let ghost acts_base = all_activities(readings@.subrange(0, i as int));
        let mut k: usize = 0;
        while k < reading.gpu_activities.len()
            invariant
                k <= reading.gpu_activities@.len(),
                forall|server: Seq<char>, device: u32| #[trigger] activity_lookup(activities@, server, device)
                    == activity_last(acts_base + reading.gpu_activities@.subrange(0, k as int), server, device),
            decreases reading.gpu_activities@.len() - k,
        {
            let entry = &reading.gpu_activities[k];
            let ghost before = activities@;
            let ghost q = acts_base + reading.gpu_activities@.subrange(0, k + 1);
            assert(q.drop_last() =~= acts_base + reading.gpu_activities@.subrange(0, k as int));
            assert(q.last() == reading.gpu_activities@[k as int]);
            set_activity(&mut activities, entry.0.clone(), entry.1, entry.2);
            k = k + 1;
        }
        assert(reading.gpu_activities@.subrange(0, reading.gpu_activities@.len() as int)
            =~= reading.gpu_activities@);
        assert(all_activities(p) =~= acts_base + reading.gpu_activities@);
        i = i + 1;
    }
    assert(readings@.subrange(0, readings@.len() as int) =~= readings@);
    ObservationSnapshot { usages, servers, gpu_activities: activities }
}

} // verus!
