//! Reservable resources, reservation periods and reservations.
use vstd::prelude::*;

verus! {

/// Mathematical model of a GPU device of a server.
pub struct GpuView {
    pub server: Seq<char>,
    pub device_number: u32,
    pub model: Seq<char>,
}

/// One GPU device of a server.
#[derive(Debug)]
pub struct Gpu {
    pub server: String,
    pub device_number: u32,
    pub model: String,
}

impl View for Gpu {
    type V = GpuView;

    open spec fn view(&self) -> GpuView {
        GpuView { server: self.server@, device_number: self.device_number, model: self.model@ }
    }
}

impl Gpu {
    /// A GPU from its server name, device number and model name.
    pub fn new(server: String, device_number: u32, model: String) -> (g: Gpu)
        ensures
            g@ == (GpuView { server: server@, device_number, model: model@ }),
    {
        Gpu { server, device_number, model }
    }

    /// The name of the server the device belongs to.
    pub fn server(&self) -> (s: &str)
        ensures
            s@ == self.server@,
    {
        self.server.as_str()
    }

    /// The device number within its server.
    pub fn device_number(&self) -> (n: u32)
        ensures
            n == self.device_number,
    {
        self.device_number
    }

    /// The model name of the device.
    pub fn model(&self) -> (s: &str)
        ensures
            s@ == self.model@,
    {
        self.model.as_str()
    }

    /// A copy with the same model.
    pub fn duplicate(&self) -> (g: Gpu)
        ensures
            g@ == self@,
    {
        Gpu {
            server: self.server.clone(),
            device_number: self.device_number,
            model: self.model.clone(),
        }
    }
}

/// Mathematical model of a resource.
pub enum ResourceView {
    Gpu(GpuView),
    Room { name: Seq<char> },
}

/// Something that can be reserved: a GPU or a room.
#[derive(Debug)]
pub enum Resource {
    Gpu(Gpu),
    Room { name: String },
}

impl View for Resource {
    type V = ResourceView;

    open spec fn view(&self) -> ResourceView {
        match self {
            Resource::Gpu(g) => ResourceView::Gpu(g@),
            Resource::Room { name } => ResourceView::Room { name: name@ },
        }
    }
}

impl Resource {
    /// A copy with the same model.
    pub fn duplicate(&self) -> (r: Resource)
        ensures
            r@ == self@,
    {
        match self {
            Resource::Gpu(g) => Resource::Gpu(g.duplicate()),
            Resource::Room { name } => Resource::Room { name: name.clone() },
        }
    }

    /// Whether the resource is a GPU.
    pub fn is_gpu(&self) -> (b: bool)
        ensures
            b == (self@ is Gpu),
    {
        match self {
            Resource::Gpu(_) => true,
            Resource::Room { .. } => false,
        }
    }
}

/// The models of a sequence of resources.
pub open spec fn resources_view(rs: Seq<Resource>) -> Seq<ResourceView> {
    rs.map_values(|r: Resource| r@)
}

/// Copies a list of resources.
pub fn duplicate_resources(rs: &[Resource]) -> (out: Vec<Resource>)
    ensures
        resources_view(out@) == resources_view(rs@),
{
    let mut out: Vec<Resource> = Vec::new();
    let mut i: usize = 0;
    while i < rs.len()
        invariant
            i <= rs@.len(),
            resources_view(out@) == resources_view(rs@.subrange(0, i as int)),
        decreases rs@.len() - i,
    {
        let ghost before = out@;
        out.push(rs[i].duplicate());
        proof {
            assert(rs@.subrange(0, i + 1) == rs@.subrange(0, i as int).push(rs@[i as int]));
            assert(resources_view(out@) =~= resources_view(before).push(rs@[i as int]@));
            assert(resources_view(rs@.subrange(0, i + 1)) =~= resources_view(
                rs@.subrange(0, i as int),
            ).push(rs@[i as int]@));
        }
        i = i + 1;
    }
    assert(rs@.subrange(0, rs@.len() as int) == rs@);
    out
}

/// A half-open period of time, as seconds since the Unix epoch (UTC).
#[derive(Debug, Clone, Copy, PartialEq, Eq, Structural)]
pub struct TimePeriod {
    pub start: i64,
    pub end: i64,
}

/// Whether two periods share an instant.
pub open spec fn periods_overlap(a: TimePeriod, b: TimePeriod) -> bool {
    a.start < b.end && b.start < a.end
}

impl TimePeriod {
    /// A period from its start and end; `None` unless the start comes before the end.
    pub fn new(start: i64, end: i64) -> (p: Option<TimePeriod>)
        ensures
            p is Some <==> start < end,
            p matches Some(q) ==> q.start == start && q.end == end,
    {
        if start < end {
            Some(TimePeriod { start, end })
        } else {
            None
        }
    }

    /// The first instant of the period.
    pub fn start(&self) -> (s: i64)
        ensures
            s == self.start,
    {
        self.start
    }

    /// The instant at which the period ends.
    pub fn end(&self) -> (e: i64)
        ensures
            e == self.end,
    {
        self.end
    }

    /// Whether the two periods share an instant.
    pub fn overlaps_with(&self, other: &TimePeriod) -> (b: bool)
        ensures
            b == periods_overlap(*self, *other),
    {
        self.start < other.end && other.start < self.end
    }
}

/// Overlap does not depend on the order of the two periods, and a period overlaps itself.
pub proof fn lemma_overlap_symmetric(a: TimePeriod, b: TimePeriod)
    requires
        a.start < a.end,
        b.start < b.end,
    ensures
        periods_overlap(a, b) == periods_overlap(b, a),
        periods_overlap(a, a),
{
}

/// Mathematical model of a reservation.
pub struct ResourceUsageView {
    pub id: Seq<char>,
    pub owner_email: Seq<char>,
    pub time_period: TimePeriod,
    pub resources: Seq<ResourceView>,
    pub notes: Option<Seq<char>>,
}

/// A reservation of resources for a period by its owner.
#[derive(Debug)]
pub struct ResourceUsage {
    pub id: String,
    pub owner_email: String,
    pub time_period: TimePeriod,
    pub resources: Vec<Resource>,
    pub notes: Option<String>,
}

/// The model of an optional string.
pub open spec fn opt_view(o: Option<String>) -> Option<Seq<char>> {
    match o {
        Some(s) => Some(s@),
        None => None,
    }
}

/// Copies an optional string.
pub fn duplicate_opt(o: &Option<String>) -> (r: Option<String>)
    ensures
        opt_view(r) == opt_view(*o),
{
    match o {
        Some(s) => Some(s.clone()),
        None => None,
    }
}

impl View for ResourceUsage {
    type V = ResourceUsageView;

    open spec fn view(&self) -> ResourceUsageView {
        ResourceUsageView {
            id: self.id@,
            owner_email: self.owner_email@,
            time_period: self.time_period,
            resources: resources_view(self.resources@),
            notes: opt_view(self.notes),
        }
    }
}

impl ResourceUsage {
    /// A reservation from its parts.
    pub fn reconstruct(
        id: String,
        owner_email: String,
        time_period: TimePeriod,
        resources: Vec<Resource>,
        notes: Option<String>,
    ) -> (u: ResourceUsage)
        ensures
            u.id@ == id@,
            u.owner_email@ == owner_email@,
            u.time_period == time_period,
            u.resources@ == resources@,
            opt_view(u.notes) == opt_view(notes),
    {
        ResourceUsage { id, owner_email, time_period, resources, notes }
    }

    /// The identifier of the reservation.
    pub fn id(&self) -> (s: &str)
        ensures
            s@ == self.id@,
    {
        self.id.as_str()
    }

    /// The email address of the owner.
    pub fn owner_email(&self) -> (s: &str)
        ensures
            s@ == self.owner_email@,
    {
        self.owner_email.as_str()
    }

    /// The reserved period.
    pub fn time_period(&self) -> (p: TimePeriod)
        ensures
            p == self.time_period,
    {
        self.time_period
    }

    /// The reserved resources.
    pub fn resources(&self) -> (rs: &[Resource])
        ensures
            rs@ == self.resources@,
    {
        self.resources.as_slice()
    }

    /// The notes of the reservation, if any.
    pub fn notes(&self) -> (n: Option<&str>)
        ensures
            match n {
                Some(s) => self.notes matches Some(t) && s@ == t@,
                None => self.notes is None,
            },
    {
        match &self.notes {
            Some(s) => Some(s.as_str()),
            None => None,
        }
    }

    /// A copy with the same model.
    pub fn duplicate(&self) -> (u: ResourceUsage)
        ensures
            u@ == self@,
    {
        ResourceUsage {
            id: self.id.clone(),
            owner_email: self.owner_email.clone(),
            time_period: self.time_period,
            resources: duplicate_resources(self.resources.as_slice()),
            notes: duplicate_opt(&self.notes),
        }
    }
}

} // verus!
