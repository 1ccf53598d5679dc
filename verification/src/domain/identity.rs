//! Links between a member's email address and their identities in other systems.
use crate::text::{chars_of, owned, push_str, str_equal, string_from_chars};
use vstd::prelude::*;

verus! {

/// Model of an outside system.
pub enum ExternalSystemView {
    Slack,
    Os { server: Seq<char> },
}

/// A system in which a member has an identity of their own.
#[derive(Debug)]
pub enum ExternalSystem {
    /// Slack.
    Slack,
    /// The operating system accounts of one server.
    Os { server: String },
}

impl View for ExternalSystem {
    type V = ExternalSystemView;

    open spec fn view(&self) -> ExternalSystemView {
        match self {
            ExternalSystem::Slack => ExternalSystemView::Slack,
            ExternalSystem::Os { server } => ExternalSystemView::Os { server: server@ },
        }
    }
}

/// The name under which a system is stored: "slack", or "os:" and the server name.
pub open spec fn system_name(s: ExternalSystemView) -> Seq<char> {
    match s {
        ExternalSystemView::Slack => "slack"@,
        ExternalSystemView::Os { server } => "os:"@ + server,
    }
}

/// The system a stored name names, if it is one this version knows.
pub open spec fn system_named(name: Seq<char>) -> Option<ExternalSystemView> {
    if name == "slack"@ {
        Some(ExternalSystemView::Slack)
    } else if name.len() >= 3 && name.subrange(0, 3) == "os:"@ {
        Some(ExternalSystemView::Os { server: name.subrange(3, name.len() as int) })
    } else {
        None
    }
}

impl ExternalSystem {
    /// The name under which the system is stored.
    pub fn as_str(&self) -> (s: String)
        ensures
            s@ == system_name(self@),
    {
        match self {
            ExternalSystem::Slack => owned("slack"),
            ExternalSystem::Os { server } => {
                let mut s = owned("os:");
                push_str(&mut s, server.as_str());
                s
            },
        }
    }

    /// The system a stored name names; `None` for a system this version does not know.
    pub fn from_name(name: &str) -> (r: Option<ExternalSystem>)
        ensures
            match system_named(name@) {
                Some(v) => r matches Some(s) && s@ == v,
                None => r is None,
            },
    {
        if str_equal(name, "slack") {
            return Some(ExternalSystem::Slack);
        }
        let v = chars_of(name);
        proof {
            reveal_strlit("os:");
        }
        if v.len() >= 3 && v[0] == 'o' && v[1] == 's' && v[2] == ':' {
            assert(v@.subrange(0, 3) =~= "os:"@);
            let mut rest: Vec<char> = Vec::new();
            let mut i: usize = 3;
            while i < v.len()
                invariant
                    3 <= i <= v@.len(),
                    rest@ == v@.subrange(3, i as int),
                decreases v@.len() - i,
            {
                rest.push(v[i]);
                assert(v@.subrange(3, i + 1) =~= v@.subrange(3, i as int).push(v@[i as int]));
                i = i + 1;
            }
            return Some(ExternalSystem::Os { server: string_from_chars(rest.as_slice()) });
        }
        proof {
            if name@.len() >= 3 && name@.subrange(0, 3) == "os:"@ {
                assert(name@[0] == name@.subrange(0, 3)[0]);
                assert(name@[1] == name@.subrange(0, 3)[1]);
                assert(name@[2] == name@.subrange(0, 3)[2]);
            }
        }
        None
    }

    /// Whether two systems are the same.
    pub fn same_as(&self, other: &ExternalSystem) -> (b: bool)
        ensures
            b == (self@ == other@),
    {
        match (self, other) {
            (ExternalSystem::Slack, ExternalSystem::Slack) => true,
            (ExternalSystem::Os { server: a }, ExternalSystem::Os { server: b }) => str_equal(
                a.as_str(),
                b.as_str(),
            ),
            _ => false,
        }
    }

    /// A copy of the system.
    pub fn duplicate(&self) -> (s: ExternalSystem)
        ensures
            s@ == self@,
    {
        match self {
            ExternalSystem::Slack => ExternalSystem::Slack,
            ExternalSystem::Os { server } => ExternalSystem::Os { server: server.clone() },
        }
    }
}

/// A stored system name is read back as the system that was stored.
pub proof fn lemma_system_name_round_trip(s: ExternalSystemView)
    ensures
        system_named(system_name(s)) == Some(s),
{
    reveal_strlit("slack");
    reveal_strlit("os:");
    match s {
        ExternalSystemView::Slack => {},
        ExternalSystemView::Os { server } => {
            let n = system_name(s);
            assert(n.subrange(0, 3) =~= "os:"@);
            assert(n.subrange(3, n.len() as int) =~= server);
            assert(n != "slack"@) by {
                assert(n[0] == 'o');
                assert("slack"@[0] == 's');
            }
        },
    }
}

/// A name that is read as a system is the name that system is stored under.
pub proof fn lemma_system_named_round_trip(name: Seq<char>)
    requires
        system_named(name) is Some,
    ensures
        system_name(system_named(name)->0) == name,
{
    reveal_strlit("os:");
    if name != "slack"@ {
        assert(name =~= "os:"@ + name.subrange(3, name.len() as int));
    }
}

/// Model of an identity in an outside system.
pub struct ExternalIdentityView {
    pub system: ExternalSystemView,
    pub user_id: Seq<char>,
}

/// A member's identity in an outside system.
#[derive(Debug)]
pub struct ExternalIdentity {
    pub system: ExternalSystem,
    pub user_id: String,
}

impl View for ExternalIdentity {
    type V = ExternalIdentityView;

    open spec fn view(&self) -> ExternalIdentityView {
        ExternalIdentityView { system: self.system@, user_id: self.user_id@ }
    }
}

impl ExternalIdentity {
    /// An identity from its system and user id.
    pub fn new(system: ExternalSystem, user_id: String) -> (i: ExternalIdentity)
        ensures
            i@ == (ExternalIdentityView { system: system@, user_id: user_id@ }),
    {
        ExternalIdentity { system, user_id }
    }

    /// The system of the identity.
    pub fn system(&self) -> (s: &ExternalSystem)
        ensures
            s@ == self.system@,
    {
        &self.system
    }

    /// A copy of the identity.
    pub fn duplicate(&self) -> (i: ExternalIdentity)
        ensures
            i@ == self@,
    {
        ExternalIdentity { system: self.system.duplicate(), user_id: self.user_id.clone() }
    }

    /// The user id within the system.
    pub fn user_id(&self) -> (s: &str)
        ensures
            s@ == self.user_id@,
    {
        self.user_id.as_str()
    }
}

/// An instant: seconds since the Unix epoch and nanoseconds within the second.
#[derive(Debug, Clone, Copy, PartialEq, Eq, Structural)]
pub struct Instant {
    pub seconds: i64,
    pub nanos: u32,
}

/// An identity with the time it was linked.
#[derive(Debug)]
pub struct ExternalIdentityBindingRecord {
    pub identity: ExternalIdentity,
    pub linked_at: Instant,
}

impl ExternalIdentityBindingRecord {
    /// A record from its identity and link time.
    pub fn reconstitute(identity: ExternalIdentity, linked_at: Instant) -> (r:
        ExternalIdentityBindingRecord)
        ensures
            r.identity@ == identity@,
            r.linked_at == linked_at,
    {
        ExternalIdentityBindingRecord { identity, linked_at }
    }
}

/// The identities of the records, in order.
pub open spec fn record_identities(rs: Seq<ExternalIdentityBindingRecord>) -> Seq<
    ExternalIdentityView,
> {
    rs.map_values(|r: ExternalIdentityBindingRecord| r.identity@)
}

/// The position of the first identity in the system, if any.
pub open spec fn first_in_system(ids: Seq<ExternalIdentityView>, s: ExternalSystemView) -> Option<
    int,
>
    decreases ids.len(),
{
    if ids.len() == 0 {
        None
    } else {
        match first_in_system(ids.drop_last(), s) {
            Some(i) => Some(i),
            None => if ids.last().system == s {
                Some(ids.len() - 1)
            } else {
                None
            },
        }
    }
}

/// Model of an identity link: email, identities with their link times, creation and update
/// times.
pub struct IdentityLinkView {
    pub email: Seq<char>,
    pub identities: Seq<(ExternalIdentityView, Instant)>,
    pub created_at: Instant,
    pub updated_at: Instant,
}

/// The identities of the records with their link times, in order.
pub open spec fn records_view(rs: Seq<ExternalIdentityBindingRecord>) -> Seq<
    (ExternalIdentityView, Instant),
> {
    rs.map_values(|r: ExternalIdentityBindingRecord| (r.identity@, r.linked_at))
}

impl View for IdentityLink {
    type V = IdentityLinkView;

    open spec fn view(&self) -> IdentityLinkView {
        IdentityLinkView {
            email: self.email@,
            identities: records_view(self.records@),
            created_at: self.created_at,
            updated_at: self.updated_at,
        }
    }
}

/// A member's email address and the identities linked to it.
#[derive(Debug)]
pub struct IdentityLink {
    pub email: String,
    pub records: Vec<ExternalIdentityBindingRecord>,
    pub created_at: Instant,
    pub updated_at: Instant,
}

impl IdentityLink {
    /// A link from its stored parts.
    pub fn reconstitute(
        email: String,
        records: Vec<ExternalIdentityBindingRecord>,
        created_at: Instant,
        updated_at: Instant,
    ) -> (l: IdentityLink)
        ensures
            l.email@ == email@,
            l.records@ == records@,
            l.created_at == created_at,
            l.updated_at == updated_at,
    {
        IdentityLink { email, records, created_at, updated_at }
    }

    /// The email address of the member.
    pub fn email(&self) -> (s: &str)
        ensures
            s@ == self.email@,
    {
        self.email.as_str()
    }

    /// The records of the linked identities.
    pub fn binding_records(&self) -> (rs: &[ExternalIdentityBindingRecord])
        ensures
            rs@ == self.records@,
    {
        self.records.as_slice()
    }

    /// The first identity linked in the system, if any.
    pub fn get_identity_for_system(&self, system: &ExternalSystem) -> (r: Option<&ExternalIdentity>)
        ensures
            match first_in_system(record_identities(self.records@), system@) {
                Some(i) => r matches Some(x) && x@ == self.records@[i].identity@,
                None => r is None,
            },
    {
        let ghost ids = record_identities(self.records@);
        let mut i: usize = 0;
        while i < self.records.len()
            invariant
                ids == record_identities(self.records@),
                i <= self.records@.len(),
                first_in_system(ids.subrange(0, i as int), system@) is None,
            decreases self.records@.len() - i,
        {
            let ghost p = ids.subrange(0, i + 1);
            assert(p.drop_last() =~= ids.subrange(0, i as int));
            if self.records[i].identity.system.same_as(system) {
                proof {
                    lemma_first_in_system_extends(ids, i as int, system@);
                }
                return Some(&self.records[i].identity);
            }
            i = i + 1;
        }
        assert(ids.subrange(0, i as int) =~= ids);
        None
    }

    /// Whether an identity in the system is linked.
    pub fn has_identity_for_system(&self, system: &ExternalSystem) -> (b: bool)
        ensures
            b == (first_in_system(record_identities(self.records@), system@) is Some),
    {
        self.get_identity_for_system(system).is_some()
    }
}

/// A match found in a prefix is the first match of the whole.
proof fn lemma_first_in_system_extends(ids: Seq<ExternalIdentityView>, i: int, s: ExternalSystemView)
    requires
        0 <= i < ids.len(),
        first_in_system(ids.subrange(0, i + 1), s) == Some(i),
    ensures
        first_in_system(ids, s) == Some(i),
    decreases ids.len(),
{
    if ids.len() == i + 1 {
        assert(ids.subrange(0, i + 1) =~= ids);
    } else {
        let t = ids.drop_last();
        assert(t.subrange(0, i + 1) =~= ids.subrange(0, i + 1));
        lemma_first_in_system_extends(t, i, s);
    }
}

} // verus!
