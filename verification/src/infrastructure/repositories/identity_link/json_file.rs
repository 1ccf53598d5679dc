//! Identity links kept by email address and stored as a JSON file.
use crate::assoc::{lookup, StringMap};
use crate::domain::identity::{
    lemma_system_name_round_trip, records_view, system_name, system_named, ExternalIdentity,
    ExternalIdentityBindingRecord, ExternalIdentityView, ExternalSystem, IdentityLink,
    IdentityLinkView, Instant,
};
use crate::text::str_equal;
use vstd::prelude::*;

verus! {

/// A stored identity: the system's stored name, the user id and the link time.
#[derive(Debug)]
pub struct ExternalIdentityDto {
    pub system: String,
    pub user_id: String,
    pub linked_at: Instant,
}

/// A stored identity link.
#[derive(Debug)]
pub struct IdentityLinkDto {
    pub email: String,
    pub external_identities: Vec<ExternalIdentityDto>,
    pub created_at: Instant,
    pub updated_at: Instant,
}

/// Model of a stored identity: system name, user id and link time.
pub open spec fn dto_identity_view(d: ExternalIdentityDto) -> (Seq<char>, Seq<char>, Instant) {
    (d.system@, d.user_id@, d.linked_at)
}

/// The identities of a stored link that this version knows, in order.
pub open spec fn known_identities(ds: Seq<ExternalIdentityDto>) -> Seq<
    (ExternalIdentityView, Instant),
>
    decreases ds.len(),
{
    if ds.len() == 0 {
        Seq::empty()
    } else {
        let rest = known_identities(ds.drop_last());
        match system_named(ds.last().system@) {
            Some(s) => rest.push(
                (ExternalIdentityView { system: s, user_id: ds.last().user_id@ }, ds.last().linked_at),
            ),
            None => rest,
        }
    }
}

/// The link a stored link is read as: the identities of systems this version does not know
/// are left out.
pub open spec fn dto_entity(d: IdentityLinkDto) -> IdentityLinkView {
    IdentityLinkView {
        email: d.email@,
        identities: known_identities(d.external_identities@),
        created_at: d.created_at,
        updated_at: d.updated_at,
    }
}

impl IdentityLinkDto {
    /// The stored form of a link: each identity's system by its stored name.
    pub fn from_entity(entity: &IdentityLink) -> (d: IdentityLinkDto)
        ensures
            d.email@ == entity.email@,
            d.created_at == entity.created_at,
            d.updated_at == entity.updated_at,
            d.external_identities@.map_values(|x: ExternalIdentityDto| dto_identity_view(x))
                == records_view(entity.records@).map_values(
                |r: (ExternalIdentityView, Instant)| (system_name(r.0.system), r.0.user_id, r.1),
            ),
            dto_entity(d) == entity@,
    {
        let records = entity.binding_records();
        let ghost want = records_view(entity.records@).map_values(
            |r: (ExternalIdentityView, Instant)| (system_name(r.0.system), r.0.user_id, r.1),
        );
        let mut out: Vec<ExternalIdentityDto> = Vec::new();
        let mut i: usize = 0;
        while i < records.len()
            invariant
                records@ == entity.records@,
                want == records_view(entity.records@).map_values(
                    |r: (ExternalIdentityView, Instant)| (system_name(r.0.system), r.0.user_id, r.1),
                ),
                i <= records@.len(),
                out@.map_values(|x: ExternalIdentityDto| dto_identity_view(x)) == want.subrange(
                    0,
                    i as int,
                ),
            decreases records@.len() - i,
        {
            let ghost before = out@.map_values(|x: ExternalIdentityDto| dto_identity_view(x));
            out.push(
                ExternalIdentityDto {
                    system: records[i].identity.system.as_str(),
                    user_id: records[i].identity.user_id.clone(),
                    linked_at: records[i].linked_at,
                },
            );
            assert(out@.map_values(|x: ExternalIdentityDto| dto_identity_view(x)) =~= before.push(
                want[i as int],
            ));
            assert(want.subrange(0, i + 1) =~= want.subrange(0, i as int).push(want[i as int]));
            i = i + 1;
        }
        assert(want.subrange(0, want.len() as int) =~= want);
        proof {
            lemma_known_identities_round_trip(out@, records_view(entity.records@));
        }
        IdentityLinkDto {
            email: entity.email.clone(),
            external_identities: out,
            created_at: entity.created_at,
            updated_at: entity.updated_at,
        }
    }

    /// The link this stored link is read as.
    pub fn to_entity(&self) -> (l: IdentityLink)
        ensures
            l@ == dto_entity(*self),
    {
        let ds = self.external_identities.as_slice();
        let mut records: Vec<ExternalIdentityBindingRecord> = Vec::new();
        let mut i: usize = 0;
        while i < ds.len()
            invariant
                ds@ == self.external_identities@,
                i <= ds@.len(),
                records_view(records@) == known_identities(ds@.subrange(0, i as int)),
            decreases ds@.len() - i,
        {
            let ghost p = ds@.subrange(0, i + 1);
            assert(p.drop_last() =~= ds@.subrange(0, i as int));
            assert(p.last() == ds@[i as int]);
            match ExternalSystem::from_name(ds[i].system.as_str()) {
                Some(system) => {
                    let ghost before = records_view(records@);
                    let record = ExternalIdentityBindingRecord::reconstitute(
                        ExternalIdentity::new(system, ds[i].user_id.clone()),
                        ds[i].linked_at,
                    );
                    records.push(record);
                    assert(records_view(records@) =~= before.push(
                        (
                            ExternalIdentityView {
                                system: system_named(ds@[i as int].system@)->0,
                                user_id: ds@[i as int].user_id@,
                            },
                            ds@[i as int].linked_at,
                        ),
                    ));
                },
                None => {},
            }
            i = i + 1;
        }
        assert(ds@.subrange(0, ds@.len() as int) =~= ds@);
        IdentityLink::reconstitute(self.email.clone(), records, self.created_at, self.updated_at)
    }

    /// A copy of the stored link.
    pub fn duplicate(&self) -> (d: IdentityLinkDto)
        ensures
            d.email@ == self.email@,
            d.created_at == self.created_at,
            d.updated_at == self.updated_at,
            d.external_identities@.map_values(|x: ExternalIdentityDto| dto_identity_view(x))
                == self.external_identities@.map_values(|x: ExternalIdentityDto| dto_identity_view(x)),
    {
        let ds = self.external_identities.as_slice();
        let mut out: Vec<ExternalIdentityDto> = Vec::new();
        let mut i: usize = 0;
        while i < ds.len()
            invariant
                ds@ == self.external_identities@,
                i <= ds@.len(),
                out@.map_values(|x: ExternalIdentityDto| dto_identity_view(x)) == ds@.subrange(
                    0,
                    i as int,
                ).map_values(|x: ExternalIdentityDto| dto_identity_view(x)),
            decreases ds@.len() - i,
        {
            let ghost before = out@.map_values(|x: ExternalIdentityDto| dto_identity_view(x));
            out.push(
                ExternalIdentityDto {
                    system: ds[i].system.clone(),
                    user_id: ds[i].user_id.clone(),
                    linked_at: ds[i].linked_at,
                },
            );
            assert(out@.map_values(|x: ExternalIdentityDto| dto_identity_view(x)) =~= before.push(
                dto_identity_view(ds@[i as int]),
            ));
            assert(ds@.subrange(0, i + 1).map_values(|x: ExternalIdentityDto| dto_identity_view(x))
                =~= ds@.subrange(0, i as int).map_values(
                |x: ExternalIdentityDto| dto_identity_view(x),
            ).push(dto_identity_view(ds@[i as int])));
            i = i + 1;
        }
        assert(ds@.subrange(0, ds@.len() as int) =~= ds@);
        IdentityLinkDto {
            email: self.email.clone(),
            external_identities: out,
            created_at: self.created_at,
            updated_at: self.updated_at,
        }
    }
}

/// Stored identities written from identities read back as those identities.
pub proof fn lemma_known_identities_round_trip(
    ds: Seq<ExternalIdentityDto>,
    rs: Seq<(ExternalIdentityView, Instant)>,
)
    requires
        ds.map_values(|x: ExternalIdentityDto| dto_identity_view(x)) == rs.map_values(
            |r: (ExternalIdentityView, Instant)| (system_name(r.0.system), r.0.user_id, r.1),
        ),
    ensures
        known_identities(ds) == rs,
    decreases ds.len(),
{
    let f = |r: (ExternalIdentityView, Instant)| (system_name(r.0.system), r.0.user_id, r.1);
    assert(ds.len() == ds.map_values(|x: ExternalIdentityDto| dto_identity_view(x)).len());
    assert(rs.len() == rs.map_values(f).len());
    if ds.len() > 0 {
        let n = ds.len() - 1;
        assert(ds.drop_last().map_values(|x: ExternalIdentityDto| dto_identity_view(x))
            =~= ds.map_values(|x: ExternalIdentityDto| dto_identity_view(x)).drop_last());
        assert(rs.drop_last().map_values(f) =~= rs.map_values(f).drop_last());
        lemma_known_identities_round_trip(ds.drop_last(), rs.drop_last());
        assert(ds.map_values(|x: ExternalIdentityDto| dto_identity_view(x))[n] == rs.map_values(f)[n]);
        assert(dto_identity_view(ds[n]) == f(rs[n]));
        lemma_system_name_round_trip(rs[n].0.system);
        assert(rs =~= rs.drop_last().push(rs[n]));
    } else {
        assert(rs =~= Seq::<(ExternalIdentityView, Instant)>::empty());
    }
}

/// Whether two optional stored links are read as the same link (or both are missing).
pub open spec fn same_entity(a: Option<IdentityLinkDto>, b: Option<IdentityLinkDto>) -> bool {
    match (a, b) {
        (Some(d), Some(x)) => dto_entity(d) == dto_entity(x),
        (None, None) => true,
        _ => false,
    }
}

/// Whether a stored link holds the identity, by system name and user id.
pub open spec fn holds_identity(d: IdentityLinkDto, system: Seq<char>, user_id: Seq<char>) -> bool {
    exists|i: int|
        0 <= i < d.external_identities@.len() && (#[trigger] d.external_identities@[i]).system@
            == system && d.external_identities@[i].user_id@ == user_id
}

/// Identity links kept by email address, stored as a JSON file.
pub struct JsonFileIdentityLinkRepository {
    file_path: String,
    cache: StringMap<IdentityLinkDto>,
}

impl JsonFileIdentityLinkRepository {
    /// No two links are kept for the same email.
    #[verifier::type_invariant]
    closed spec fn wf(&self) -> bool {
        self.cache.wf()
    }

    /// The stored link of the email, if any.
    pub closed spec fn stored(&self, email: Seq<char>) -> Option<IdentityLinkDto> {
        self.cache.get_spec(email)
    }

    /// The stored links, in order.
    pub closed spec fn all_stored(&self) -> Seq<(String, IdentityLinkDto)> {
        self.cache.entries@
    }

    /// The path of the file the links are stored in.
    pub closed spec fn path(&self) -> Seq<char> {
        self.file_path@
    }

    /// A store at the path, with nothing read yet.
    pub fn new(file_path: String) -> (r: JsonFileIdentityLinkRepository)
        ensures
            r.path() == file_path@,
            forall|e: Seq<char>| #[trigger] r.stored(e) is None,
    {
        JsonFileIdentityLinkRepository { file_path, cache: StringMap::new() }
    }

    /// Where the links are stored.
    pub fn file_path(&self) -> (p: &str)
        ensures
            p@ == self.path(),
    {
        self.file_path.as_str()
    }

    /// Whether nothing is kept, so the file is still to be read.
    pub fn needs_loading(&self) -> (b: bool)
        ensures
            b == (self.all_stored().len() == 0),
    {
        self.cache.len() == 0
    }

    /// Takes the links read from the file, a later link of an email replacing an earlier one.
    pub fn load(&mut self, stored: &[(String, IdentityLinkDto)])
        ensures
            final(self).path() == old(self).path(),
            forall|e: Seq<char>| #![trigger final(self).stored(e)] same_entity(final(self).stored(e), crate::infrastructure::repositories::resource_usage::id_mapper::lookup_last(stored@, e)),
    {
        let mut m: StringMap<IdentityLinkDto> = StringMap::new();
        let mut i: usize = 0;
        while i < stored.len()
            invariant
                i <= stored@.len(),
                m.wf(),
                forall|e: Seq<char>| #![trigger m.get_spec(e)] same_entity(m.get_spec(e), crate::infrastructure::repositories::resource_usage::id_mapper::lookup_last(stored@.subrange(0, i as int), e)),
            decreases stored@.len() - i,
        {
            let ghost before = m;
            let copy = stored[i].1.duplicate();
            proof {
                let ds = copy.external_identities@;
                let os = stored@[i as int].1.external_identities@;
                assert(ds.len() == ds.map_values(|x: ExternalIdentityDto| dto_identity_view(x)).len());
                assert(os.len() == os.map_values(|x: ExternalIdentityDto| dto_identity_view(x)).len());
                assert forall|k: int| 0 <= k < ds.len() implies #[trigger] ds[k].system@ == os[k].system@ && ds[k].user_id@ == os[k].user_id@ && ds[k].linked_at == os[k].linked_at by {
                    assert(ds.map_values(|x: ExternalIdentityDto| dto_identity_view(x))[k] == os.map_values(|x: ExternalIdentityDto| dto_identity_view(x))[k]);
                }
                lemma_known_identities_congruent(ds, os);
            }
            m.insert(stored[i].0.clone(), copy);
            proof {
                let p = stored@.subrange(0, i + 1);
                assert(p.drop_last() =~= stored@.subrange(0, i as int));
                assert(p.last() == stored@[i as int]);
                assert forall|e: Seq<char>| #![trigger m.get_spec(e)] same_entity(m.get_spec(e), crate::infrastructure::repositories::resource_usage::id_mapper::lookup_last(p, e)) by {
                    if e != stored@[i as int].0@ {
                        assert(m.get_spec(e) == before.get_spec(e));
                    }
                }
            }
            i = i + 1;
        }
        assert(stored@.subrange(0, stored@.len() as int) =~= stored@);
        self.cache = m;
    }

    /// The stored links, for storing them.
    pub fn entries(&self) -> (e: &[(String, IdentityLinkDto)])
        ensures
            e@ == self.all_stored(),
            forall|k: Seq<char>| #[trigger] lookup(e@, k) == self.stored(k),
    {
        self.cache.entries.as_slice()
    }

    /// The link of the email, if one is kept.
    pub fn find_by_email(&self, email: &str) -> (r: Option<IdentityLink>)
        ensures
            match self.stored(email@) {
                Some(d) => r matches Some(l) && l@ == dto_entity(d),
                None => r is None,
            },
    {
        match self.cache.get(email) {
            Some(d) => Some(d.to_entity()),
            None => None,
        }
    }

    /// A kept link holding the identity (the system by its stored name and the user id).
    pub fn find_by_external_user_id(&self, system: &ExternalSystem, user_id: &str) -> (r: Option<
        IdentityLink,
    >)
        ensures
            match r {
                Some(l) => exists|k: int|
                    0 <= k < self.all_stored().len() && holds_identity(
                        #[trigger] self.all_stored()[k].1,
                        system_name(system@),
                        user_id@,
                    ) && l@ == dto_entity(self.all_stored()[k].1),
                None => forall|k: int|
                    0 <= k < self.all_stored().len() ==> !holds_identity(
                        #[trigger] self.all_stored()[k].1,
                        system_name(system@),
                        user_id@,
                    ),
            },
    {
        let name = system.as_str();
        let entries = self.cache.entries.as_slice();
        let mut i: usize = 0;
        while i < entries.len()
            invariant
                entries@ == self.all_stored(),
                name@ == system_name(system@),
                i <= entries@.len(),
                forall|k: int|
                    0 <= k < i ==> !holds_identity(#[trigger] entries@[k].1, name@, user_id@),
            decreases entries@.len() - i,
        {
            let ds = entries[i].1.external_identities.as_slice();
            let mut j: usize = 0;
            while j < ds.len()
                invariant
                    i < entries@.len(),
                    entries@ == self.all_stored(),
                    name@ == system_name(system@),
                    ds@ == entries@[i as int].1.external_identities@,
                    j <= ds@.len(),
                    forall|q: int|
                        0 <= q < j ==> !((#[trigger] ds@[q]).system@ == name@ && ds@[q].user_id@
                            == user_id@),
                decreases ds@.len() - j,
            {
                if str_equal(ds[j].system.as_str(), name.as_str()) && str_equal(
                    ds[j].user_id.as_str(),
                    user_id,
                ) {
                    assert(entries@[i as int].1.external_identities@[j as int] == ds@[j as int]);
                    assert(holds_identity(entries@[i as int].1, name@, user_id@));
                    assert(self.all_stored()[i as int].1 == entries@[i as int].1);
                    return Some(entries[i].1.to_entity());
                }
                j = j + 1;
            }
            i = i + 1;
        }
        None
    }

    /// Keeps the link under its email, replacing the one kept there.
    pub fn save(&mut self, identity: &IdentityLink)
        ensures
            final(self).stored(identity.email@) matches Some(d) && dto_entity(d) == identity@,
            forall|e: Seq<char>| e != identity.email@ ==> #[trigger] final(self).stored(e)
                == old(self).stored(e),
            final(self).path() == old(self).path(),
    {
        proof {
            use_type_invariant(&*self);
        }
        let dto = IdentityLinkDto::from_entity(identity);
        proof {
            lemma_known_identities_round_trip(
                dto.external_identities@,
                records_view(identity.records@),
            );
        }
        let mut m: StringMap<IdentityLinkDto> = StringMap::new();
        std::mem::swap(&mut m, &mut self.cache);
        m.insert(identity.email.clone(), dto);
        self.cache = m;
    }
}

/// Stored identities with the same contents are read the same way.
proof fn lemma_known_identities_congruent(ds: Seq<ExternalIdentityDto>, os: Seq<ExternalIdentityDto>)
    requires
        ds.len() == os.len(),
        forall|k: int| 0 <= k < ds.len() ==> #[trigger] ds[k].system@ == os[k].system@ && ds[k].user_id@
            == os[k].user_id@ && ds[k].linked_at == os[k].linked_at,
    ensures
        known_identities(ds) == known_identities(os),
    decreases ds.len(),
{
    if ds.len() > 0 {
        assert forall|k: int| 0 <= k < ds.drop_last().len() implies #[trigger] ds.drop_last()[k].system@
            == os.drop_last()[k].system@ && ds.drop_last()[k].user_id@ == os.drop_last()[k].user_id@
            && ds.drop_last()[k].linked_at == os.drop_last()[k].linked_at by {
            assert(ds.drop_last()[k] == ds[k]);
            assert(os.drop_last()[k] == os[k]);
        }
        lemma_known_identities_congruent(ds.drop_last(), os.drop_last());
        assert(ds[ds.len() - 1].system@ == os[os.len() - 1].system@);
    }
}

} // verus!
