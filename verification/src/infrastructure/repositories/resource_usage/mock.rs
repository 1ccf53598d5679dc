//! An in-memory reservation store for tests.
use crate::assoc::StringMap;
use crate::domain::repository::{RepositoryError, RepositoryErrorView};
use crate::domain::resource::{periods_overlap, ResourceUsage, ResourceUsageView, TimePeriod};
use crate::infrastructure::repositories::resource_usage::google_calendar::repository::{
    find_by_owner as owned_by, find_overlapping as overlapping, usages_view,
};
use crate::text::owned;
use vstd::prelude::*;

verus! {

/// The model of an optional reservation.
pub open spec fn usage_opt_view(u: Option<ResourceUsage>) -> Option<ResourceUsageView> {
    match u {
        Some(x) => Some(x@),
        None => None,
    }
}

/// Reservations kept in memory by id.
pub struct MockUsageRepository {
    storage: StringMap<ResourceUsage>,
}

impl MockUsageRepository {
    /// No two reservations are kept under the same id.
    #[verifier::type_invariant]
    closed spec fn wf(&self) -> bool {
        self.storage.wf()
    }

    /// The reservation kept under the id, if any.
    pub closed spec fn stored(&self, id: Seq<char>) -> Option<ResourceUsageView> {
        usage_opt_view(self.storage.get_spec(id))
    }

    /// The kept reservations, in the order they were first saved.
    pub closed spec fn all(&self) -> Seq<ResourceUsageView> {
        self.storage.entries@.map_values(|e: (String, ResourceUsage)| e.1@)
    }

    /// An empty store.
    pub fn new() -> (r: MockUsageRepository)
        ensures
            forall|id: Seq<char>| #[trigger] r.stored(id) is None,
            r.all().len() == 0,
    {
        MockUsageRepository { storage: StringMap::new() }
    }

    /// The reservation with the id, if kept.
    pub fn find_by_id(&self, id: &str) -> (r: Option<ResourceUsage>)
        ensures
            usage_opt_view(r) == self.stored(id@),
    {
        match self.storage.get(id) {
            Some(u) => Some(u.duplicate()),
            None => None,
        }
    }

    /// Every kept reservation.
    pub fn find_future(&self) -> (r: Vec<ResourceUsage>)
        ensures
            usages_view(r@) == self.all(),
    {
        let entries = self.storage.entries.as_slice();
        let mut r: Vec<ResourceUsage> = Vec::new();
        let mut i: usize = 0;
        while i < entries.len()
            invariant
                entries@ == self.storage.entries@,
                i <= entries@.len(),
                usages_view(r@) == entries@.subrange(0, i as int).map_values(
                    |e: (String, ResourceUsage)| e.1@,
                ),
            decreases entries@.len() - i,
        {
            let ghost before = usages_view(r@);
            r.push(entries[i].1.duplicate());
            assert(usages_view(r@) =~= before.push(entries@[i as int].1@));
            assert(entries@.subrange(0, i + 1).map_values(|e: (String, ResourceUsage)| e.1@)
                =~= entries@.subrange(0, i as int).map_values(|e: (String, ResourceUsage)| e.1@).push(
                entries@[i as int].1@,
            ));
            i = i + 1;
        }
        assert(entries@.subrange(0, entries@.len() as int) =~= entries@);
        r
    }

    /// The kept reservations whose period overlaps the given one.
    pub fn find_overlapping(&self, time_period: &TimePeriod) -> (r: Vec<ResourceUsage>)
        ensures
            usages_view(r@) == self.all().filter(
                |u: ResourceUsageView| periods_overlap(u.time_period, *time_period),
            ),
    {
        let all = self.find_future();
        overlapping(all.as_slice(), time_period)
    }

    /// The kept reservations of the owner.
    pub fn find_by_owner(&self, owner_email: &str) -> (r: Vec<ResourceUsage>)
        ensures
            usages_view(r@) == self.all().filter(
                |u: ResourceUsageView| u.owner_email == owner_email@,
            ),
    {
        let all = self.find_future();
        owned_by(all.as_slice(), owner_email)
    }

    /// Keeps the reservation under its id, replacing the one kept there; gives its id.
    pub fn save(&mut self, usage: &ResourceUsage) -> (id: String)
        ensures
            id@ == usage@.id,
            final(self).stored(usage@.id) == Some(usage@),
            forall|other: Seq<char>| other != usage@.id ==> #[trigger] final(self).stored(other)
                == old(self).stored(other),
    {
        proof {
            use_type_invariant(&*self);
        }
        let mut m: StringMap<ResourceUsage> = StringMap::new();
        std::mem::swap(&mut m, &mut self.storage);
        m.insert(owned(usage.id()), usage.duplicate());
        self.storage = m;
        owned(usage.id())
    }

    /// Removes the reservation with the id; it is an error when none is kept.
    pub fn delete(&mut self, id: &str) -> (r: Result<(), RepositoryError>)
        ensures
            old(self).stored(id@) is Some ==> r is Ok,
            old(self).stored(id@) is None ==> (r matches Err(e) && e@ == RepositoryErrorView::NotFound),
            final(self).stored(id@) is None,
            forall|other: Seq<char>| other != id@ ==> #[trigger] final(self).stored(other)
                == old(self).stored(other),
    {
        proof {
            use_type_invariant(&*self);
        }
        let mut m: StringMap<ResourceUsage> = StringMap::new();
        std::mem::swap(&mut m, &mut self.storage);
        let removed = m.remove(id);
        self.storage = m;
        match removed {
            Some(_) => Ok(()),
            None => Err(RepositoryError::NotFound),
        }
    }
}

} // verus!
