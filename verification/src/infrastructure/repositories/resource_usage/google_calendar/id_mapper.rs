//! The mapping of reservation ids to Google Calendar events, with its reverse.
use crate::assoc::StringMap;
use crate::infrastructure::repositories::resource_usage::id_mapper::lookup_last;
use vstd::prelude::*;

verus! {

/// A Google Calendar event: its calendar and its id there.
#[derive(Debug)]
pub struct ExternalId {
    pub calendar_id: String,
    pub event_id: String,
}

/// Model of a calendar event's place.
pub struct ExternalIdView {
    pub calendar_id: Seq<char>,
    pub event_id: Seq<char>,
}

impl View for ExternalId {
    type V = ExternalIdView;

    open spec fn view(&self) -> ExternalIdView {
        ExternalIdView { calendar_id: self.calendar_id@, event_id: self.event_id@ }
    }
}

impl ExternalId {
    /// A copy with the same model.
    pub fn duplicate(&self) -> (x: ExternalId)
        ensures
            x@ == self@,
    {
        ExternalId { calendar_id: self.calendar_id.clone(), event_id: self.event_id.clone() }
    }
}

/// The model of an optional event place.
pub open spec fn external_view(x: Option<ExternalId>) -> Option<ExternalIdView> {
    match x {
        Some(e) => Some(e@),
        None => None,
    }
}

/// The model of an optional string.
pub open spec fn id_view(x: Option<String>) -> Option<Seq<char>> {
    match x {
        Some(s) => Some(s@),
        None => None,
    }
}

/// Reservation ids mapped to calendar events, and event ids mapped back to reservations.
pub struct IdMapper {
    file_path: String,
    mappings: StringMap<ExternalId>,
    reverse_mappings: StringMap<String>,
}

impl IdMapper {
    /// Each event id mapped back leads to a reservation mapped to that event.
    #[verifier::type_invariant]
    closed spec fn consistent(&self) -> bool {
        &&& self.mappings.wf()
        &&& self.reverse_mappings.wf()
        &&& forall|e: Seq<char>| #[trigger]
            self.reverse_mappings.get_spec(e) is Some ==> (self.mappings.get_spec(
                self.reverse_mappings.get_spec(e)->0@,
            ) matches Some(x) && x.event_id@ == e)
    }

    /// The event a reservation is mapped to, if any.
    pub closed spec fn external_of(&self, domain_id: Seq<char>) -> Option<ExternalIdView> {
        external_view(self.mappings.get_spec(domain_id))
    }

    /// The reservation an event id is mapped back to, if any.
    pub closed spec fn domain_of(&self, event_id: Seq<char>) -> Option<Seq<char>> {
        id_view(self.reverse_mappings.get_spec(event_id))
    }

    /// The path of the file the mappings are stored in.
    pub closed spec fn path(&self) -> Seq<char> {
        self.file_path@
    }

    /// A mapper stored at the path with the mappings read from it (a later mapping of a
    /// reservation replaces an earlier one); each event is mapped back to a reservation
    /// mapped to it.
    pub fn new(file_path: String, stored: &[(String, ExternalId)]) -> (m: IdMapper)
        ensures
            m.path() == file_path@,
            forall|d: Seq<char>| #[trigger] m.external_of(d) == external_view(
                lookup_last(stored@, d),
            ),
    {
        let mut mappings: StringMap<ExternalId> = StringMap::new();
        let mut i: usize = 0;
        while i < stored.len()
            invariant
                i <= stored@.len(),
                mappings.wf(),
                forall|d: Seq<char>| #[trigger] external_view(mappings.get_spec(d)) == external_view(
                    lookup_last(stored@.subrange(0, i as int), d),
                ),
            decreases stored@.len() - i,
        {
            let ghost before = mappings;
            mappings.insert(stored[i].0.clone(), stored[i].1.duplicate());
            proof {
                let p = stored@.subrange(0, i + 1);
                assert(p.drop_last() =~= stored@.subrange(0, i as int));
                assert(p.last() == stored@[i as int]);
                assert forall|d: Seq<char>| #[trigger] external_view(mappings.get_spec(d))
                    == external_view(lookup_last(p, d)) by {
                    if d != stored@[i as int].0@ {
                        assert(mappings.get_spec(d) == before.get_spec(d));
                    }
                }
            }
            i = i + 1;
        }
        assert(stored@.subrange(0, stored@.len() as int) =~= stored@);
        let mut reverse_mappings: StringMap<String> = StringMap::new();
        let mut k: usize = 0;
        while k < mappings.entries.len()
            invariant
                k <= mappings.entries@.len(),
                mappings.wf(),
                reverse_mappings.wf(),
                forall|e: Seq<char>| #[trigger]
                    reverse_mappings.get_spec(e) is Some ==> (mappings.get_spec(
                        reverse_mappings.get_spec(e)->0@,
                    ) matches Some(x) && x.event_id@ == e),
            decreases mappings.entries@.len() - k,
        {
            let ghost before = reverse_mappings;
            let domain_id = mappings.entries[k].0.clone();
            let event_id = mappings.entries[k].1.event_id.clone();
            proof {
                crate::assoc::lemma_lookup(mappings.entries@, domain_id@);
            }
            reverse_mappings.insert(event_id, domain_id);
            k = k + 1;
        }
        IdMapper { file_path, mappings, reverse_mappings }
    }

    /// Where the mappings are stored.
    pub fn file_path(&self) -> (p: &str)
        ensures
            p@ == self.path(),
    {
        self.file_path.as_str()
    }

    /// The mappings, for storing them.
    pub fn entries(&self) -> (e: &[(String, ExternalId)])
        ensures
            forall|d: Seq<char>| #[trigger] external_view(crate::assoc::lookup(e@, d))
                == self.external_of(d),
    {
        self.mappings.entries.as_slice()
    }

    /// Maps the reservation to the event, replacing an earlier mapping of it and the way
    /// back from its earlier event.
    pub fn save_mapping(&mut self, domain_id: &str, external_id: ExternalId)
        ensures
            final(self).external_of(domain_id@) == Some(external_id@),
            final(self).domain_of(external_id.event_id@) == Some(domain_id@),
            forall|d: Seq<char>| d != domain_id@ ==> #[trigger] final(self).external_of(d)
                == old(self).external_of(d),
            final(self).path() == old(self).path(),
    {
        proof {
            use_type_invariant(&*self);
        }
        let mut m: StringMap<ExternalId> = StringMap::new();
        let mut r: StringMap<String> = StringMap::new();
        std::mem::swap(&mut r, &mut self.reverse_mappings);
        std::mem::swap(&mut m, &mut self.mappings);
        let ghost m0 = m;
        let ghost r0 = r;
        let ghost old_event: Option<Seq<char>> = match m.get_spec(domain_id@) {
            Some(x) => Some(x.event_id@),
            None => None,
        };
        match m.get(domain_id) {
            Some(old_external) => {
                let old_event_id = old_external.event_id.clone();
                r.remove(old_event_id.as_str());
            },
            None => {},
        }
        let ghost r1 = r;
        let event_id = external_id.event_id.clone();
        r.insert(event_id, crate::text::owned(domain_id));
        m.insert(crate::text::owned(domain_id), external_id);
        proof {
            assert forall|e: Seq<char>| #[trigger]
                r.get_spec(e) is Some implies (m.get_spec(r.get_spec(e)->0@) matches Some(x)
                && x.event_id@ == e) by {
                if e == external_id.event_id@ {
                } else {
                    assert(r.get_spec(e) == r1.get_spec(e));
                    if old_event is Some && e == old_event->0 {
                        assert(r1.get_spec(e) is None);
                    } else {
                        assert(r1.get_spec(e) == r0.get_spec(e));
                        let d2 = r0.get_spec(e)->0@;
                        assert(m0.get_spec(d2) matches Some(x) && x.event_id@ == e);
                        if d2 == domain_id@ {
                            assert(old_event == Some(e));
                        }
                        assert(m.get_spec(d2) == m0.get_spec(d2));
                    }
                }
            }
        }
        self.mappings = m;
        self.reverse_mappings = r;
    }

    /// The event the reservation is mapped to, if any.
    pub fn get_external_id(&self, domain_id: &str) -> (r: Option<ExternalId>)
        ensures
            external_view(r) == self.external_of(domain_id@),
    {
        match self.mappings.get(domain_id) {
            Some(x) => Some(x.duplicate()),
            None => None,
        }
    }

    /// The reservation the event id is mapped back to, if any.
    pub fn get_domain_id(&self, event_id: &str) -> (r: Option<String>)
        ensures
            id_view(r) == self.domain_of(event_id@),
            r matches Some(d) ==> (self.external_of(d@) matches Some(x) && x.event_id
                == event_id@),
    {
        proof {
            use_type_invariant(self);
        }
        match self.reverse_mappings.get(event_id) {
            Some(d) => Some(d.clone()),
            None => None,
        }
    }

    /// Forgets the mapping of the reservation and the way back from its event.
    pub fn delete_mapping(&mut self, domain_id: &str)
        ensures
            final(self).external_of(domain_id@) is None,
            old(self).external_of(domain_id@) matches Some(x) ==> (final(self).domain_of(
                x.event_id,
            ) is None),
            forall|d: Seq<char>| d != domain_id@ ==> #[trigger] final(self).external_of(d)
                == old(self).external_of(d),
            final(self).path() == old(self).path(),
    {
        proof {
            use_type_invariant(&*self);
        }
        let mut m: StringMap<ExternalId> = StringMap::new();
        let mut r: StringMap<String> = StringMap::new();
        std::mem::swap(&mut r, &mut self.reverse_mappings);
        std::mem::swap(&mut m, &mut self.mappings);
        let ghost m0 = m;
        let ghost r0 = r;
        let ghost old_event: Option<Seq<char>> = match m.get_spec(domain_id@) {
            Some(x) => Some(x.event_id@),
            None => None,
        };
        match m.get(domain_id) {
            Some(old_external) => {
                let old_event_id = old_external.event_id.clone();
                r.remove(old_event_id.as_str());
            },
            None => {},
        }
        m.remove(domain_id);
        proof {
            assert forall|e: Seq<char>| #[trigger]
                r.get_spec(e) is Some implies (m.get_spec(r.get_spec(e)->0@) matches Some(x)
                && x.event_id@ == e) by {
                if old_event is Some && e == old_event->0 {
                    assert(r.get_spec(e) is None);
                } else {
                    assert(r.get_spec(e) == r0.get_spec(e));
                    let d2 = r0.get_spec(e)->0@;
                    if d2 == domain_id@ {
                        assert(old_event == Some(e));
                    }
                    assert(m.get_spec(d2) == m0.get_spec(d2));
                }
            }
        }
        self.mappings = m;
        self.reverse_mappings = r;
    }
}

} // verus!
