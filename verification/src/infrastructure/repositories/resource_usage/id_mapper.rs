//! The mapping of reservation ids to the events of an outside calendar.
use crate::assoc::{lemma_lookup, lookup, keys_of, StringMap};
use crate::text::{first_index, lemma_first_index, owned, str_equal};
use vstd::prelude::*;

verus! {

/// Where a reservation lives outside: the kind of store, the event and its calendar.
#[derive(Debug)]
pub struct EventMapping {
    /// The kind of store ("google_calendar", "outlook", "notion", ...).
    pub infrastructure: String,
    /// The event id in that store.
    pub event_id: String,
    /// The calendar the event belongs to.
    pub calendar_id: String,
}

/// Model of an event mapping.
pub struct EventMappingView {
    pub infrastructure: Seq<char>,
    pub event_id: Seq<char>,
    pub calendar_id: Seq<char>,
}

impl View for EventMapping {
    type V = EventMappingView;

    open spec fn view(&self) -> EventMappingView {
        EventMappingView {
            infrastructure: self.infrastructure@,
            event_id: self.event_id@,
            calendar_id: self.calendar_id@,
        }
    }
}

impl EventMapping {
    /// A copy with the same model.
    pub fn duplicate(&self) -> (m: EventMapping)
        ensures
            m@ == self@,
    {
        EventMapping {
            infrastructure: self.infrastructure.clone(),
            event_id: self.event_id.clone(),
            calendar_id: self.calendar_id.clone(),
        }
    }
}

/// Keeps the mapping of reservation ids to outside events.
pub trait IdMapper {
    /// The mapping of a reservation id, if any.
    spec fn mapping_of(&self, domain_id: Seq<char>) -> Option<EventMappingView>;

    /// Maps the reservation to the event, replacing an earlier mapping of it.
    fn save_mapping(
        &mut self,
        domain_id: &str,
        infrastructure: &str,
        event_id: &str,
        calendar_id: &str,
    )
        ensures
            final(self).mapping_of(domain_id@) == Some(
                EventMappingView {
                    infrastructure: infrastructure@,
                    event_id: event_id@,
                    calendar_id: calendar_id@,
                },
            ),
            forall|d: Seq<char>| d != domain_id@ ==> #[trigger] final(self).mapping_of(d)
                == old(self).mapping_of(d),
    ;

    /// The mapping of the reservation, if any.
    fn get_event_id(&self, domain_id: &str) -> (r: Option<EventMapping>)
        ensures
            match self.mapping_of(domain_id@) {
                Some(m) => r matches Some(x) && x@ == m,
                None => r is None,
            },
    ;

    /// A reservation mapped to the event, if any.
    fn get_domain_id(&self, event_id: &str) -> (r: Option<String>)
        ensures
            match r {
                Some(d) => self.mapping_of(d@) matches Some(m) && m.event_id == event_id@,
                None => forall|d: Seq<char>| #[trigger] self.mapping_of(d) matches Some(m)
                    ==> m.event_id != event_id@,
            },
    ;

    /// Forgets the mapping of the reservation.
    fn delete_mapping(&mut self, domain_id: &str)
        ensures
            final(self).mapping_of(domain_id@) is None,
            forall|d: Seq<char>| d != domain_id@ ==> #[trigger] final(self).mapping_of(d)
                == old(self).mapping_of(d),
    ;
}

/// The model of an optional mapping.
pub open spec fn mapping_view(m: Option<EventMapping>) -> Option<EventMappingView> {
    match m {
        Some(x) => Some(x@),
        None => None,
    }
}

/// The value of the last entry with the key, if any.
pub open spec fn lookup_last<V>(e: Seq<(String, V)>, k: Seq<char>) -> Option<V>
    decreases e.len(),
{
    if e.len() == 0 {
        None
    } else if e.last().0@ == k {
        Some(e.last().1)
    } else {
        lookup_last(e.drop_last(), k)
    }
}

/// With distinct keys the last entry for a key is its only one: reading entries back by
/// their last occurrence gives what looking them up gives.
pub proof fn lemma_lookup_last_distinct<V>(e: Seq<(String, V)>, k: Seq<char>)
    requires
        keys_of(e).no_duplicates(),
    ensures
        lookup_last(e, k) == lookup(e, k),
    decreases e.len(),
{
    if e.len() > 0 {
        let d = e.drop_last();
        assert(keys_of(e).drop_last() =~= keys_of(d));
        assert(keys_of(d).no_duplicates()) by {
            assert forall|i: int, j: int| 0 <= i < keys_of(d).len() && 0 <= j < keys_of(d).len()
                && i != j implies keys_of(d)[i] != keys_of(d)[j] by {
                assert(keys_of(d)[i] == keys_of(e)[i]);
                assert(keys_of(d)[j] == keys_of(e)[j]);
            }
        }
        lemma_lookup(e, k);
        if e.last().0@ == k {
            assert(e[e.len() - 1] == e.last());
        } else {
            lemma_lookup_last_distinct(d, k);
            assert(keys_of(e).last() != k);
            assert(first_index(keys_of(e), k) == first_index(keys_of(d), k));
            if first_index(keys_of(d), k) is Some {
                let i = first_index(keys_of(d), k)->0;
                lemma_first_index(keys_of(d), k);
                assert(e[i] == d[i]);
            }
        }
    }
}

/// Event mappings kept in memory by reservation id, stored as a JSON file.
pub struct JsonFileIdMapper {
    file_path: String,
    mappings: StringMap<EventMapping>,
}

impl JsonFileIdMapper {
    /// No two mappings are for the same reservation.
    #[verifier::type_invariant]
    closed spec fn wf(&self) -> bool {
        self.mappings.wf()
    }

    /// The path of the file the mappings are stored in.
    pub closed spec fn path(&self) -> Seq<char> {
        self.file_path@
    }

    /// Where the mappings are stored.
    pub fn file_path(&self) -> (p: &str)
        ensures
            p@ == self.path(),
    {
        self.file_path.as_str()
    }

    /// A mapper stored at the path, holding the mappings read from it (a later mapping of a
    /// reservation replaces an earlier one).
    pub fn new(file_path: String, stored: &[(String, EventMapping)]) -> (m: JsonFileIdMapper)
        ensures
            m.path() == file_path@,
            forall|d: Seq<char>| #[trigger] m.mapping_of(d) == mapping_view(lookup_last(stored@, d)),
    {
        let mut mappings: StringMap<EventMapping> = StringMap::new();
        let mut i: usize = 0;
        while i < stored.len()
            invariant
                i <= stored@.len(),
                mappings.wf(),
                forall|d: Seq<char>| #[trigger] mapping_view(mappings.get_spec(d)) == mapping_view(
                    lookup_last(stored@.subrange(0, i as int), d),
                ),
            decreases stored@.len() - i,
        {
            let ghost before = mappings;
            mappings.insert(stored[i].0.clone(), stored[i].1.duplicate());
            proof {
                let p = stored@.subrange(0, i + 1);
                assert(p.drop_last() =~= stored@.subrange(0, i as int));
                assert(p.last() == stored@[i as int]);
                assert forall|d: Seq<char>| #[trigger] mapping_view(mappings.get_spec(d))
                    == mapping_view(lookup_last(p, d)) by {
                    if d != stored@[i as int].0@ {
                        assert(mappings.get_spec(d) == before.get_spec(d));
                    }
                }
            }
            i = i + 1;
        }
        assert(stored@.subrange(0, stored@.len() as int) =~= stored@);
        JsonFileIdMapper { file_path, mappings }
    }

    /// The mappings, for storing them.
    pub fn entries(&self) -> (e: &[(String, EventMapping)])
        ensures
            forall|d: Seq<char>| #[trigger] mapping_view(lookup(e@, d)) == self.mapping_of(d),
    {
        proof {
            use_type_invariant(self);
        }
        self.mappings.entries.as_slice()
    }
}

impl IdMapper for JsonFileIdMapper {
    closed spec fn mapping_of(&self, domain_id: Seq<char>) -> Option<EventMappingView> {
        mapping_view(self.mappings.get_spec(domain_id))
    }

    fn save_mapping(
        &mut self,
        domain_id: &str,
        infrastructure: &str,
        event_id: &str,
        calendar_id: &str,
    ) {
        proof {
            use_type_invariant(&*self);
        }
        let mut m: StringMap<EventMapping> = StringMap::new();
        std::mem::swap(&mut m, &mut self.mappings);
        m.insert(
            owned(domain_id),
            EventMapping {
                infrastructure: owned(infrastructure),
                event_id: owned(event_id),
                calendar_id: owned(calendar_id),
            },
        );
        self.mappings = m;
    }

    fn get_event_id(&self, domain_id: &str) -> (r: Option<EventMapping>) {
        match self.mappings.get(domain_id) {
            Some(m) => Some(m.duplicate()),
            None => None,
        }
    }

    fn get_domain_id(&self, event_id: &str) -> (r: Option<String>) {
        proof {
            use_type_invariant(self);
        }
        let entries = self.mappings.entries.as_slice();
        let mut i: usize = 0;
        while i < entries.len()
            invariant
                entries@ == self.mappings.entries@,
                keys_of(entries@).no_duplicates(),
                i <= entries@.len(),
                forall|j: int| 0 <= j < i ==> entries@[j].1.event_id@ != event_id@,
            decreases entries@.len() - i,
        {
            if str_equal(entries[i].1.event_id.as_str(), event_id) {
                proof {
                    lemma_lookup(entries@, entries@[i as int].0@);
                }
                return Some(entries[i].0.clone());
            }
            i = i + 1;
        }
        proof {
            assert forall|d: Seq<char>| #[trigger] self.mapping_of(d) is Some
                implies self.mapping_of(d)->0.event_id != event_id@ by {
                lemma_first_index(keys_of(entries@), d);
                let j = first_index(keys_of(entries@), d)->0;
                assert(entries@[j].1.event_id@ != event_id@);
            }
        }
        None
    }

    fn delete_mapping(&mut self, domain_id: &str) {
        proof {
            use_type_invariant(&*self);
        }
        let mut m: StringMap<EventMapping> = StringMap::new();
        std::mem::swap(&mut m, &mut self.mappings);
        m.remove(domain_id);
        self.mappings = m;
    }
}

} // verus!
