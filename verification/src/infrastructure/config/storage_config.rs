//! Where the reservations of each resource are stored.
use crate::text::{first_index, lemma_first_index, lemma_first_index_is, str_equal, strings_view};
use vstd::prelude::*;

verus! {

/// The storage backend and its settings.
#[derive(Debug)]
pub enum StorageBackend {
    /// Google Calendar: the calendar of each resource, by server or room name.
    GoogleCalendar { calendars: Vec<(String, String)> },
}

/// Storage settings, kept apart from the definition of what can be reserved.
#[derive(Debug)]
pub struct StorageConfig {
    pub backend: StorageBackend,
}

/// The resource names that have a calendar, in the order of the entries.
pub open spec fn calendar_keys(entries: Seq<(String, String)>) -> Seq<Seq<char>> {
    entries.map_values(|e: (String, String)| e.0@)
}

/// The names that have no calendar among the entries, in their order.
pub open spec fn names_without_calendar(
    names: Seq<Seq<char>>,
    entries: Seq<(String, String)>,
) -> Seq<Seq<char>> {
    names.filter(|n: Seq<char>| !calendar_keys(entries).contains(n))
}

/// The resource names of the entries that name no configured resource, in entry order.
pub open spec fn calendars_without_resource(
    entries: Seq<(String, String)>,
    names: Seq<Seq<char>>,
) -> Seq<Seq<char>> {
    calendar_keys(entries).filter(|k: Seq<char>| !names.contains(k))
}

/// The calendar of the resource with the name: that of the first entry with it.
pub open spec fn calendar_of(storage: StorageConfig, name: Seq<char>) -> Option<Seq<char>> {
    match first_index(calendar_keys(storage.entries()), name) {
        Some(i) => Some(storage.entries()[i].1@),
        None => None,
    }
}

impl StorageConfig {
    /// The calendar entries.
    pub open spec fn entries(&self) -> Seq<(String, String)> {
        match self.backend {
            StorageBackend::GoogleCalendar { calendars } => calendars@,
        }
    }

    /// The calendar entries of the Google Calendar backend.
    pub fn google_calendar_mappings(&self) -> (m: Option<&Vec<(String, String)>>)
        ensures
            m matches Some(v) && v@ == self.entries(),
    {
        match &self.backend {
            StorageBackend::GoogleCalendar { calendars } => Some(calendars),
        }
    }

    /// The calendar of the resource with the name: that of the first entry with it.
    pub fn calendar_id_for_resource(&self, resource_name: &str) -> (id: Option<&str>)
        ensures
            match first_index(calendar_keys(self.entries()), resource_name@) {
                Some(i) => id matches Some(s) && s@ == self.entries()[i].1@,
                None => id is None,
            },
    {
        match &self.backend {
            StorageBackend::GoogleCalendar { calendars } => {
                let ghost keys = calendar_keys(calendars@);
                assert(self.entries() == calendars@);
                let mut i: usize = 0;
                while i < calendars.len()
                    invariant
                        keys == calendar_keys(calendars@),
                        self.entries() == calendars@,
                        i <= calendars@.len(),
                        forall|j: int| 0 <= j < i ==> keys[j] != resource_name@,
                    decreases calendars@.len() - i,
                {
                    if str_equal(calendars[i].0.as_str(), resource_name) {
                        proof {
                            lemma_first_index_is(keys, resource_name@, i as int);
                        }
                        let id = calendars[i].1.as_str();
                        assert(id@ == calendars@[i as int].1@);
                        return Some(id);
                    }
                    i = i + 1;
                }
                proof {
                    lemma_first_index(keys, resource_name@);
                    if first_index(keys, resource_name@) is Some {
                        let k = first_index(keys, resource_name@)->0;
                        assert(keys[k] == resource_name@);
                    }
                }
                None
            },
        }
    }

    /// Whether some entry is for the resource with the name.
    fn has_calendar(&self, name: &str) -> (b: bool)
        ensures
            b == calendar_keys(self.entries()).contains(name@),
    {
        let found = self.calendar_id_for_resource(name);
        proof {
            let keys = calendar_keys(self.entries());
            lemma_first_index(keys, name@);
            if keys.contains(name@) {
                let j = choose|j: int| 0 <= j < keys.len() && keys[j] == name@;
                assert(keys[j] == name@);
            }
        }
        found.is_some()
    }

    /// Checks that every server and room has a calendar; the error lists those that have
    /// none, servers first, each list in its order.
    pub fn validate_resource_mappings(&self, server_names: &[String], room_names: &[String]) -> (r:
        Result<(), Vec<String>>)
        ensures
            ({
                let missing = names_without_calendar(
                    strings_view(server_names@) + strings_view(room_names@),
                    self.entries(),
                );
                match r {
                    Ok(()) => missing.len() == 0,
                    Err(m) => missing.len() > 0 && strings_view(m@) == missing,
                }
            }),
    {
        let ghost pred = |n: Seq<char>| !calendar_keys(self.entries()).contains(n);
        let mut missing: Vec<String> = Vec::new();
        let mut i: usize = 0;
        while i < server_names.len()
            invariant
                i <= server_names@.len(),
                pred == (|n: Seq<char>| !calendar_keys(self.entries()).contains(n)),
                strings_view(missing@) == strings_view(server_names@.subrange(0, i as int)).filter(
                    pred,
                ),
            decreases server_names@.len() - i,
        {
            let ghost before = strings_view(server_names@.subrange(0, i as int));
            let ghost before_missing = strings_view(missing@);
            assert(strings_view(server_names@.subrange(0, i + 1)) =~= before.push(
                server_names@[i as int]@,
            ));
            proof {
                before.lemma_filter_push(server_names@[i as int]@, pred);
            }
            if !self.has_calendar(server_names[i].as_str()) {
                missing.push(server_names[i].clone());
                assert(strings_view(missing@) =~= before_missing.push(server_names@[i as int]@));
            }
            i = i + 1;
        }
        assert(server_names@.subrange(0, server_names@.len() as int) =~= server_names@);
        let ghost servers_missing = strings_view(missing@);
        let mut k: usize = 0;
        while k < room_names.len()
            invariant
                k <= room_names@.len(),
                pred == (|n: Seq<char>| !calendar_keys(self.entries()).contains(n)),
                servers_missing == strings_view(server_names@).filter(pred),
                strings_view(missing@) == (strings_view(server_names@) + strings_view(
                    room_names@.subrange(0, k as int),
                )).filter(pred),
            decreases room_names@.len() - k,
        {
            let ghost before = strings_view(server_names@) + strings_view(
                room_names@.subrange(0, k as int),
            );
            let ghost before_missing = strings_view(missing@);
            assert(strings_view(server_names@) + strings_view(room_names@.subrange(0, k + 1))
                =~= before.push(room_names@[k as int]@));
            proof {
                before.lemma_filter_push(room_names@[k as int]@, pred);
            }
            if !self.has_calendar(room_names[k].as_str()) {
                missing.push(room_names[k].clone());
                assert(strings_view(missing@) =~= before_missing.push(room_names@[k as int]@));
            }
            k = k + 1;
        }
        assert(room_names@.subrange(0, room_names@.len() as int) =~= room_names@);
        if missing.len() == 0 {
            Ok(())
        } else {
            Err(missing)
        }
    }

    /// The names of the entries that are neither a server nor a room, in entry order.
    pub fn find_unmapped_calendars(&self, server_names: &[String], room_names: &[String]) -> (r:
        Vec<String>)
        ensures
            strings_view(r@) == calendars_without_resource(
                self.entries(),
                strings_view(server_names@) + strings_view(room_names@),
            ),
    {
        let ghost names = strings_view(server_names@) + strings_view(room_names@);
        let ghost pred = |k: Seq<char>| !names.contains(k);
        let entries = match &self.backend {
            StorageBackend::GoogleCalendar { calendars } => calendars,
        };
        let mut out: Vec<String> = Vec::new();
        let mut i: usize = 0;
        while i < entries.len()
            invariant
                entries@ == self.entries(),
                i <= entries@.len(),
                names == strings_view(server_names@) + strings_view(room_names@),
                pred == (|k: Seq<char>| !names.contains(k)),
                strings_view(out@) == calendar_keys(entries@.subrange(0, i as int)).filter(pred),
            decreases entries@.len() - i,
        {
            let key = &entries[i].0;
            let ghost before = calendar_keys(entries@.subrange(0, i as int));
            let ghost before_out = strings_view(out@);
            assert(calendar_keys(entries@.subrange(0, i + 1)) =~= before.push(key@));
            proof {
                before.lemma_filter_push(key@, pred);
            }
            let known = contains_name(server_names, key.as_str()) || contains_name(
                room_names,
                key.as_str(),
            );
            proof {
                let s = strings_view(server_names@);
                let t = strings_view(room_names@);
                if s.contains(key@) {
                    let j = choose|j: int| 0 <= j < s.len() && s[j] == key@;
                    assert(names[j] == key@);
                }
                if t.contains(key@) {
                    let j = choose|j: int| 0 <= j < t.len() && t[j] == key@;
                    assert(names[s.len() + j] == key@);
                }
                if names.contains(key@) {
                    let j = choose|j: int| 0 <= j < names.len() && names[j] == key@;
                    if j < s.len() {
                        assert(s[j] == key@);
                    } else {
                        assert(t[j - s.len()] == key@);
                    }
                }
            }
            if !known {
                out.push(key.clone());
                assert(strings_view(out@) =~= before_out.push(key@));
            }
            i = i + 1;
        }
        assert(entries@.subrange(0, entries@.len() as int) =~= entries@);
        out
    }
}

/// Whether the list holds the name.
pub fn contains_name(names: &[String], name: &str) -> (b: bool)
    ensures
        b == strings_view(names@).contains(name@),
{
    let ghost v = strings_view(names@);
    let mut i: usize = 0;
    while i < names.len()
        invariant
            v == strings_view(names@),
            i <= names@.len(),
            forall|j: int| 0 <= j < i ==> v[j] != name@,
        decreases names@.len() - i,
    {
        if str_equal(names[i].as_str(), name) {
            assert(v[i as int] == name@);
            return true;
        }
        i = i + 1;
    }
    false
}

} // verus!
