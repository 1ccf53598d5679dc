//! Reservations kept as Google Calendar events: what an event says about a reservation,
//! what a reservation's event says, and where it goes.
use crate::domain::identity::{
    first_in_system, record_identities, ExternalSystem, ExternalSystemView, IdentityLink,
};
use crate::domain::repository::{RepositoryError, RepositoryErrorView};
use crate::domain::resource::{resources_view, Resource, ResourceUsage, ResourceView};
use crate::infrastructure::config::resource_config::{
    first_room_named, first_server_named, room_name_list, server_names, ResourceConfig,
};
use crate::infrastructure::config::storage_config::{calendar_of, StorageConfig};
use crate::infrastructure::repositories::resource_usage::google_calendar::gpu_spec::{
    create_gpus_from_spec, device_model, gpus_from_spec, lemma_known_devices,
    lemma_title_round_trip, title_numbers,
};
use crate::infrastructure::repositories::resource_usage::google_calendar::id_mapper::{ExternalId, IdMapper};
use crate::domain::resource::{duplicate_opt, opt_view, periods_overlap, GpuView, TimePeriod, ResourceUsageView};
use crate::text::{split, str_equal};
use crate::infrastructure::notifier::formatter::{format_number_list, insert_number_sorted, lemma_sort_numbers, lemma_sorted_unchanged, nondecreasing, number_list, sort_numbers};
use crate::parse::trim_chars;
use crate::text::{
    chars_of, holds_text, join, lemma_no_occurrence_across, lemma_no_occurrence_after_prefix,
    occurs_at, occurs_in, owned, push_char, push_str, split_once, split_once_chars,
    string_from_chars, trim,
};
use vstd::prelude::*;

verus! {

/// The prefix of the owner's line in an event's description.
pub const OWNER_LINE_PREFIX: &'static str = "予約者: ";

/// The line that opens the part of a description the application manages.
pub const MANAGED_SECTION_BEGIN: &'static str = "[lab-resource-manager:managed-section:begin]";

/// The line that closes the managed part; what follows it is the reservation's notes.
pub const MANAGED_SECTION_END: &'static str = "[lab-resource-manager:managed-section:end]";

/// The prefix of the owner's OS user name line.
pub const OS_USER_LINE_PREFIX: &'static str = "OS: ";

/// The prefix of the reservation id line.
pub const RESERVATION_ID_LINE_PREFIX: &'static str = "予約ID: ";

/// The status of a cancelled event.
pub const EVENT_STATUS_CANCELLED: &'static str = "cancelled";

/// The text without its hyphens.
pub open spec fn without_hyphens(s: Seq<char>) -> Seq<char> {
    s.filter(|c: char| c != '-')
}

/// The calendar event id of a reservation: its id without hyphens (event ids allow only
/// base32hex characters), so that each can be found from the other.
pub fn event_id_for(usage_id: &str) -> (r: String)
    ensures
        r@ == without_hyphens(usage_id@),
{
    let v = chars_of(usage_id);
    let ghost pred = |c: char| c != '-';
    let mut r = String::new();
    let mut i: usize = 0;
    while i < v.len()
        invariant
            v@ == usage_id@,
            pred == (|c: char| c != '-'),
            i <= v@.len(),
            r@ == v@.subrange(0, i as int).filter(pred),
        decreases v@.len() - i,
    {
        let ghost before = v@.subrange(0, i as int);
        assert(v@.subrange(0, i + 1) =~= before.push(v@[i as int]));
        proof {
            before.lemma_filter_push(v@[i as int], pred);
        }
        if v[i] != '-' {
            push_char(&mut r, v[i]);
        }
        i = i + 1;
    }
    assert(v@.subrange(0, v@.len() as int) =~= v@);
    r
}

/// What the logic reads of a calendar event.
#[derive(Debug)]
pub struct CalendarEvent {
    pub id: Option<String>,
    pub status: Option<String>,
    /// The email address of whoever created the event.
    pub creator_email: Option<String>,
    /// The title.
    pub summary: Option<String>,
    pub description: Option<String>,
    /// The start, in seconds since the Unix epoch, when it has a date and time.
    pub start: Option<i64>,
    /// The end, in seconds since the Unix epoch, when it has a date and time.
    pub end: Option<i64>,
}

/// Whether the event stands: a cancelled occurrence of a repeating event is no reservation.
pub fn is_active_event(event: &CalendarEvent) -> (b: bool)
    ensures
        b == !(event.status matches Some(s) && s@ == EVENT_STATUS_CANCELLED@),
{
    match &event.status {
        Some(s) => !crate::text::str_equal(s.as_str(), EVENT_STATUS_CANCELLED),
        None => true,
    }
}

/// The text of a description that holds the notes, before trimming: the text around the
/// managed part (both sides, joined by an empty line when both have text); for an older
/// description that starts with the owner's line, all after that line; otherwise all of it.
pub open spec fn notes_body(d: Seq<char>) -> Seq<char> {
    match split_once(d, MANAGED_SECTION_BEGIN@) {
        Some((before, after_begin)) => match split_once(after_begin, MANAGED_SECTION_END@) {
            Some((_, after_end)) => {
                let b = trim(before);
                let a = trim(after_end);
                if b.len() == 0 {
                    a
                } else if a.len() == 0 {
                    b
                } else {
                    b + "\n\n"@ + a
                }
            },
            None => d,
        },
        None => if occurs_at(d, 0, OWNER_LINE_PREFIX@) {
            match split_once(d, "\n"@) {
                Some((_, rest)) => rest,
                None => Seq::empty(),
            }
        } else {
            d
        },
    }
}

/// The notes of a description: its notes text trimmed, none when that is empty.
pub open spec fn notes_of(d: Seq<char>) -> Option<Seq<char>> {
    let t = trim(notes_body(d));
    if t.len() == 0 {
        None
    } else {
        Some(t)
    }
}

/// The notes of an event's description, outside the part the application manages.
pub fn extract_notes(description: &str) -> (r: Option<String>)
    ensures
        match notes_of(description@) {
            Some(n) => r matches Some(s) && s@ == n,
            None => r is None,
        },
{
    let d = chars_of(description);
    let begin = chars_of(MANAGED_SECTION_BEGIN);
    let end = chars_of(MANAGED_SECTION_END);
    let body: Vec<char> = match split_once_chars(d.as_slice(), begin.as_slice()) {
        Some((before_begin, after_begin)) => match split_once_chars(
            after_begin.as_slice(),
            end.as_slice(),
        ) {
            Some((_, after_end)) => {
                let before = trim_chars(before_begin.as_slice());
                let after = trim_chars(after_end.as_slice());
                if before.len() == 0 {
                    after
                } else if after.len() == 0 {
                    before
                } else {
                    let mut joined = before;
                    joined.push('\n');
                    joined.push('\n');
                    let mut k: usize = 0;
                    let ghost base = joined@;
                    while k < after.len()
                        invariant
                            k <= after@.len(),
                            joined@ == base + after@.subrange(0, k as int),
                        decreases after@.len() - k,
                    {
                        joined.push(after[k]);
                        assert(after@.subrange(0, k + 1) =~= after@.subrange(0, k as int).push(
                            after@[k as int],
                        ));
                        k = k + 1;
                    }
                    proof {
                        reveal_strlit("\n\n");
                        assert(after@.subrange(0, after@.len() as int) =~= after@);
                        assert("\n\n"@ =~= seq!['\n', '\n']);
                        assert(joined@ =~= before@ + "\n\n"@ + after@);
                    }
                    joined
                }
            },
            None => d,
        },
        None => {
            let owner = chars_of(OWNER_LINE_PREFIX);
            if occurs_in(d.as_slice(), 0, owner.as_slice()) {
                let newline = chars_of("\n");
                match split_once_chars(d.as_slice(), newline.as_slice()) {
                    Some((_, rest)) => rest,
                    None => Vec::new(),
                }
            } else {
                d
            }
        },
    };
    assert(body@ == notes_body(description@));
    let t = trim_chars(body.as_slice());
    if t.len() == 0 {
        None
    } else {
        Some(string_from_chars(t.as_slice()))
    }
}

/// The lines of the managed part of a description: the opening line, the owner, the OS user
/// name when known, the reservation id, the closing line.
pub open spec fn description_lines(
    email: Seq<char>,
    os_user: Option<Seq<char>>,
    id: Seq<char>,
) -> Seq<Seq<char>> {
    let head = seq![MANAGED_SECTION_BEGIN@, OWNER_LINE_PREFIX@ + email];
    let middle = match os_user {
        Some(u) => head.push(OS_USER_LINE_PREFIX@ + u),
        None => head,
    };
    middle.push(RESERVATION_ID_LINE_PREFIX@ + id).push(MANAGED_SECTION_END@)
}

/// An event's description: the managed lines, then the notes after an empty line.
pub open spec fn description_text(
    email: Seq<char>,
    os_user: Option<Seq<char>>,
    id: Seq<char>,
    notes: Option<Seq<char>>,
) -> Seq<char> {
    join(description_lines(email, os_user, id), "\n"@) + match notes {
        Some(n) => "\n\n"@ + n,
        None => Seq::empty(),
    }
}

/// The description of a reservation's event. The owner's OS user name on the reserved
/// server is given when it is known.
pub fn build_description(usage: &ResourceUsage, os_user: Option<&str>) -> (d: String)
    ensures
        d@ == description_text(
            usage@.owner_email,
            match os_user {
                Some(u) => Some(u@),
                None => None,
            },
            usage@.id,
            usage@.notes,
        ),
{
    let mut lines: Vec<String> = Vec::new();
    lines.push(owned(MANAGED_SECTION_BEGIN));
    let mut owner = owned(OWNER_LINE_PREFIX);
    push_str(&mut owner, usage.owner_email());
    lines.push(owner);
    match os_user {
        Some(u) => {
            let mut line = owned(OS_USER_LINE_PREFIX);
            push_str(&mut line, u);
            lines.push(line);
        },
        None => {},
    }
    let mut id_line = owned(RESERVATION_ID_LINE_PREFIX);
    push_str(&mut id_line, usage.id());
    lines.push(id_line);
    lines.push(owned(MANAGED_SECTION_END));
    let mut d = crate::text::join_strings(lines.as_slice(), "\n");
    assert(crate::text::strings_view(lines@) =~= description_lines(
        usage@.owner_email,
        match os_user {
            Some(u) => Some(u@),
            None => None,
        },
        usage@.id,
    ));
    match usage.notes() {
        Some(n) => {
            push_str(&mut d, "\n\n");
            push_str(&mut d, n);
        },
        None => {},
    }
    d
}

/// The device numbers of the GPUs, in order.
pub open spec fn gpu_numbers(rs: Seq<ResourceView>) -> Seq<u32>
    decreases rs.len(),
{
    if rs.len() == 0 {
        Seq::empty()
    } else {
        match rs.last() {
            ResourceView::Gpu(g) => gpu_numbers(rs.drop_last()).push(g.device_number),
            ResourceView::Room { .. } => gpu_numbers(rs.drop_last()),
        }
    }
}

/// The title of a GPU reservation's event: its device numbers in increasing order, comma
/// separated; none without GPUs.
pub open spec fn gpu_spec_text(rs: Seq<ResourceView>) -> Option<Seq<char>> {
    if gpu_numbers(rs).len() == 0 {
        None
    } else {
        Some(number_list(sort_numbers(gpu_numbers(rs))))
    }
}

/// The title of a GPU reservation's event, such as "0,1,5,7".
pub fn format_gpu_spec(resources: &[Resource]) -> (s: Option<String>)
    ensures
        match gpu_spec_text(resources_view(resources@)) {
            Some(t) => s matches Some(x) && x@ == t,
            None => s is None,
        },
{
    let mut sorted: Vec<u32> = Vec::new();
    let mut any: bool = false;
    let mut i: usize = 0;
    while i < resources.len()
        invariant
            i <= resources@.len(),
            sorted@ == sort_numbers(gpu_numbers(resources_view(resources@.subrange(0, i as int)))),
            any == (gpu_numbers(resources_view(resources@.subrange(0, i as int))).len() > 0),
        decreases resources@.len() - i,
    {
        let ghost p = resources_view(resources@.subrange(0, i + 1));
        assert(p.drop_last() =~= resources_view(resources@.subrange(0, i as int)));
        assert(p.last() == resources@[i as int]@);
        match &resources[i] {
            Resource::Gpu(g) => {
                let ghost q = gpu_numbers(p);
                assert(q.drop_last() =~= gpu_numbers(p.drop_last()));
                assert(q.last() == g.device_number);
                insert_number_sorted(&mut sorted, g.device_number);
                any = true;
            },
            Resource::Room { .. } => {},
        }
        i = i + 1;
    }
    assert(resources@.subrange(0, resources@.len() as int) =~= resources@);
    if !any {
        None
    } else {
        Some(format_number_list(sorted.as_slice()))
    }
}

/// The calendars of the named resources that have one, as (calendar, resource name) pairs.
pub open spec fn named_calendars(names: Seq<Seq<char>>, storage: StorageConfig) -> Seq<
    (Seq<char>, Seq<char>),
>
    decreases names.len(),
{
    if names.len() == 0 {
        Seq::empty()
    } else {
        let rest = named_calendars(names.drop_last(), storage);
        match calendar_of(storage, names.last()) {
            Some(c) => rest.push((c, names.last())),
            None => rest,
        }
    }
}

/// The resource whose calendar comes first with the id in the list, if any.
pub open spec fn resource_of_calendar(list: Seq<(Seq<char>, Seq<char>)>, calendar_id: Seq<char>) -> Option<
    Seq<char>,
>
    decreases list.len(),
{
    if list.len() == 0 {
        None
    } else {
        match resource_of_calendar(list.drop_last(), calendar_id) {
            Some(n) => Some(n),
            None => if list.last().0 == calendar_id {
                Some(list.last().1)
            } else {
                None
            },
        }
    }
}

/// The model of a list of (calendar, resource) pairs.
pub open spec fn pairs_view(v: Seq<(String, String)>) -> Seq<(Seq<char>, Seq<char>)> {
    v.map_values(|p: (String, String)| (p.0@, p.1@))
}

/// Whether the resources all live in one calendar: GPUs of one server, or one room.
pub open spec fn one_calendar(rs: Seq<ResourceView>) -> bool {
    match rs[0] {
        ResourceView::Gpu(g0) => forall|i: int|
            0 <= i < rs.len() ==> (#[trigger] rs[i] matches ResourceView::Gpu(g) && g.server
                == g0.server),
        ResourceView::Room { name: n0 } => forall|i: int|
            0 <= i < rs.len() ==> (#[trigger] rs[i] matches ResourceView::Room { name } && name
                == n0),
    }
}

/// The message for resources that do not share a calendar.
pub open spec fn mixed_resources_message() -> Seq<char> {
    "複数の異なるリソースタイプまたは異なるカレンダーに属するリソースが混在しています"@
}

/// The error carrying a message.
pub open spec fn unknown(m: Seq<char>) -> RepositoryErrorView {
    RepositoryErrorView::Unknown(m)
}

/// Keeps reservations as Google Calendar events: one calendar per server or room.
pub struct GoogleCalendarUsageRepository {
    pub config: ResourceConfig,
    pub storage: StorageConfig,
    /// The account the application creates events with.
    pub service_account_email: String,
    pub id_mapper: IdMapper,
    /// The events whose failure to read as a reservation was already reported.
    pub reported_parse_failures: Vec<String>,
}

impl GoogleCalendarUsageRepository {
    /// A repository over the resource and storage settings, the service account and the
    /// id mappings; no failure has been reported yet.
    pub fn new(
        config: ResourceConfig,
        storage: StorageConfig,
        service_account_email: String,
        id_mapper: IdMapper,
    ) -> (r: GoogleCalendarUsageRepository)
        ensures
            r.config == config,
            r.storage == storage,
            r.service_account_email@ == service_account_email@,
            r.id_mapper == id_mapper,
            r.reported_parse_failures@.len() == 0,
    {
        GoogleCalendarUsageRepository {
            config,
            storage,
            service_account_email,
            id_mapper,
            reported_parse_failures: Vec::new(),
        }
    }

    /// The calendars to read, as (calendar, resource name): the servers', then the rooms'.
    pub open spec fn calendar_list(&self) -> Seq<(Seq<char>, Seq<char>)> {
        named_calendars(
            server_names(self.config.servers@) + room_name_list(self.config.rooms@),
            self.storage,
        )
    }

    /// The calendars to read, as (calendar, resource name): the servers', then the rooms'.
    pub fn calendars(&self) -> (c: Vec<(String, String)>)
        ensures
            pairs_view(c@) == self.calendar_list(),
    {
        let servers = crate::infrastructure::config::resource_config::server_name_strings(
            self.config.servers.as_slice(),
        );
        let rooms = crate::infrastructure::config::resource_config::room_name_strings(
            self.config.rooms.as_slice(),
        );
        let ghost names = crate::text::strings_view(servers@) + crate::text::strings_view(rooms@);
        let mut all: Vec<String> = servers;
        let mut k: usize = 0;
        let ghost base = all@;
        while k < rooms.len()
            invariant
                k <= rooms@.len(),
                crate::text::strings_view(all@) == crate::text::strings_view(base) + crate::text::strings_view(
                    rooms@.subrange(0, k as int),
                ),
            decreases rooms@.len() - k,
        {
            let ghost before_all = all@;
            all.push(rooms[k].clone());
            assert(crate::text::strings_view(all@) =~= crate::text::strings_view(before_all).push(
                rooms@[k as int]@,
            ));
            assert(crate::text::strings_view(rooms@.subrange(0, k + 1)) =~= crate::text::strings_view(
                rooms@.subrange(0, k as int),
            ).push(rooms@[k as int]@));
            assert(crate::text::strings_view(all@) =~= crate::text::strings_view(base)
                + crate::text::strings_view(rooms@.subrange(0, k + 1)));
            k = k + 1;
        }
        assert(rooms@.subrange(0, rooms@.len() as int) =~= rooms@);
        let mut out: Vec<(String, String)> = Vec::new();
        let mut i: usize = 0;
        while i < all.len()
            invariant
                i <= all@.len(),
                crate::text::strings_view(all@) == server_names(self.config.servers@)
                    + room_name_list(self.config.rooms@),
                pairs_view(out@) == named_calendars(
                    crate::text::strings_view(all@).subrange(0, i as int),
                    self.storage,
                ),
            decreases all@.len() - i,
        {
            let ghost p = crate::text::strings_view(all@).subrange(0, i + 1);
            assert(p.drop_last() =~= crate::text::strings_view(all@).subrange(0, i as int));
            assert(p.last() == all@[i as int]@);
            match self.storage.calendar_id_for_resource(all[i].as_str()) {
                Some(c) => {
                    let ghost before = pairs_view(out@);
                    out.push((owned(c), all[i].clone()));
                    assert(pairs_view(out@) =~= before.push((c@, all@[i as int]@)));
                },
                None => {},
            }
            i = i + 1;
        }
        assert(crate::text::strings_view(all@).subrange(0, all@.len() as int)
            =~= crate::text::strings_view(all@));
        out
    }

    /// The server or room whose calendar has the id (servers first).
    pub fn get_resource_context(&self, calendar_id: &str) -> (r: Result<String, RepositoryError>)
        ensures
            match resource_of_calendar(self.calendar_list(), calendar_id@) {
                Some(n) => r matches Ok(s) && s@ == n,
                None => r matches Err(e) && e@ == unknown(
                    "カレンダーIDに対応するリソースが見つかりません: "@ + calendar_id@,
                ),
            },
    {
        let list = self.calendars();
        let mut i: usize = 0;
        while i < list.len()
            invariant
                pairs_view(list@) == self.calendar_list(),
                i <= list@.len(),
                resource_of_calendar(pairs_view(list@).subrange(0, i as int), calendar_id@) is None,
            decreases list@.len() - i,
        {
            let ghost p = pairs_view(list@).subrange(0, i + 1);
            assert(p.drop_last() =~= pairs_view(list@).subrange(0, i as int));
            if crate::text::str_equal(list[i].0.as_str(), calendar_id) {
                proof {
                    lemma_resource_of_calendar_extends(pairs_view(list@), i as int, calendar_id@);
                }
                return Ok(list[i].1.clone());
            }
            i = i + 1;
        }
        assert(pairs_view(list@).subrange(0, list@.len() as int) =~= pairs_view(list@));
        let mut m = owned("カレンダーIDに対応するリソースが見つかりません: ");
        push_str(&mut m, calendar_id);
        Err(RepositoryError::Unknown(m))
    }
}

/// A match found in a prefix is the first match of the whole.
proof fn lemma_resource_of_calendar_extends(
    list: Seq<(Seq<char>, Seq<char>)>,
    i: int,
    calendar_id: Seq<char>,
)
    requires
        0 <= i < list.len(),
        resource_of_calendar(list.subrange(0, i + 1), calendar_id) == Some(list[i].1),
    ensures
        resource_of_calendar(list, calendar_id) == Some(list[i].1),
    decreases list.len(),
{
    if list.len() == i + 1 {
        assert(list.subrange(0, i + 1) =~= list);
    } else {
        let t = list.drop_last();
        assert(t.subrange(0, i + 1) =~= list.subrange(0, i + 1));
        lemma_resource_of_calendar_extends(t, i, calendar_id);
    }
}

/// Every GPU-first list of resources names at least one GPU number.
proof fn lemma_gpu_numbers_nonempty(rs: Seq<ResourceView>)
    requires
        rs.len() > 0,
        rs[0] is Gpu,
    ensures
        gpu_numbers(rs).len() > 0,
    decreases rs.len(),
{
    if rs.len() > 1 {
        assert(rs.drop_last()[0] == rs[0]);
        lemma_gpu_numbers_nonempty(rs.drop_last());
    }
}

/// A line of a description without a trailing carriage return (`str::lines`).
pub open spec fn line_text(l: Seq<char>) -> Seq<char> {
    if l.len() > 0 && l.last() == '\r' {
        l.drop_last()
    } else {
        l
    }
}

/// The owner named by the first line that starts with the owner prefix, if any.
pub open spec fn owner_in_lines(lines: Seq<Seq<char>>) -> Option<Seq<char>>
    decreases lines.len(),
{
    if lines.len() == 0 {
        None
    } else {
        match owner_in_lines(lines.drop_last()) {
            Some(o) => Some(o),
            None => {
                let l = line_text(lines.last());
                if occurs_at(l, 0, OWNER_LINE_PREFIX@) {
                    Some(l.subrange(OWNER_LINE_PREFIX@.len() as int, l.len() as int))
                } else {
                    None
                }
            },
        }
    }
}

/// The owner a description names on its owner line, if any.
pub open spec fn owner_in_description(d: Seq<char>) -> Option<Seq<char>> {
    owner_in_lines(split(d, '\n'))
}

/// The title written for a reservation's GPUs reads back as their device numbers in
/// increasing order.
pub proof fn lemma_gpu_title_round_trip(rs: Seq<ResourceView>)
    requires
        gpu_spec_text(rs) is Some,
    ensures
        title_numbers(gpu_spec_text(rs)->0) == Some(sort_numbers(gpu_numbers(rs))),
{
    lemma_sort_numbers(gpu_numbers(rs));
    lemma_title_round_trip(sort_numbers(gpu_numbers(rs)));
}

/// Splitting text that has a separator in the middle splits each side apart.
proof fn lemma_split_around(x: Seq<char>, y: Seq<char>, sep: char)
    ensures
        split(x.push(sep) + y, sep) == split(x, sep) + split(y, sep),
    decreases y.len(),
{
    crate::text::lemma_split_len(y, sep);
    if y.len() == 0 {
        assert(x.push(sep) + y =~= x.push(sep));
        assert(x.push(sep).drop_last() =~= x);
        assert(split(y, sep) == seq![Seq::<char>::empty()]);
        assert(split(x, sep).push(Seq::empty()) =~= split(x, sep) + seq![Seq::<char>::empty()]);
    } else {
        let y2 = y.drop_last();
        let c = y.last();
        lemma_split_around(x, y2, sep);
        crate::text::lemma_split_len(y2, sep);
        let s = x.push(sep) + y;
        assert(s.drop_last() =~= x.push(sep) + y2);
        assert(s.last() == c);
        assert(y.drop_last() =~= y2);
        let rest = split(x, sep) + split(y2, sep);
        if c == sep {
            assert(split(s, sep) == rest.push(Seq::empty()));
            assert(split(y, sep) == split(y2, sep).push(Seq::empty()));
            assert(rest.push(Seq::empty()) =~= split(x, sep) + split(y2, sep).push(Seq::empty()));
        } else {
            let py = split(y2, sep);
            assert(split(s, sep) == rest.update(rest.len() - 1, rest.last().push(c)));
            assert(split(y, sep) == py.update(py.len() - 1, py.last().push(c)));
            assert(rest.last() == py.last());
            assert(rest.update(rest.len() - 1, rest.last().push(c)) =~= split(x, sep) + py.update(
                py.len() - 1,
                py.last().push(c),
            ));
        }
    }
}

/// Text without the separator is a single piece.
proof fn lemma_split_single(x: Seq<char>, sep: char)
    requires
        !x.contains(sep),
    ensures
        split(x, sep) == seq![x],
{
    crate::text::lemma_split_join(seq![x], sep);
    assert(join(seq![x], seq![sep]) == x);
}

/// Once a line names the owner, later lines do not change who it is.
proof fn lemma_owner_in_lines_prefix(a: Seq<Seq<char>>, b: Seq<Seq<char>>)
    requires
        owner_in_lines(a) is Some,
    ensures
        owner_in_lines(a + b) == owner_in_lines(a),
    decreases b.len(),
{
    if b.len() == 0 {
        assert(a + b =~= a);
    } else {
        lemma_owner_in_lines_prefix(a, b.drop_last());
        assert((a + b).drop_last() =~= a + b.drop_last());
    }
}

/// A description: its opening line, a line break, the owner's line, a line break, then
/// the rest.
proof fn lemma_description_shape(
    email: Seq<char>,
    os_user: Option<Seq<char>>,
    id: Seq<char>,
    notes: Option<Seq<char>>,
) -> (r: Seq<char>)
    ensures
        description_text(email, os_user, id, notes) == MANAGED_SECTION_BEGIN@.push('\n') + ((
        OWNER_LINE_PREFIX@ + email).push('\n') + r),
{
    reveal_strlit("\n");
    let lines = description_lines(email, os_user, id);
    let tail_lines = lines.subrange(2, lines.len() as int);
    let notes_part = match notes {
        Some(n) => "\n\n"@ + n,
        None => Seq::<char>::empty(),
    };
    let r = join(tail_lines, "\n"@) + notes_part;
    assert("\n"@ =~= seq!['\n']);
    reveal_with_fuel(join, 6);
    if os_user is Some {
        assert(tail_lines =~= seq![lines[2], lines[3], lines[4]]);
    } else {
        assert(tail_lines =~= seq![lines[2], lines[3]]);
    }
    assert(description_text(email, os_user, id, notes) =~= MANAGED_SECTION_BEGIN@.push('\n') + ((
    OWNER_LINE_PREFIX@ + email).push('\n') + r));
    r
}

/// The opening line names no owner; the owner's line names the address.
proof fn lemma_first_lines_owner(email: Seq<char>)
    requires
        email.len() > 0 ==> email.last() != '\r',
    ensures
        owner_in_lines(seq![MANAGED_SECTION_BEGIN@, OWNER_LINE_PREFIX@ + email]) == Some(email),
{
    reveal_strlit("[lab-resource-manager:managed-section:begin]");
    reveal_strlit("予約者: ");
    let b = MANAGED_SECTION_BEGIN@;
    let o = OWNER_LINE_PREFIX@ + email;
    let first = seq![b, o];
    assert(first.drop_last() =~= seq![b]);
    assert(seq![b].drop_last() =~= Seq::<Seq<char>>::empty());
    assert(owner_in_lines(Seq::<Seq<char>>::empty()) is None);
    assert(line_text(b) == b);
    assert(!occurs_at(b, 0, OWNER_LINE_PREFIX@)) by {
        if occurs_at(b, 0, OWNER_LINE_PREFIX@) {
            assert(b.subrange(0, OWNER_LINE_PREFIX@.len() as int)[0] == b[0]);
        }
    }
    assert(owner_in_lines(seq![b]) is None);
    assert(o.last() != '\r') by {
        if email.len() == 0 {
            assert(o.last() == OWNER_LINE_PREFIX@.last());
        } else {
            assert(o.last() == email.last());
        }
    }
    assert(line_text(o) == o);
    assert(o.subrange(0, OWNER_LINE_PREFIX@.len() as int) =~= OWNER_LINE_PREFIX@);
    assert(o.subrange(OWNER_LINE_PREFIX@.len() as int, o.len() as int) =~= email);
}

/// The owner written into a reservation's description is the owner read from it, when the
/// address holds no line break and does not end in a carriage return.
pub proof fn lemma_owner_round_trip(
    email: Seq<char>,
    os_user: Option<Seq<char>>,
    id: Seq<char>,
    notes: Option<Seq<char>>,
)
    requires
        !email.contains('\n'),
        email.len() > 0 ==> email.last() != '\r',
    ensures
        owner_in_description(description_text(email, os_user, id, notes)) == Some(email),
{
    reveal_strlit("[lab-resource-manager:managed-section:begin]");
    reveal_strlit("予約者: ");
    let b = MANAGED_SECTION_BEGIN@;
    let o = OWNER_LINE_PREFIX@ + email;
    let r = lemma_description_shape(email, os_user, id, notes);
    assert(!b.contains('\n')) by {
        if b.contains('\n') {
            let j = choose|j: int| 0 <= j < b.len() && b[j] == '\n';
        }
    }
    assert(!o.contains('\n')) by {
        if o.contains('\n') {
            let j = choose|j: int| 0 <= j < o.len() && o[j] == '\n';
            if j >= OWNER_LINE_PREFIX@.len() {
                assert(email[j - OWNER_LINE_PREFIX@.len()] == '\n');
            }
        }
    }
    lemma_split_around(b, o.push('\n') + r, '\n');
    lemma_split_around(o, r, '\n');
    lemma_split_single(b, '\n');
    lemma_split_single(o, '\n');
    let first = seq![b, o];
    assert(split(description_text(email, os_user, id, notes), '\n') =~= first + split(r, '\n'));
    lemma_first_lines_owner(email);
    lemma_owner_in_lines_prefix(first, split(r, '\n'));
}

/// The managed lines between the opening and the closing line, joined by line breaks.
pub open spec fn managed_middle(email: Seq<char>, os_user: Option<Seq<char>>, id: Seq<char>) -> Seq<char> {
    match os_user {
        Some(u) => (OWNER_LINE_PREFIX@ + email).push('\n') + ((OS_USER_LINE_PREFIX@ + u).push('\n') + (
        RESERVATION_ID_LINE_PREFIX@ + id)),
        None => (OWNER_LINE_PREFIX@ + email).push('\n') + (RESERVATION_ID_LINE_PREFIX@ + id),
    }
}

/// A description: the opening line, a break, the middle lines, a break, the closing line,
/// then the notes after an empty line.
proof fn lemma_description_parts(
    email: Seq<char>,
    os_user: Option<Seq<char>>,
    id: Seq<char>,
    notes: Option<Seq<char>>,
)
    ensures
        description_text(email, os_user, id, notes) == MANAGED_SECTION_BEGIN@ + ((seq!['\n']
            + managed_middle(email, os_user, id)).push('\n') + (MANAGED_SECTION_END@ + match notes {
            Some(n) => seq!['\n', '\n'] + n,
            None => Seq::<char>::empty(),
        })),
{
    reveal_strlit("\n");
    reveal_strlit("\n\n");
    assert("\n"@ =~= seq!['\n']);
    assert("\n\n"@ =~= seq!['\n', '\n']);
    reveal_with_fuel(join, 6);
    let lines = description_lines(email, os_user, id);
    assert(description_text(email, os_user, id, notes) =~= MANAGED_SECTION_BEGIN@ + ((seq!['\n']
        + managed_middle(email, os_user, id)).push('\n') + (MANAGED_SECTION_END@ + match notes {
        Some(n) => seq!['\n', '\n'] + n,
        None => Seq::<char>::empty(),
    })));
}

/// The closing marker does not occur in the managed lines when it occurs in none of the
/// address, the OS user name and the id.
proof fn lemma_middle_lacks_end(email: Seq<char>, os_user: Option<Seq<char>>, id: Seq<char>)
    requires
        !holds_text(email, MANAGED_SECTION_END@),
        os_user matches Some(u) ==> !holds_text(u, MANAGED_SECTION_END@),
        !holds_text(id, MANAGED_SECTION_END@),
    ensures
        !holds_text(seq!['\n'] + managed_middle(email, os_user, id), MANAGED_SECTION_END@),
        !MANAGED_SECTION_END@.contains('\n'),
{
    reveal_strlit("[lab-resource-manager:managed-section:end]");
    reveal_strlit("予約者: ");
    reveal_strlit("OS: ");
    reveal_strlit("予約ID: ");
    let p = MANAGED_SECTION_END@;
    assert(!p.contains('\n')) by {
        if p.contains('\n') {
            let j = choose|j: int| 0 <= j < p.len() && p[j] == '\n';
        }
    }
    assert(p[0] == '[');
    lemma_no_occurrence_after_prefix(OWNER_LINE_PREFIX@, email, p);
    lemma_no_occurrence_after_prefix(RESERVATION_ID_LINE_PREFIX@, id, p);
    let e = Seq::<char>::empty();
    assert(!holds_text(e, p));
    match os_user {
        Some(u) => {
            lemma_no_occurrence_after_prefix(OS_USER_LINE_PREFIX@, u, p);
            lemma_no_occurrence_across(OS_USER_LINE_PREFIX@ + u, RESERVATION_ID_LINE_PREFIX@ + id, p, '\n');
            lemma_no_occurrence_across(
                OWNER_LINE_PREFIX@ + email,
                (OS_USER_LINE_PREFIX@ + u).push('\n') + (RESERVATION_ID_LINE_PREFIX@ + id),
                p,
                '\n',
            );
        },
        None => {
            lemma_no_occurrence_across(OWNER_LINE_PREFIX@ + email, RESERVATION_ID_LINE_PREFIX@ + id, p, '\n');
        },
    }
    lemma_no_occurrence_across(e, managed_middle(email, os_user, id), p, '\n');
    assert(e.push('\n') + managed_middle(email, os_user, id) =~= seq!['\n'] + managed_middle(email, os_user, id));
}

/// In text that starts with a line ending in a break, then the pattern, the pattern is first
/// found right after the break when it does not occur in the line and holds no break.
proof fn lemma_first_after_line(x: Seq<char>, p: Seq<char>, rest: Seq<char>)
    requires
        !holds_text(x, p),
        !p.contains('\n'),
    ensures
        crate::text::first_occurrence(x.push('\n') + (p + rest), p) == Some((x.len() + 1) as int),
{
    let s = x.push('\n') + (p + rest);
    let q: int = (x.len() + 1) as int;
    assert(s.subrange(q, q + p.len()) =~= p);
    assert forall|j: int| 0 <= j < q implies !occurs_at(s, j, p) by {
        if occurs_at(s, j, p) {
            let w = s.subrange(j, j + p.len());
            if j + p.len() <= x.len() {
                assert(x.subrange(j, j + p.len()) =~= w);
                assert(occurs_at(x, j, p));
            } else {
                assert(s[x.len() as int] == '\n');
                assert(w[x.len() - j] == '\n');
                assert(p[x.len() - j] == '\n');
            }
        }
    }
    crate::text::lemma_find_from_at(s, p, 0, q);
}

/// The notes of a description keep every text outside its managed section: with text
/// both before and after the section, the notes are the text before, an empty line and the
/// text after (each trimmed); with text on one side only, that text; with none, no notes.
/// The managed section is the first opening marker and the first closing marker after it.
pub proof fn lemma_notes_keep_outside(before: Seq<char>, inside: Seq<char>, after: Seq<char>)
    requires
        crate::text::first_occurrence(
            before + MANAGED_SECTION_BEGIN@ + inside + MANAGED_SECTION_END@ + after,
            MANAGED_SECTION_BEGIN@,
        ) == Some(before.len() as int),
        crate::text::first_occurrence(inside + MANAGED_SECTION_END@ + after, MANAGED_SECTION_END@)
            == Some(inside.len() as int),
    ensures
        ({
            let d = before + MANAGED_SECTION_BEGIN@ + inside + MANAGED_SECTION_END@ + after;
            let b = trim(before);
            let a = trim(after);
            &&& (b.len() > 0 && a.len() > 0) ==> notes_of(d) == Some(b + "\n\n"@ + a)
            &&& (b.len() > 0 && a.len() == 0) ==> notes_of(d) == Some(b)
            &&& (b.len() == 0 && a.len() > 0) ==> notes_of(d) == Some(a)
            &&& (b.len() == 0 && a.len() == 0) ==> notes_of(d) is None
        }),
{
    let bm = MANAGED_SECTION_BEGIN@;
    let em = MANAGED_SECTION_END@;
    let d = before + bm + inside + em + after;
    let rest = inside + em + after;
    assert(d.subrange(0, before.len() as int) =~= before);
    assert(d.subrange((before.len() + bm.len()) as int, d.len() as int) =~= rest);
    assert(split_once(d, bm) == Some((before, rest)));
    assert(rest.subrange(0, inside.len() as int) =~= inside);
    assert(rest.subrange((inside.len() + em.len()) as int, rest.len() as int) =~= after);
    assert(split_once(rest, em) == Some((inside, after)));
    let b = trim(before);
    let a = trim(after);
    crate::parse::lemma_trim_idempotent(before);
    crate::parse::lemma_trim_idempotent(after);
    if b.len() > 0 && a.len() > 0 {
        reveal_strlit("\n\n");
        let j = b + "\n\n"@ + a;
        crate::parse::lemma_trim_shape(before);
        crate::parse::lemma_trim_shape(after);
        assert(j[0] == b[0]);
        assert(j.last() == a.last());
        crate::parse::lemma_trim_fixed(j);
    }
}

/// What a description's notes read back as: the notes trimmed, or none when they are blank
/// or absent.
pub open spec fn notes_read_back(notes: Option<Seq<char>>) -> Option<Seq<char>> {
    match notes {
        Some(n) => if trim(n).len() > 0 {
            Some(trim(n))
        } else {
            None
        },
        None => None,
    }
}

/// The notes written into a reservation's description read back trimmed (none when blank or
/// absent), whatever they hold, when the closing marker of the managed part occurs in none
/// of the address, the OS user name and the id: the managed lines never leak into the
/// notes.
pub proof fn lemma_notes_round_trip(
    email: Seq<char>,
    os_user: Option<Seq<char>>,
    id: Seq<char>,
    notes: Option<Seq<char>>,
)
    requires
        !holds_text(email, MANAGED_SECTION_END@),
        os_user matches Some(u) ==> !holds_text(u, MANAGED_SECTION_END@),
        !holds_text(id, MANAGED_SECTION_END@),
    ensures
        notes_of(description_text(email, os_user, id, notes)) == notes_read_back(notes),
{
    reveal_strlit("[lab-resource-manager:managed-section:begin]");
    let d = description_text(email, os_user, id, notes);
    let b = MANAGED_SECTION_BEGIN@;
    let np = match notes {
        Some(n) => seq!['\n', '\n'] + n,
        None => Seq::<char>::empty(),
    };
    let x = seq!['\n'] + managed_middle(email, os_user, id);
    let after_begin = x.push('\n') + (MANAGED_SECTION_END@ + np);
    lemma_description_parts(email, os_user, id, notes);
    assert(d == b + after_begin);
    assert(d.subrange(0, b.len() as int) =~= b);
    crate::text::lemma_find_from_at(d, b, 0, 0);
    assert(d.subrange(0, 0) =~= Seq::<char>::empty());
    assert(d.subrange(b.len() as int, d.len() as int) =~= after_begin);
    assert(split_once(d, b) == Some((Seq::<char>::empty(), after_begin)));
    lemma_middle_lacks_end(email, os_user, id);
    lemma_first_after_line(x, MANAGED_SECTION_END@, np);
    let q: int = (x.len() + 1) as int;
    assert(after_begin.subrange(q + MANAGED_SECTION_END@.len(), after_begin.len() as int) =~= np);
    crate::parse::lemma_trim_empty();
    match notes {
        Some(n) => {
            crate::parse::lemma_trim_after_breaks(n);
            crate::parse::lemma_trim_idempotent(n);
        },
        None => {},
    }
}

/// The server of the first GPU among the resources, if any.
pub open spec fn first_gpu_server(rs: Seq<ResourceView>) -> Option<Seq<char>>
    decreases rs.len(),
{
    if rs.len() == 0 {
        None
    } else {
        match first_gpu_server(rs.drop_last()) {
            Some(s) => Some(s),
            None => match rs.last() {
                ResourceView::Gpu(g) => Some(g.server),
                ResourceView::Room { .. } => None,
            },
        }
    }
}

/// The owner's OS user name on the server of the reservation's first GPU, as their identity
/// link gives it: none for a reservation without GPUs, without a link, or whose link has no
/// account on that server.
pub fn resolve_os_user_name(usage: &ResourceUsage, identity_link: Option<&IdentityLink>) -> (r:
    Option<String>)
    ensures
        match (first_gpu_server(usage@.resources), identity_link) {
            (Some(server), Some(l)) => match first_in_system(
                record_identities(l.records@),
                ExternalSystemView::Os { server },
            ) {
                Some(i) => r matches Some(x) && x@ == l.records@[i].identity.user_id@,
                None => r is None,
            },
            _ => r is None,
        },
{
    match first_gpu_server_of(usage.resources()) {
        None => None,
        Some(name) => match identity_link {
            None => None,
            Some(link) => {
                let system = ExternalSystem::Os { server: name };
                match link.get_identity_for_system(&system) {
                    Some(identity) => Some(owned(identity.user_id())),
                    None => None,
                }
            },
        },
    }
}

/// The server of the first GPU among the resources.
fn first_gpu_server_of(resources: &[Resource]) -> (r: Option<String>)
    ensures
        match first_gpu_server(resources_view(resources@)) {
            Some(s) => r matches Some(x) && x@ == s,
            None => r is None,
        },
{
    let ghost rs = resources_view(resources@);
    let mut i: usize = 0;
    while i < resources.len()
        invariant
            rs == resources_view(resources@),
            i <= resources@.len(),
            first_gpu_server(rs.subrange(0, i as int)) is None,
        decreases resources@.len() - i,
    {
        let ghost p = rs.subrange(0, i + 1);
        assert(p.drop_last() =~= rs.subrange(0, i as int));
        assert(p.last() == resources@[i as int]@);
        match &resources[i] {
            Resource::Gpu(g) => {
                proof {
                    lemma_first_gpu_server_extends(rs, i as int);
                }
                return Some(g.server.clone());
            },
            Resource::Room { .. } => {},
        }
        i = i + 1;
    }
    assert(rs.subrange(0, rs.len() as int) =~= rs);
    None
}

/// A GPU found in a prefix is the first GPU of the whole.
proof fn lemma_first_gpu_server_extends(rs: Seq<ResourceView>, i: int)
    requires
        0 <= i < rs.len(),
        first_gpu_server(rs.subrange(0, i + 1)) is Some,
    ensures
        first_gpu_server(rs) == first_gpu_server(rs.subrange(0, i + 1)),
    decreases rs.len(),
{
    if rs.len() == i + 1 {
        assert(rs.subrange(0, i + 1) =~= rs);
    } else {
        let t = rs.drop_last();
        assert(t.subrange(0, i + 1) =~= rs.subrange(0, i + 1));
        lemma_first_gpu_server_extends(t, i);
    }
}

/// The text, or nothing for none.
pub open spec fn text_or_empty(o: Option<String>) -> Seq<char> {
    match o {
        Some(s) => s@,
        None => Seq::empty(),
    }
}

/// The message for a period whose start is not before its end.
pub open spec fn period_error_message() -> Seq<char> {
    "時間枠エラー: 開始時刻は終了時刻より前である必要があります"@
}

/// The message for an event created by the service account without an owner line.
pub open spec fn no_owner_message() -> Seq<char> {
    "サービスアカウントで作成されたイベントのdescriptionにユーザー情報がありません"@
}

/// What a reservation's event holds, apart from its id.
pub open spec fn event_holds(
    ev: CalendarEvent,
    usage: ResourceUsageView,
    os_user: Option<Seq<char>>,
) -> bool {
    &&& opt_view(ev.summary) == Some(
        match usage.resources[0] {
            ResourceView::Gpu(_) => gpu_spec_text(usage.resources)->0,
            ResourceView::Room { name } => name,
        },
    )
    &&& opt_view(ev.description) == Some(
        description_text(usage.owner_email, os_user, usage.id, usage.notes),
    )
    &&& ev.start == Some(usage.time_period.start)
    &&& ev.end == Some(usage.time_period.end)
    &&& ev.status is None
    &&& ev.creator_email is None
}

/// How a reservation is written to the calendars.
#[derive(Debug)]
pub enum SavePlan {
    /// Its event is in the right calendar: update it.
    Update { calendar_id: String, event_id: String, event: CalendarEvent },
    /// Its event is in another calendar: delete it there and create it in the new one.
    Move { old: ExternalId, calendar_id: String, event: CalendarEvent },
    /// It has no event yet: create it.
    Insert { calendar_id: String, event: CalendarEvent },
}

/// How a reservation id is looked up before reading its event.
#[derive(Debug)]
pub enum IdResolution {
    /// A mapped event.
    Mapped(ExternalId),
    /// The id was an event id mapped back to a reservation that has no event: there is none.
    Missing,
    /// Unmapped: look for the event id derived from the reservation id in every calendar.
    Derived(String),
}

/// How a reservation to delete is found.
#[derive(Debug)]
pub enum DeleteTarget {
    /// A mapped event, with the reservation whose mapping goes with it.
    Mapped { external: ExternalId, domain_id: String },
    /// Unmapped: delete the event id derived from the reservation id from every calendar.
    Derived(String),
}

/// A calendar event that could not be read as a reservation.
#[derive(Debug)]
pub struct ParseFailure {
    pub calendar_id: String,
    pub event_id: String,
    pub error: RepositoryError,
    /// Whether this is the first time the event failed (and is worth a warning).
    pub first_report: bool,
}

impl GoogleCalendarUsageRepository {
    /// Where the reservation's event belongs: the calendar of the one server of its GPUs or
    /// of its one room.
    pub open spec fn calendar_for_usage(&self, rs: Seq<ResourceView>) -> Result<
        Seq<char>,
        RepositoryErrorView,
    > {
        if rs.len() == 0 {
            Err(unknown("リソースが空です"@))
        } else if !one_calendar(rs) {
            Err(unknown(mixed_resources_message()))
        } else {
            match rs[0] {
                ResourceView::Gpu(g) => match first_server_named(self.config.servers@, g.server) {
                    None => Err(unknown("サーバーが見つかりません: "@ + g.server)),
                    Some(_) => match calendar_of(self.storage, g.server) {
                        Some(c) => Ok(c),
                        None => Err(unknown("カレンダーが見つかりません: "@ + g.server)),
                    },
                },
                ResourceView::Room { name } => match first_room_named(self.config.rooms@, name) {
                    None => Err(unknown("部屋が見つかりません: "@ + name)),
                    Some(_) => match calendar_of(self.storage, name) {
                        Some(c) => Ok(c),
                        None => Err(unknown("カレンダーが見つかりません: "@ + name)),
                    },
                },
            }
        }
    }

    /// The calendar the reservation's event belongs in.
    pub fn get_calendar_id_for_usage(&self, usage: &ResourceUsage) -> (r: Result<
        String,
        RepositoryError,
    >)
        ensures
            match self.calendar_for_usage(usage@.resources) {
                Ok(c) => r matches Ok(s) && s@ == c,
                Err(e) => r matches Err(x) && x@ == e,
            },
    {
        let resources = usage.resources();
        let ghost rs = usage@.resources;
        assert(rs == resources_view(resources@));
        if resources.len() == 0 {
            return Err(RepositoryError::Unknown(owned("リソースが空です")));
        }
        let mut all_same = true;
        let mut i: usize = 0;
        while i < resources.len()
            invariant
                resources@.len() > 0,
                rs == resources_view(resources@),
                i <= resources@.len(),
                all_same == (forall|j: int|
                    0 <= j < i ==> match rs[0] {
                        ResourceView::Gpu(g0) => (#[trigger] rs[j] matches ResourceView::Gpu(g)
                            && g.server == g0.server),
                        ResourceView::Room { name: n0 } => (rs[j] matches ResourceView::Room {
                            name,
                        } && name == n0),
                    }),
            decreases resources@.len() - i,
        {
            let same = match (&resources[0], &resources[i]) {
                (Resource::Gpu(a), Resource::Gpu(b)) => str_equal(a.server(), b.server()),
                (Resource::Room { name: a }, Resource::Room { name: b }) => str_equal(
                    a.as_str(),
                    b.as_str(),
                ),
                _ => false,
            };
            assert(rs[i as int] == resources@[i as int]@);
            assert(rs[0] == resources@[0]@);
            all_same = all_same && same;
            i = i + 1;
        }
        if !all_same {
            return Err(
                RepositoryError::Unknown(
                    owned("複数の異なるリソースタイプまたは異なるカレンダーに属するリソースが混在しています"),
                ),
            );
        }
        assert(rs[0] == resources@[0]@);
        match &resources[0] {
            Resource::Gpu(gpu) => match self.config.server_index(gpu.server()) {
                None => {
                    let mut m = owned("サーバーが見つかりません: ");
                    push_str(&mut m, gpu.server());
                    Err(RepositoryError::Unknown(m))
                },
                Some(_) => match self.storage.calendar_id_for_resource(gpu.server()) {
                    Some(c) => Ok(owned(c)),
                    None => {
                        let mut m = owned("カレンダーが見つかりません: ");
                        push_str(&mut m, gpu.server());
                        Err(RepositoryError::Unknown(m))
                    },
                },
            },
            Resource::Room { name } => match self.config.room_index(name.as_str()) {
                None => {
                    let mut m = owned("部屋が見つかりません: ");
                    push_str(&mut m, name.as_str());
                    Err(RepositoryError::Unknown(m))
                },
                Some(_) => match self.storage.calendar_id_for_resource(name.as_str()) {
                    Some(c) => Ok(owned(c)),
                    None => {
                        let mut m = owned("カレンダーが見つかりません: ");
                        push_str(&mut m, name.as_str());
                        Err(RepositoryError::Unknown(m))
                    },
                },
            },
        }
    }

    /// The event for a reservation: its title (the GPU numbers, or the room's name), its
    /// description, start and end; no id yet.
    pub fn create_event_from_usage(usage: &ResourceUsage, os_user: Option<&str>) -> (ev:
        CalendarEvent)
        requires
            usage@.resources.len() > 0,
        ensures
            event_holds(
                ev,
                usage@,
                match os_user {
                    Some(u) => Some(u@),
                    None => None,
                },
            ),
            ev.id is None,
    {
        let resources = usage.resources();
        assert(usage@.resources[0] == resources@[0]@);
        let summary = match &resources[0] {
            Resource::Gpu(_) => {
                proof {
                    lemma_gpu_numbers_nonempty(usage@.resources);
                }
                match format_gpu_spec(resources) {
                    Some(s) => s,
                    None => String::new(),
                }
            },
            Resource::Room { name } => name.clone(),
        };
        let description = build_description(usage, os_user);
        CalendarEvent {
            id: None,
            status: None,
            creator_email: None,
            summary: Some(summary),
            description: Some(description),
            start: Some(usage.time_period.start),
            end: Some(usage.time_period.end),
        }
    }

    /// How to write the reservation given where its event is, if anywhere: update it in
    /// place when it is in the right calendar, move it when it is in another, create it when
    /// there is none. A created event takes the id derived from the reservation id.
    pub fn plan_save(
        usage: &ResourceUsage,
        new_calendar_id: &str,
        existing: Option<ExternalId>,
        os_user: Option<&str>,
    ) -> (plan: SavePlan)
        requires
            usage@.resources.len() > 0,
        ensures
            ({
                let u = match os_user {
                    Some(x) => Some(x@),
                    None => None,
                };
                match existing {
                    None => plan matches SavePlan::Insert { calendar_id, event }
                        && calendar_id@ == new_calendar_id@ && event_holds(event, usage@, u)
                        && opt_view(event.id) == Some(without_hyphens(usage@.id)),
                    Some(x) => if x.calendar_id@ == new_calendar_id@ {
                        plan matches SavePlan::Update { calendar_id, event_id, event }
                            && calendar_id@ == x.calendar_id@ && event_id@ == x.event_id@
                            && event_holds(event, usage@, u) && opt_view(event.id) == Some(
                            x.event_id@,
                        )
                    } else {
                        plan matches SavePlan::Move { old, calendar_id, event } && old@ == x@
                            && calendar_id@ == new_calendar_id@ && event_holds(event, usage@, u)
                            && opt_view(event.id) == Some(without_hyphens(usage@.id))
                    },
                }
            }),
    {
        let mut event = Self::create_event_from_usage(usage, os_user);
        match existing {
            None => {
                event.id = Some(event_id_for(usage.id()));
                SavePlan::Insert { calendar_id: owned(new_calendar_id), event }
            },
            Some(x) => {
                if str_equal(x.calendar_id.as_str(), new_calendar_id) {
                    event.id = Some(x.event_id.clone());
                    SavePlan::Update { calendar_id: x.calendar_id, event_id: x.event_id, event }
                } else {
                    event.id = Some(event_id_for(usage.id()));
                    SavePlan::Move { old: x, calendar_id: owned(new_calendar_id), event }
                }
            },
        }
    }

    /// The resources an event's title names in a calendar: the room itself for a room's
    /// calendar, the GPUs the title names for a server's.
    pub open spec fn parsed_resources(&self, title: Seq<char>, context: Seq<char>) -> Result<
        Seq<ResourceView>,
        RepositoryErrorView,
    > {
        match first_room_named(self.config.rooms@, context) {
            Some(i) => Ok(seq![ResourceView::Room { name: self.config.rooms@[i].name@ }]),
            None => match first_server_named(self.config.servers@, context) {
                None => Err(unknown("サーバーが見つかりません: "@ + context)),
                Some(i) => match gpus_from_spec(title, self.config.servers@[i]) {
                    Ok(g) => Ok(g),
                    Err(m) => Err(unknown(m)),
                },
            },
        }
    }

    /// The resources an event's title names in the calendar of the resource `context`.
    pub fn parse_resources(&self, title: &str, resource_context: &str) -> (r: Result<
        Vec<Resource>,
        RepositoryError,
    >)
        ensures
            match self.parsed_resources(title@, resource_context@) {
                Ok(rs) => r matches Ok(v) && resources_view(v@) == rs,
                Err(e) => r matches Err(x) && x@ == e,
            },
    {
        match self.config.room_index(resource_context) {
            Some(i) => {
                let mut v: Vec<Resource> = Vec::new();
                v.push(Resource::Room { name: self.config.rooms[i].name.clone() });
                assert(resources_view(v@) =~= seq![
                    ResourceView::Room { name: self.config.rooms@[i as int].name@ },
                ]);
                return Ok(v);
            },
            None => {},
        }
        match self.config.server_index(resource_context) {
            None => {
                let mut m = owned("サーバーが見つかりません: ");
                push_str(&mut m, resource_context);
                Err(RepositoryError::Unknown(m))
            },
            Some(i) => match create_gpus_from_spec(title, &self.config.servers[i]) {
                Ok(g) => Ok(g),
                Err(m) => Err(RepositoryError::Unknown(m)),
            },
        }
    }
}

/// The owner a description names on its owner line.
fn owner_from_description(description: &str) -> (r: Option<String>)
    ensures
        match owner_in_description(description@) {
            Some(o) => r matches Some(s) && s@ == o,
            None => r is None,
        },
{
    let lines = crate::parse::split_chars(chars_of(description).as_slice(), '\n');
    let ghost ls = crate::parse::pieces_view(lines@);
    let prefix = chars_of(OWNER_LINE_PREFIX);
    let mut i: usize = 0;
    while i < lines.len()
        invariant
            ls == crate::parse::pieces_view(lines@),
            ls == split(description@, '\n'),
            prefix@ == OWNER_LINE_PREFIX@,
            i <= lines@.len(),
            owner_in_lines(ls.subrange(0, i as int)) is None,
        decreases lines@.len() - i,
    {
        let ghost p = ls.subrange(0, i + 1);
        assert(p.drop_last() =~= ls.subrange(0, i as int));
        assert(p.last() == lines@[i as int]@);
        let line = &lines[i];
        let n = line.len();
        let end: usize = if n > 0 && line[n - 1] == '\r' {
            n - 1
        } else {
            n
        };
        let text = crate::text::slice_chars(line.as_slice(), 0, end);
        assert(text@ =~= line_text(lines@[i as int]@));
        if occurs_in(text.as_slice(), 0, prefix.as_slice()) {
            let rest = crate::text::slice_chars(text.as_slice(), prefix.len(), text.len());
            proof {
                lemma_owner_in_lines_extends(ls, i as int);
            }
            return Some(string_from_chars(rest.as_slice()));
        }
        i = i + 1;
    }
    assert(ls.subrange(0, lines@.len() as int) =~= ls);
    None
}

/// An owner found in a prefix of the lines is the owner of all of them.
proof fn lemma_owner_in_lines_extends(lines: Seq<Seq<char>>, i: int)
    requires
        0 <= i < lines.len(),
        owner_in_lines(lines.subrange(0, i + 1)) is Some,
    ensures
        owner_in_lines(lines) == owner_in_lines(lines.subrange(0, i + 1)),
    decreases lines.len(),
{
    if lines.len() == i + 1 {
        assert(lines.subrange(0, i + 1) =~= lines);
    } else {
        let t = lines.drop_last();
        assert(t.subrange(0, i + 1) =~= lines.subrange(0, i + 1));
        lemma_owner_in_lines_extends(t, i);
    }
}

impl GoogleCalendarUsageRepository {
    /// The reservation an event of the calendar of resource `context` is, or why it is none.
    /// Its id is the reservation id the event id is mapped back to, else the event id; its
    /// owner the event's creator, or for events the application created, the owner line of
    /// the description.
    pub open spec fn parsed_usage(&self, event: CalendarEvent, context: Seq<char>) -> Result<
        ResourceUsageView,
        RepositoryErrorView,
    > {
        let event_id = text_or_empty(event.id);
        let id = match self.id_mapper.domain_of(event_id) {
            Some(d) => d,
            None => event_id,
        };
        match event.creator_email {
            None => Err(unknown("作成者情報がありません"@)),
            Some(c) => {
                let owner = if c@ == self.service_account_email@ {
                    match event.description {
                        Some(d) => owner_in_description(d@),
                        None => None,
                    }
                } else {
                    Some(c@)
                };
                match owner {
                    None => Err(unknown(no_owner_message())),
                    Some(o) => match (event.start, event.end) {
                        (None, _) => Err(unknown("開始時刻がありません"@)),
                        (Some(_), None) => Err(unknown("終了時刻がありません"@)),
                        (Some(s), Some(e)) => if !(s < e) {
                            Err(unknown(period_error_message()))
                        } else {
                            match self.parsed_resources(text_or_empty(event.summary), context) {
                                Err(x) => Err(x),
                                Ok(rs) => Ok(
                                    ResourceUsageView {
                                        id,
                                        owner_email: o,
                                        time_period: TimePeriod { start: s, end: e },
                                        resources: rs,
                                        notes: match event.description {
                                            Some(d) => notes_of(d@),
                                            None => None,
                                        },
                                    },
                                ),
                            }
                        },
                    },
                }
            },
        }
    }

    /// The reservation an event of the calendar of the resource `resource_context` is.
    pub fn parse_event(&self, event: &CalendarEvent, resource_context: &str) -> (r: Result<
        ResourceUsage,
        RepositoryError,
    >)
        ensures
            match self.parsed_usage(*event, resource_context@) {
                Ok(u) => r matches Ok(x) && x@ == u,
                Err(e) => r matches Err(x) && x@ == e,
            },
    {
        let event_id = match &event.id {
            Some(i) => i.clone(),
            None => String::new(),
        };
        let domain_id = match self.id_mapper.get_domain_id(event_id.as_str()) {
            Some(d) => d,
            None => event_id,
        };
        let creator = match &event.creator_email {
            Some(c) => c,
            None => {
                return Err(RepositoryError::Unknown(owned("作成者情報がありません")));
            },
        };
        let owner = if str_equal(creator.as_str(), self.service_account_email.as_str()) {
            let found = match &event.description {
                Some(d) => owner_from_description(d.as_str()),
                None => None,
            };
            match found {
                Some(o) => o,
                None => {
                    return Err(
                        RepositoryError::Unknown(
                            owned(
                                "サービスアカウントで作成されたイベントのdescriptionにユーザー情報がありません",
                            ),
                        ),
                    );
                },
            }
        } else {
            creator.clone()
        };
        let start = match event.start {
            Some(s) => s,
            None => {
                return Err(RepositoryError::Unknown(owned("開始時刻がありません")));
            },
        };
        let end = match event.end {
            Some(e) => e,
            None => {
                return Err(RepositoryError::Unknown(owned("終了時刻がありません")));
            },
        };
        let time_period = match TimePeriod::new(start, end) {
            Some(p) => p,
            None => {
                return Err(
                    RepositoryError::Unknown(
                        owned("時間枠エラー: 開始時刻は終了時刻より前である必要があります"),
                    ),
                );
            },
        };
        let title: &str = match &event.summary {
            Some(t) => t.as_str(),
            None => "",
        };
        proof {
            reveal_strlit("");
        }
        let items = match self.parse_resources(title, resource_context) {
            Ok(v) => v,
            Err(e) => {
                return Err(e);
            },
        };
        let notes = match &event.description {
            Some(d) => extract_notes(d.as_str()),
            None => None,
        };
        let u = ResourceUsage::reconstruct(domain_id, owner, time_period, items, notes);
        assert(u@ =~= self.parsed_usage(*event, resource_context@)->Ok_0);
        Ok(u)
    }

    /// Whether a failure to read the event is worth a warning: only the first time it fails.
    pub fn should_report_parse_failure(&mut self, event_id: &str) -> (first: bool)
        ensures
            first == !crate::text::strings_view(old(self).reported_parse_failures@).contains(
                event_id@,
            ),
            crate::text::strings_view(final(self).reported_parse_failures@).contains(event_id@),
            forall|x: Seq<char>|
                crate::text::strings_view(old(self).reported_parse_failures@).contains(x)
                    ==> #[trigger] crate::text::strings_view(
                    final(self).reported_parse_failures@,
                ).contains(x),
            forall|x: Seq<char>|
                #[trigger] crate::text::strings_view(final(self).reported_parse_failures@).contains(x)
                    ==> x == event_id@ || crate::text::strings_view(
                    old(self).reported_parse_failures@,
                ).contains(x),
            final(self).config == old(self).config,
            final(self).storage == old(self).storage,
            final(self).service_account_email == old(self).service_account_email,
            final(self).id_mapper == old(self).id_mapper,
    {
        let known = crate::infrastructure::config::storage_config::contains_name(
            self.reported_parse_failures.as_slice(),
            event_id,
        );
        if known {
            return false;
        }
        let ghost before = crate::text::strings_view(self.reported_parse_failures@);
        self.reported_parse_failures.push(owned(event_id));
        proof {
            let after = crate::text::strings_view(self.reported_parse_failures@);
            assert(after =~= before.push(event_id@));
            assert(after[before.len() as int] == event_id@);
            assert forall|x: Seq<char>| before.contains(x) implies #[trigger] after.contains(x) by {
                let j = choose|j: int| 0 <= j < before.len() && before[j] == x;
                assert(after[j] == x);
            }
            assert forall|x: Seq<char>| #[trigger] after.contains(x) implies x == event_id@
                || before.contains(x) by {
                let j = choose|j: int| 0 <= j < after.len() && after[j] == x;
                if j < before.len() {
                    assert(before[j] == x);
                }
            }
        }
        true
    }
}

/// The models of a list of reservations.
pub open spec fn usages_view(us: Seq<ResourceUsage>) -> Seq<ResourceUsageView> {
    us.map_values(|u: ResourceUsage| u@)
}

/// The model of a read failure: calendar, event id and error.
pub open spec fn failure_view(f: ParseFailure) -> (Seq<char>, Seq<char>, RepositoryErrorView) {
    (f.calendar_id@, f.event_id@, f.error@)
}

impl CalendarEvent {
    /// A copy with the same contents.
    pub fn duplicate(&self) -> (e: CalendarEvent)
        ensures
            opt_view(e.id) == opt_view(self.id),
            opt_view(e.status) == opt_view(self.status),
            opt_view(e.creator_email) == opt_view(self.creator_email),
            opt_view(e.summary) == opt_view(self.summary),
            opt_view(e.description) == opt_view(self.description),
            e.start == self.start,
            e.end == self.end,
    {
        CalendarEvent {
            id: duplicate_opt(&self.id),
            status: duplicate_opt(&self.status),
            creator_email: duplicate_opt(&self.creator_email),
            summary: duplicate_opt(&self.summary),
            description: duplicate_opt(&self.description),
            start: self.start,
            end: self.end,
        }
    }
}

/// The reservation with another id and everything else the same.
pub fn with_id(usage: ResourceUsage, id: &str) -> (r: ResourceUsage)
    ensures
        r@ == (ResourceUsageView { id: id@, ..usage@ }),
{
    if str_equal(usage.id(), id) {
        return usage;
    }
    let ResourceUsage { id: _, owner_email, time_period, resources, notes } = usage;
    ResourceUsage::reconstruct(owned(id), owner_email, time_period, resources, notes)
}

/// The reservations whose period overlaps the given one, in order.
pub fn find_overlapping(usages: &[ResourceUsage], period: &TimePeriod) -> (r: Vec<ResourceUsage>)
    ensures
        usages_view(r@) == usages_view(usages@).filter(
            |u: ResourceUsageView| periods_overlap(u.time_period, *period),
        ),
{
    let ghost pred = |u: ResourceUsageView| periods_overlap(u.time_period, *period);
    let mut r: Vec<ResourceUsage> = Vec::new();
    let mut i: usize = 0;
    while i < usages.len()
        invariant
            i <= usages@.len(),
            pred == (|u: ResourceUsageView| periods_overlap(u.time_period, *period)),
            usages_view(r@) == usages_view(usages@.subrange(0, i as int)).filter(pred),
        decreases usages@.len() - i,
    {
        let ghost before = usages_view(usages@.subrange(0, i as int));
        let ghost before_r = usages_view(r@);
        assert(usages_view(usages@.subrange(0, i + 1)) =~= before.push(usages@[i as int]@));
        proof {
            before.lemma_filter_push(usages@[i as int]@, pred);
        }
        if usages[i].time_period.overlaps_with(period) {
            r.push(usages[i].duplicate());
            assert(usages_view(r@) =~= before_r.push(usages@[i as int]@));
        }
        i = i + 1;
    }
    assert(usages@.subrange(0, usages@.len() as int) =~= usages@);
    r
}

/// The reservations of the owner, in order.
pub fn find_by_owner(usages: &[ResourceUsage], owner_email: &str) -> (r: Vec<ResourceUsage>)
    ensures
        usages_view(r@) == usages_view(usages@).filter(
            |u: ResourceUsageView| u.owner_email == owner_email@,
        ),
{
    let ghost pred = |u: ResourceUsageView| u.owner_email == owner_email@;
    let mut r: Vec<ResourceUsage> = Vec::new();
    let mut i: usize = 0;
    while i < usages.len()
        invariant
            i <= usages@.len(),
            pred == (|u: ResourceUsageView| u.owner_email == owner_email@),
            usages_view(r@) == usages_view(usages@.subrange(0, i as int)).filter(pred),
        decreases usages@.len() - i,
    {
        let ghost before = usages_view(usages@.subrange(0, i as int));
        let ghost before_r = usages_view(r@);
        assert(usages_view(usages@.subrange(0, i + 1)) =~= before.push(usages@[i as int]@));
        proof {
            before.lemma_filter_push(usages@[i as int]@, pred);
        }
        if str_equal(usages[i].owner_email(), owner_email) {
            r.push(usages[i].duplicate());
            assert(usages_view(r@) =~= before_r.push(usages@[i as int]@));
        }
        i = i + 1;
    }
    assert(usages@.subrange(0, usages@.len() as int) =~= usages@);
    r
}

/// The reservations that have not ended at `now` (ongoing ones included), in order.
pub fn find_future(usages: &[ResourceUsage], now: i64) -> (r: Vec<ResourceUsage>)
    ensures
        usages_view(r@) == usages_view(usages@).filter(
            |u: ResourceUsageView| u.time_period.end > now,
        ),
{
    let ghost pred = |u: ResourceUsageView| u.time_period.end > now;
    let mut r: Vec<ResourceUsage> = Vec::new();
    let mut i: usize = 0;
    while i < usages.len()
        invariant
            i <= usages@.len(),
            pred == (|u: ResourceUsageView| u.time_period.end > now),
            usages_view(r@) == usages_view(usages@.subrange(0, i as int)).filter(pred),
        decreases usages@.len() - i,
    {
        let ghost before = usages_view(usages@.subrange(0, i as int));
        let ghost before_r = usages_view(r@);
        assert(usages_view(usages@.subrange(0, i + 1)) =~= before.push(usages@[i as int]@));
        proof {
            before.lemma_filter_push(usages@[i as int]@, pred);
        }
        if usages[i].time_period.end > now {
            r.push(usages[i].duplicate());
            assert(usages_view(r@) =~= before_r.push(usages@[i as int]@));
        }
        i = i + 1;
    }
    assert(usages@.subrange(0, usages@.len() as int) =~= usages@);
    r
}

/// Two events hold the same values.
pub open spec fn same_event(a: CalendarEvent, b: CalendarEvent) -> bool {
    &&& opt_view(a.id) == opt_view(b.id)
    &&& opt_view(a.status) == opt_view(b.status)
    &&& opt_view(a.creator_email) == opt_view(b.creator_email)
    &&& opt_view(a.summary) == opt_view(b.summary)
    &&& opt_view(a.description) == opt_view(b.description)
    &&& a.start == b.start
    &&& a.end == b.end
}

/// The events of a calendar that stand, each with the calendar and its resource.
pub fn keep_active(events: &[CalendarEvent], calendar_id: &str, resource_name: &str) -> (r: Vec<
    (CalendarEvent, String, String),
>)
    ensures
        r@.len() == events@.filter(|e: CalendarEvent| !(e.status matches Some(s) && s@
            == EVENT_STATUS_CANCELLED@)).len(),
        forall|k: int| 0 <= k < r@.len() ==> (#[trigger] r@[k]).1@ == calendar_id@ && r@[k].2@
            == resource_name@,
        forall|k: int| 0 <= k < r@.len() ==> same_event(
            (#[trigger] r@[k]).0,
            events@.filter(|e: CalendarEvent| !(e.status matches Some(s) && s@
                == EVENT_STATUS_CANCELLED@))[k],
        ),
{
    let ghost pred = |e: CalendarEvent| !(e.status matches Some(s) && s@ == EVENT_STATUS_CANCELLED@);
    let mut r: Vec<(CalendarEvent, String, String)> = Vec::new();
    let mut i: usize = 0;
    while i < events.len()
        invariant
            i <= events@.len(),
            pred == (|e: CalendarEvent| !(e.status matches Some(s) && s@
                == EVENT_STATUS_CANCELLED@)),
            r@.len() == events@.subrange(0, i as int).filter(pred).len(),
            forall|k: int| 0 <= k < r@.len() ==> (#[trigger] r@[k]).1@ == calendar_id@ && r@[k].2@
                == resource_name@,
            forall|k: int| 0 <= k < r@.len() ==> same_event(
                (#[trigger] r@[k]).0,
                events@.subrange(0, i as int).filter(pred)[k],
            ),
        decreases events@.len() - i,
    {
        let ghost before = events@.subrange(0, i as int);
        assert(events@.subrange(0, i + 1) =~= before.push(events@[i as int]));
        proof {
            before.lemma_filter_push(events@[i as int], pred);
        }
        if is_active_event(&events[i]) {
            r.push((events[i].duplicate(), owned(calendar_id), owned(resource_name)));
        }
        i = i + 1;
    }
    assert(events@.subrange(0, events@.len() as int) =~= events@);
    r
}

impl GoogleCalendarUsageRepository {
    /// How a reservation id is found: its mapped event; else, when it is an event id mapped
    /// back to a reservation, that reservation's event (none if it has none); else the event
    /// id derived from it.
    pub fn resolve_for_find(&self, input_id: &str) -> (r: IdResolution)
        ensures
            match self.id_mapper.external_of(input_id@) {
                Some(x) => r matches IdResolution::Mapped(e) && e@ == x,
                None => match self.id_mapper.domain_of(input_id@) {
                    Some(d) => match self.id_mapper.external_of(d) {
                        Some(x) => r matches IdResolution::Mapped(e) && e@ == x,
                        None => r is Missing,
                    },
                    None => r matches IdResolution::Derived(e) && e@ == without_hyphens(
                        input_id@,
                    ),
                },
            },
    {
        match self.id_mapper.get_external_id(input_id) {
            Some(x) => IdResolution::Mapped(x),
            None => match self.id_mapper.get_domain_id(input_id) {
                Some(d) => match self.id_mapper.get_external_id(d.as_str()) {
                    Some(x) => IdResolution::Mapped(x),
                    None => IdResolution::Missing,
                },
                None => IdResolution::Derived(event_id_for(input_id)),
            },
        }
    }

    /// How a reservation to delete is found, as for reading it; an event id mapped back to a
    /// reservation without an event is not found.
    pub fn resolve_for_delete(&self, input_id: &str) -> (r: Result<DeleteTarget, RepositoryError>)
        ensures
            match self.id_mapper.external_of(input_id@) {
                Some(x) => r matches Ok(DeleteTarget::Mapped { external, domain_id })
                    && external@ == x && domain_id@ == input_id@,
                None => match self.id_mapper.domain_of(input_id@) {
                    Some(d) => match self.id_mapper.external_of(d) {
                        Some(x) => r matches Ok(DeleteTarget::Mapped { external, domain_id })
                            && external@ == x && domain_id@ == d,
                        None => r matches Err(e) && e@ == RepositoryErrorView::NotFound,
                    },
                    None => r matches Ok(DeleteTarget::Derived(e)) && e@ == without_hyphens(
                        input_id@,
                    ),
                },
            },
    {
        match self.id_mapper.get_external_id(input_id) {
            Some(x) => Ok(DeleteTarget::Mapped { external: x, domain_id: owned(input_id) }),
            None => match self.id_mapper.get_domain_id(input_id) {
                Some(d) => match self.id_mapper.get_external_id(d.as_str()) {
                    Some(x) => Ok(DeleteTarget::Mapped { external: x, domain_id: d }),
                    None => Err(RepositoryError::NotFound),
                },
                None => Ok(DeleteTarget::Derived(event_id_for(input_id))),
            },
        }
    }

    /// The calendars in which to look for a reservation's event: the one it belongs in
    /// first, then every other calendar in order.
    pub fn lookup_order(&self, target_calendar_id: &str) -> (r: Vec<String>)
        ensures
            crate::text::strings_view(r@) == seq![target_calendar_id@] + self.calendar_list().map_values(
                |p: (Seq<char>, Seq<char>)| p.0,
            ).filter(|c: Seq<char>| c != target_calendar_id@),
    {
        let list = self.calendars();
        let ghost ids = pairs_view(list@).map_values(|p: (Seq<char>, Seq<char>)| p.0);
        let ghost pred = |c: Seq<char>| c != target_calendar_id@;
        let mut r: Vec<String> = Vec::new();
        r.push(owned(target_calendar_id));
        let mut i: usize = 0;
        while i < list.len()
            invariant
                i <= list@.len(),
                ids == pairs_view(list@).map_values(|p: (Seq<char>, Seq<char>)| p.0),
                pairs_view(list@) == self.calendar_list(),
                pred == (|c: Seq<char>| c != target_calendar_id@),
                crate::text::strings_view(r@) == seq![target_calendar_id@] + ids.subrange(
                    0,
                    i as int,
                ).filter(pred),
            decreases list@.len() - i,
        {
            let ghost before = ids.subrange(0, i as int);
            let ghost before_r = crate::text::strings_view(r@);
            assert(ids.subrange(0, i + 1) =~= before.push(list@[i as int].0@));
            proof {
                before.lemma_filter_push(list@[i as int].0@, pred);
            }
            if !str_equal(list[i].0.as_str(), target_calendar_id) {
                r.push(list[i].0.clone());
                assert(crate::text::strings_view(r@) =~= before_r.push(list@[i as int].0@));
            }
            i = i + 1;
        }
        assert(ids.subrange(0, list@.len() as int) =~= ids);
        r
    }
}

/// The reservations the events are, in order, leaving out those that are none.
pub open spec fn parsed_ok(
    repo: GoogleCalendarUsageRepository,
    events: Seq<(CalendarEvent, String, String)>,
) -> Seq<ResourceUsageView>
    decreases events.len(),
{
    if events.len() == 0 {
        Seq::empty()
    } else {
        let rest = parsed_ok(repo, events.drop_last());
        match repo.parsed_usage(events.last().0, events.last().2@) {
            Ok(u) => rest.push(u),
            Err(_) => rest,
        }
    }
}

/// The events that are no reservation, in order: calendar, event id and why.
pub open spec fn parsed_failures(
    repo: GoogleCalendarUsageRepository,
    events: Seq<(CalendarEvent, String, String)>,
) -> Seq<(Seq<char>, Seq<char>, RepositoryErrorView)>
    decreases events.len(),
{
    if events.len() == 0 {
        Seq::empty()
    } else {
        let rest = parsed_failures(repo, events.drop_last());
        match repo.parsed_usage(events.last().0, events.last().2@) {
            Ok(_) => rest,
            Err(e) => rest.push((events.last().1@, text_or_empty(events.last().0.id), e)),
        }
    }
}

/// Whether the repository reads events the same way as another.
pub open spec fn same_reading(a: GoogleCalendarUsageRepository, b: GoogleCalendarUsageRepository) -> bool {
    &&& a.config == b.config
    &&& a.storage == b.storage
    &&& a.service_account_email == b.service_account_email
    &&& a.id_mapper == b.id_mapper
}

impl GoogleCalendarUsageRepository {
    /// Reads the events as reservations. Those that are none are given apart with the
    /// reason, each marked as worth a warning when its event had not failed before.
    pub fn parse_events(&mut self, events: &[(CalendarEvent, String, String)]) -> (r: (
        Vec<ResourceUsage>,
        Vec<ParseFailure>,
    ))
        ensures
            same_reading(*final(self), *old(self)),
            usages_view(r.0@) == parsed_ok(*old(self), events@),
            r.1@.map_values(|f: ParseFailure| failure_view(f)) == parsed_failures(
                *old(self),
                events@,
            ),
            forall|k: int|
                0 <= k < r.1@.len() ==> (#[trigger] r.1@[k]).first_report == !(
                crate::text::strings_view(old(self).reported_parse_failures@).contains(
                    r.1@[k].event_id@,
                ) || r.1@.subrange(0, k).map_values(|f: ParseFailure| f.event_id@).contains(
                    r.1@[k].event_id@,
                )),
    {
        let ghost start = *self;
        let ghost reported0 = crate::text::strings_view(self.reported_parse_failures@);
        let mut usages: Vec<ResourceUsage> = Vec::new();
        let mut failures: Vec<ParseFailure> = Vec::new();
        let mut i: usize = 0;
        while i < events.len()
            invariant
                i <= events@.len(),
                same_reading(*self, start),
                reported0 == crate::text::strings_view(start.reported_parse_failures@),
                usages_view(usages@) == parsed_ok(start, events@.subrange(0, i as int)),
                failures@.map_values(|f: ParseFailure| failure_view(f)) == parsed_failures(
                    start,
                    events@.subrange(0, i as int),
                ),
                forall|x: Seq<char>|
                    #[trigger] crate::text::strings_view(self.reported_parse_failures@).contains(x)
                        <==> (reported0.contains(x) || failures@.map_values(
                        |f: ParseFailure| f.event_id@,
                    ).contains(x)),
                forall|k: int|
                    0 <= k < failures@.len() ==> (#[trigger] failures@[k]).first_report == !(
                    reported0.contains(failures@[k].event_id@) || failures@.subrange(
                        0,
                        k,
                    ).map_values(|f: ParseFailure| f.event_id@).contains(failures@[k].event_id@)),
            decreases events@.len() - i,
        {
            let ghost p = events@.subrange(0, i + 1);
            assert(p.drop_last() =~= events@.subrange(0, i as int));
            assert(p.last() == events@[i as int]);
            assert(self.parsed_usage(events@[i as int].0, events@[i as int].2@)
                == start.parsed_usage(events@[i as int].0, events@[i as int].2@));
            match self.parse_event(&events[i].0, events[i].2.as_str()) {
                Ok(u) => {
                    let ghost before = usages_view(usages@);
                    usages.push(u);
                    assert(usages_view(usages@) =~= before.push(
                        start.parsed_usage(events@[i as int].0, events@[i as int].2@)->Ok_0,
                    ));
                },
                Err(e) => {
                    let event_id = match &events[i].0.id {
                        Some(x) => x.clone(),
                        None => String::new(),
                    };
                    proof {
                        reveal_strlit("");
                    }
                    let ghost ids_before = failures@.map_values(|f: ParseFailure| f.event_id@);
                    let ghost views_before = failures@.map_values(|f: ParseFailure| failure_view(f));
                    let ghost rb = crate::text::strings_view(self.reported_parse_failures@);
                    let ghost fb = failures@;
                    assert(forall|x: Seq<char>| #[trigger] rb.contains(x) <==> (reported0.contains(x) || ids_before.contains(x)));
                    assert(forall|k: int| 0 <= k < fb.len() ==> (#[trigger] fb[k]).first_report == !(
                        reported0.contains(fb[k].event_id@) || fb.subrange(0, k).map_values(
                            |f: ParseFailure| f.event_id@,
                        ).contains(fb[k].event_id@)));
                    let first = self.should_report_parse_failure(event_id.as_str());
                    let failure = ParseFailure {
                        calendar_id: events[i].1.clone(),
                        event_id,
                        error: e,
                        first_report: first,
                    };
                    let ghost fv = failure_view(failure);
                    let ghost fid = failure.event_id@;
                    failures.push(failure);
                    proof {
                        assert(failures@.map_values(|f: ParseFailure| failure_view(f)) =~= views_before.push(fv));
                        let ids_after = failures@.map_values(|f: ParseFailure| f.event_id@);
                        assert(ids_after =~= ids_before.push(fid));
                        assert forall|x: Seq<char>|
                            #[trigger] crate::text::strings_view(self.reported_parse_failures@).contains(x)
                                <==> (reported0.contains(x) || ids_after.contains(x)) by {
                            let now = crate::text::strings_view(self.reported_parse_failures@);
                            assert(rb.contains(x) <==> (reported0.contains(x) || ids_before.contains(x)));
                            if rb.contains(x) {
                                assert(now.contains(x));
                            }
                            if now.contains(x) {
                                assert(x == fid || rb.contains(x));
                            }
                            assert(ids_after[ids_before.len() as int] == fid);
                            if ids_after.contains(x) && x != fid {
                                let j = choose|j: int| 0 <= j < ids_after.len() && ids_after[j] == x;
                                assert(ids_before[j] == x);
                            }
                            if ids_before.contains(x) {
                                let j = choose|j: int| 0 <= j < ids_before.len() && ids_before[j] == x;
                                assert(ids_after[j] == x);
                            }
                        }
                        let n = failures@.len() - 1;
                        assert(failures@.subrange(0, n).map_values(|f: ParseFailure| f.event_id@) =~= ids_before);
                        assert forall|k: int| 0 <= k < failures@.len() implies (#[trigger] failures@[k]).first_report == !(
                            reported0.contains(failures@[k].event_id@) || failures@.subrange(
                                0,
                                k,
                            ).map_values(|f: ParseFailure| f.event_id@).contains(failures@[k].event_id@)) by {
                            if k < n {
                                assert(failures@[k] == fb[k]);
                                assert(failures@.subrange(0, k) =~= fb.subrange(0, k));
                            } else {
                                assert(failures@[k].event_id@ == fid);
                                assert(failures@.subrange(0, k) =~= fb);
                            }
                        }
                    }
                },
            }
            i = i + 1;
        }
        assert(events@.subrange(0, events@.len() as int) =~= events@);
        (usages, failures)
    }
}

/// The device numbers of resources that are all GPUs are theirs, one for one.
proof fn lemma_gpu_numbers_all(rs: Seq<ResourceView>)
    requires
        forall|k: int| 0 <= k < rs.len() ==> (#[trigger] rs[k]) is Gpu,
    ensures
        gpu_numbers(rs).len() == rs.len(),
        forall|k: int| 0 <= k < rs.len() ==> gpu_numbers(rs)[k] == (#[trigger] rs[k])->Gpu_0.device_number,
    decreases rs.len(),
{
    if rs.len() > 0 {
        let d = rs.drop_last();
        assert forall|k: int| 0 <= k < d.len() implies (#[trigger] d[k]) is Gpu by {
            assert(d[k] == rs[k]);
        }
        lemma_gpu_numbers_all(d);
        assert(rs[rs.len() - 1] is Gpu);
        assert forall|k: int| 0 <= k < rs.len() implies gpu_numbers(rs)[k] == (#[trigger] rs[k])->Gpu_0.device_number by {
            if k < rs.len() - 1 {
                assert(d[k] == rs[k]);
            }
        }
    }
}

/// The resources of a reservation fit the calendar of `context`: they are that calendar's
/// room, or GPUs of that calendar's server, each with its configured model, in
/// non-decreasing device order.
pub open spec fn fits_calendar(config: ResourceConfig, rs: Seq<ResourceView>, context: Seq<char>) -> bool {
    match first_room_named(config.rooms@, context) {
        Some(i) => rs == seq![ResourceView::Room { name: config.rooms@[i].name@ }],
        None => match first_server_named(config.servers@, context) {
            Some(i) => rs.len() > 0 && nondecreasing(gpu_numbers(rs)) && forall|k: int|
                0 <= k < rs.len() ==> (#[trigger] rs[k] matches ResourceView::Gpu(g) && g.server
                    == config.servers@[i].name@ && device_model(config.servers@[i].devices@, g.device_number)
                    == Some(g.model)),
            None => false,
        },
    }
}

/// The event as the calendar gives it back: what was written, with the id the calendar
/// keeps it under and whoever created it.
pub open spec fn given_back(read: CalendarEvent, written: CalendarEvent) -> bool {
    &&& read.summary == written.summary
    &&& read.description == written.description
    &&& read.start == written.start
    &&& read.end == written.end
}

impl GoogleCalendarUsageRepository {
    /// A reservation written as an event reads back as itself from its resource's calendar,
    /// when the application created the event, the event's id is mapped back to the
    /// reservation, the period is not empty, the resources fit the calendar, the owner's
    /// address is a single line, and the closing marker of the managed part occurs in none of
    /// the address, the OS user name and the id; its notes read back trimmed (none when
    /// blank).
    pub proof fn lemma_event_round_trip(
        &self,
        written: CalendarEvent,
        read: CalendarEvent,
        u: ResourceUsageView,
        os_user: Option<Seq<char>>,
        context: Seq<char>,
    )
        requires
            event_holds(written, u, os_user),
            given_back(read, written),
            read.id matches Some(e) && self.id_mapper.domain_of(e@) == Some(u.id),
            read.creator_email matches Some(c) && c@ == self.service_account_email@,
            u.time_period.start < u.time_period.end,
            fits_calendar(self.config, u.resources, context),
            !u.owner_email.contains('\n'),
            u.owner_email.len() > 0 ==> u.owner_email.last() != '\r',
            !holds_text(u.owner_email, MANAGED_SECTION_END@),
            os_user matches Some(x) ==> !holds_text(x, MANAGED_SECTION_END@),
            !holds_text(u.id, MANAGED_SECTION_END@),
        ensures
            self.parsed_usage(read, context) == Ok::<ResourceUsageView, RepositoryErrorView>(
                ResourceUsageView { notes: notes_read_back(u.notes), ..u },
            ),
    {
        lemma_owner_round_trip(u.owner_email, os_user, u.id, u.notes);
        lemma_notes_round_trip(u.owner_email, os_user, u.id, u.notes);
        let rs = u.resources;
        let title = text_or_empty(read.summary);
        match first_room_named(self.config.rooms@, context) {
            Some(i) => {
                assert(self.parsed_resources(title, context) == Ok::<Seq<ResourceView>, RepositoryErrorView>(rs));
            },
            None => {
                let i = first_server_named(self.config.servers@, context)->0;
                let server = self.config.servers@[i];
                assert forall|k: int| 0 <= k < rs.len() implies (#[trigger] rs[k]) is Gpu by {}
                lemma_gpu_numbers_all(rs);
                let ns = gpu_numbers(rs);
                assert(rs[0] is Gpu);
                assert(gpu_spec_text(rs) is Some);
                assert(title == gpu_spec_text(rs)->0);
                lemma_gpu_title_round_trip(rs);
                lemma_sorted_unchanged(ns);
                assert(title_numbers(title) == Some(ns));
                assert forall|k: int| 0 <= k < ns.len() implies device_model(server.devices@, #[trigger] ns[k]) is Some by {
                    assert(ns[k] == rs[k]->Gpu_0.device_number);
                }
                lemma_known_devices(ns, server.devices@);
                let got = ns.map_values(
                    |n: u32|
                        ResourceView::Gpu(
                            GpuView {
                                server: server.name@,
                                device_number: n,
                                model: device_model(server.devices@, n)->0,
                            },
                        ),
                );
                assert(gpus_from_spec(title, server) == Ok::<Seq<ResourceView>, Seq<char>>(got));
                assert(got =~= rs) by {
                    assert forall|k: int| 0 <= k < rs.len() implies got[k] == rs[k] by {
                        assert(ns[k] == rs[k]->Gpu_0.device_number);
                    }
                }
                assert(self.parsed_resources(title, context) == Ok::<Seq<ResourceView>, RepositoryErrorView>(rs));
            },
        }
    }
}

} // verus!
