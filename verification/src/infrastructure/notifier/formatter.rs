//! Notification message formatting: resources and periods in the configured styles.
use crate::domain::resource::{resources_view, Resource, ResourceView};
use crate::infrastructure::config::notification_format::{DateFormat, ResourceStyle, TimeStyle};
use crate::domain::resource::TimePeriod;
use crate::infrastructure::notifier::local_time::{
    clock_text, fields_of, in_time_range, local_date_time_at, md_japanese_text, md_text,
    now_seconds, offset_choice, push_clock, push_md, push_md_japanese, push_ymd, tz_view,
    ymd_text, zone_offset, LocalDateTime,
};
use crate::text::{
    decimal, decimal_string, join, join_strings, lex_lt, owned, push_decimal, push_str,
    str_equal, str_less, strings_view,
};
use vstd::prelude::*;

verus! {

// ---------------------------------------------------------------------------
// Resources
// ---------------------------------------------------------------------------

/// The full line for one resource: "Thalys / A100 / GPU:0" for a GPU, the name for a room.
pub open spec fn resource_line(r: ResourceView) -> Seq<char> {
    match r {
        ResourceView::Gpu(g) => g.server + " / "@ + g.model + " / GPU:"@ + decimal(
            g.device_number as nat,
        ),
        ResourceView::Room { name } => name,
    }
}

/// Full style: one line per resource, in the given order.
pub open spec fn spec_format_full(rs: Seq<ResourceView>) -> Seq<char> {
    join(rs.map_values(|r: ResourceView| resource_line(r)), "\n"@)
}

/// `list` with `x` added at its place in strictly increasing order (kept once).
pub open spec fn insert_name(list: Seq<Seq<char>>, x: Seq<char>) -> Seq<Seq<char>>
    decreases list.len(),
{
    if list.len() == 0 {
        seq![x]
    } else if x == list[0] {
        list
    } else if lex_lt(x, list[0]) {
        seq![x] + list
    } else {
        seq![list[0]] + insert_name(list.drop_first(), x)
    }
}

/// The distinct names in increasing order (what a `BTreeSet` of them iterates).
pub open spec fn sorted_distinct(names: Seq<Seq<char>>) -> Seq<Seq<char>>
    decreases names.len(),
{
    if names.len() == 0 {
        Seq::empty()
    } else {
        insert_name(sorted_distinct(names.drop_last()), names.last())
    }
}

/// `list` with `x` added before the first element that is not smaller.
pub open spec fn insert_number(list: Seq<u32>, x: u32) -> Seq<u32>
    decreases list.len(),
{
    if list.len() == 0 {
        seq![x]
    } else if x <= list[0] {
        seq![x] + list
    } else {
        seq![list[0]] + insert_number(list.drop_first(), x)
    }
}

/// The numbers in non-decreasing order.
pub open spec fn sort_numbers(s: Seq<u32>) -> Seq<u32>
    decreases s.len(),
{
    if s.len() == 0 {
        Seq::empty()
    } else {
        insert_number(sort_numbers(s.drop_last()), s.last())
    }
}

/// The server names of the GPUs, in order and with repetitions.
pub open spec fn gpu_servers(rs: Seq<ResourceView>) -> Seq<Seq<char>>
    decreases rs.len(),
{
    if rs.len() == 0 {
        Seq::empty()
    } else {
        match rs.last() {
            ResourceView::Gpu(g) => gpu_servers(rs.drop_last()).push(g.server),
            ResourceView::Room { .. } => gpu_servers(rs.drop_last()),
        }
    }
}

/// The names of the rooms, in order and with repetitions.
pub open spec fn room_names(rs: Seq<ResourceView>) -> Seq<Seq<char>>
    decreases rs.len(),
{
    if rs.len() == 0 {
        Seq::empty()
    } else {
        match rs.last() {
            ResourceView::Gpu(_) => room_names(rs.drop_last()),
            ResourceView::Room { name } => room_names(rs.drop_last()).push(name),
        }
    }
}

/// The device numbers of the GPUs on `server`, in order and with repetitions.
pub open spec fn devices_on(rs: Seq<ResourceView>, server: Seq<char>) -> Seq<u32>
    decreases rs.len(),
{
    if rs.len() == 0 {
        Seq::empty()
    } else {
        match rs.last() {
            ResourceView::Gpu(g) => if g.server == server {
                devices_on(rs.drop_last(), server).push(g.device_number)
            } else {
                devices_on(rs.drop_last(), server)
            },
            ResourceView::Room { .. } => devices_on(rs.drop_last(), server),
        }
    }
}

/// Comma separated decimal numbers.
pub open spec fn number_list(ns: Seq<u32>) -> Seq<char> {
    join(ns.map_values(|n: u32| decimal(n as nat)), ","@)
}

/// The compact line of one server: its name and its sorted device numbers.
pub open spec fn compact_server_line(rs: Seq<ResourceView>, server: Seq<char>) -> Seq<char> {
    server + " "@ + number_list(sort_numbers(devices_on(rs, server)))
}

/// Compact style: servers in increasing name order, each with its sorted device numbers,
/// then the rooms in the given order.
pub open spec fn spec_format_compact(rs: Seq<ResourceView>) -> Seq<char> {
    join(
        sorted_distinct(gpu_servers(rs)).map_values(
            |s: Seq<char>| compact_server_line(rs, s),
        ) + room_names(rs),
        "\n"@,
    )
}

/// Server-only style: distinct server names in increasing order, then distinct room names
/// in increasing order.
pub open spec fn spec_format_server_only(rs: Seq<ResourceView>) -> Seq<char> {
    join(sorted_distinct(gpu_servers(rs)) + sorted_distinct(room_names(rs)), "\n"@)
}

/// The listing of resources in a style.
pub open spec fn spec_format_resources(rs: Seq<ResourceView>, style: ResourceStyle) -> Seq<char> {
    match style {
        ResourceStyle::Full => spec_format_full(rs),
        ResourceStyle::Compact => spec_format_compact(rs),
        ResourceStyle::ServerOnly => spec_format_server_only(rs),
    }
}

/// The numbers never decrease along the sequence.
pub open spec fn nondecreasing(s: Seq<u32>) -> bool {
    forall|i: int, j: int| 0 <= i <= j < s.len() ==> s[i] <= s[j]
}

/// Inserting a number puts it at some position of the list, and keeps a sorted list
/// sorted.
proof fn lemma_insert_number(list: Seq<u32>, x: u32) -> (k: int)
    ensures
        0 <= k <= list.len(),
        insert_number(list, x) == list.insert(k, x),
        nondecreasing(list) ==> nondecreasing(insert_number(list, x)),
    decreases list.len(),
{
    if list.len() == 0 {
        assert(insert_number(list, x) =~= list.insert(0, x));
        0
    } else if x <= list[0] {
        assert(insert_number(list, x) =~= list.insert(0, x));
        0
    } else {
        let rest = list.drop_first();
        let k = lemma_insert_number(rest, x);
        let r = insert_number(rest, x);
        assert(insert_number(list, x) =~= list.insert(k + 1, x));
        if nondecreasing(list) {
            assert(nondecreasing(rest)) by {
                assert forall|i: int, j: int| 0 <= i <= j < rest.len() implies rest[i] <= rest[j] by {
                    assert(rest[i] == list[i + 1] && rest[j] == list[j + 1]);
                }
            }
            assert forall|j: int| 0 <= j < r.len() implies list[0] <= #[trigger] r[j] by {
                if j < k {
                    assert(r[j] == list[j + 1]);
                } else if j > k {
                    assert(r[j] == list[j]);
                }
            }
            let out = insert_number(list, x);
            assert forall|i: int, j: int| 0 <= i <= j < out.len() implies out[i] <= out[j] by {
                if i == 0 {
                    if j > 0 {
                        assert(out[j] == r[j - 1]);
                    }
                } else {
                    assert(out[i] == r[i - 1] && out[j] == r[j - 1]);
                }
            }
        }
        k + 1
    }
}

/// Sorting numbers gives them in non-decreasing order, each as often as before.
pub proof fn lemma_sort_numbers(s: Seq<u32>)
    ensures
        nondecreasing(sort_numbers(s)),
        sort_numbers(s).to_multiset() == s.to_multiset(),
        sort_numbers(s).len() == s.len(),
    decreases s.len(),
{
    broadcast use vstd::seq_lib::group_to_multiset_ensures;

    if s.len() > 0 {
        let d = s.drop_last();
        lemma_sort_numbers(d);
        let k = lemma_insert_number(sort_numbers(d), s.last());
        vstd::seq_lib::to_multiset_insert(sort_numbers(d), k, s.last());
        assert(d.push(s.last()) =~= s);
    } else {
        assert(s.to_multiset() =~= sort_numbers(s).to_multiset());
    }
}

/// A number no smaller than any of a sorted list goes at its end.
proof fn lemma_insert_number_last(d: Seq<u32>, x: u32)
    requires
        nondecreasing(d),
        forall|i: int| 0 <= i < d.len() ==> d[i] <= x,
    ensures
        insert_number(d, x) == d.push(x),
    decreases d.len(),
{
    if d.len() == 0 {
        assert(insert_number(d, x) =~= d.push(x));
    } else if x <= d[0] {
        assert forall|i: int| 0 <= i < d.len() implies d[i] == x by {
            assert(d[0] <= d[i]);
        }
        assert(seq![x] + d =~= d.push(x));
    } else {
        let rest = d.drop_first();
        assert(nondecreasing(rest)) by {
            assert forall|i: int, j: int| 0 <= i <= j < rest.len() implies rest[i] <= rest[j] by {
                assert(rest[i] == d[i + 1] && rest[j] == d[j + 1]);
            }
        }
        assert forall|i: int| 0 <= i < rest.len() implies rest[i] <= x by {
            assert(rest[i] == d[i + 1]);
        }
        lemma_insert_number_last(rest, x);
        assert(seq![d[0]] + rest.push(x) =~= d.push(x));
    }
}

/// Sorting numbers already in order leaves them as they are.
pub proof fn lemma_sorted_unchanged(s: Seq<u32>)
    requires
        nondecreasing(s),
    ensures
        sort_numbers(s) == s,
    decreases s.len(),
{
    if s.len() > 0 {
        let d = s.drop_last();
        assert(nondecreasing(d)) by {
            assert forall|i: int, j: int| 0 <= i <= j < d.len() implies d[i] <= d[j] by {
                assert(d[i] == s[i] && d[j] == s[j]);
            }
        }
        lemma_sorted_unchanged(d);
        assert forall|i: int| 0 <= i < d.len() implies d[i] <= s.last() by {
            assert(d[i] == s[i]);
            assert(s[i] <= s[s.len() - 1]);
        }
        lemma_insert_number_last(d, s.last());
        assert(d.push(s.last()) =~= s);
    }
}

/// Adds a name to a strictly increasing list of names, unless it is already there.
pub fn insert_name_sorted(list: &mut Vec<String>, x: &str)
    ensures
        strings_view(final(list)@) == insert_name(strings_view(old(list)@), x@),
{
    let ghost v = strings_view(list@);
    assert(v.subrange(0, v.len() as int) =~= v);
    assert(v.subrange(0, 0) + v =~= v);
    let mut i: usize = 0;
    while i < list.len()
        invariant
            list@ == old(list)@,
            v == strings_view(list@),
            i <= list@.len(),
            insert_name(v, x@) == v.subrange(0, i as int) + insert_name(
                v.subrange(i as int, v.len() as int),
                x@,
            ),
        decreases list@.len() - i,
    {
        let ghost rest = v.subrange(i as int, v.len() as int);
        assert(rest[0] == v[i as int]);
        if str_equal(x, list[i].as_str()) {
            assert(insert_name(rest, x@) == rest);
            assert(v.subrange(0, i as int) + rest =~= v);
            return;
        }
        if str_less(x, list[i].as_str()) {
            list.insert(i, owned(x));
            assert(strings_view(list@) =~= v.subrange(0, i as int) + (seq![x@] + rest));
            return;
        }
        assert(rest.drop_first() =~= v.subrange(i + 1, v.len() as int));
        assert(v.subrange(0, i + 1) =~= v.subrange(0, i as int) + seq![rest[0]]);
        i = i + 1;
    }
    let ghost before = list@;
    list.push(owned(x));
    assert(v.subrange(i as int, v.len() as int) =~= Seq::<Seq<char>>::empty());
    assert(v.subrange(0, i as int) =~= v);
    assert(insert_name(Seq::<Seq<char>>::empty(), x@) == seq![x@]);
    assert(strings_view(list@) =~= strings_view(before).push(x@));
    assert(v + seq![x@] =~= v.push(x@));
}

/// Adds a number to a non-decreasing list, before the first element that is not smaller.
pub fn insert_number_sorted(list: &mut Vec<u32>, x: u32)
    ensures
        final(list)@ == insert_number(old(list)@, x),
{
    let ghost v = list@;
    assert(v.subrange(0, v.len() as int) =~= v);
    assert(v.subrange(0, 0) + v =~= v);
    let mut i: usize = 0;
    while i < list.len()
        invariant
            list@ == v,
            v == old(list)@,
            i <= v.len(),
            insert_number(v, x) == v.subrange(0, i as int) + insert_number(
                v.subrange(i as int, v.len() as int),
                x,
            ),
        decreases v.len() - i,
    {
        let ghost rest = v.subrange(i as int, v.len() as int);
        assert(rest[0] == v[i as int]);
        if x <= list[i] {
            assert(insert_number(rest, x) == seq![x] + rest);
            list.insert(i, x);
            assert(list@ =~= v.subrange(0, i as int) + (seq![x] + rest));
            return;
        }
        assert(rest.drop_first() =~= v.subrange(i + 1, v.len() as int));
        assert(v.subrange(0, i + 1) =~= v.subrange(0, i as int) + seq![rest[0]]);
        i = i + 1;
    }
    list.push(x);
    assert(v.subrange(i as int, v.len() as int) =~= Seq::<u32>::empty());
    assert(v.subrange(0, i as int) =~= v);
    assert(insert_number(Seq::<u32>::empty(), x) == seq![x]);
    assert(v + seq![x] =~= v.push(x));
}

/// The full line for one resource.
pub fn format_resource_line(r: &Resource) -> (s: String)
    ensures
        s@ == resource_line(r@),
{
    match r {
        Resource::Gpu(g) => {
            let mut s = String::new();
            push_str(&mut s, g.server());
            push_str(&mut s, " / ");
            push_str(&mut s, g.model());
            push_str(&mut s, " / GPU:");
            push_decimal(&mut s, g.device_number() as u64);
            s
        },
        Resource::Room { name } => name.clone(),
    }
}

/// Full style: "Thalys / A100 80GB PCIe / GPU:0", one line per resource.
pub fn format_resources_full(resources: &[Resource]) -> (s: String)
    ensures
        s@ == spec_format_full(resources_view(resources@)),
{
    let ghost rv = resources_view(resources@);
    let mut lines: Vec<String> = Vec::new();
    let mut i: usize = 0;
    while i < resources.len()
        invariant
            rv == resources_view(resources@),
            i <= resources@.len(),
            strings_view(lines@) == rv.subrange(0, i as int).map_values(
                |r: ResourceView| resource_line(r),
            ),
        decreases resources@.len() - i,
    {
        let ghost before = lines@;
        lines.push(format_resource_line(&resources[i]));
        proof {
            assert(strings_view(lines@) =~= strings_view(before).push(resource_line(rv[i as int])));
            assert(rv.subrange(0, i + 1).map_values(|r: ResourceView| resource_line(r))
                =~= rv.subrange(0, i as int).map_values(|r: ResourceView| resource_line(r)).push(
                resource_line(rv[i as int]),
            ));
        }
        i = i + 1;
    }
    assert(rv.subrange(0, rv.len() as int) =~= rv);
    join_strings(lines.as_slice(), "\n")
}

proof fn lemma_prefix_step(rs: Seq<Resource>, i: int)
    requires
        0 <= i < rs.len(),
    ensures
        resources_view(rs.subrange(0, i + 1)).drop_last() == resources_view(rs.subrange(0, i)),
        resources_view(rs.subrange(0, i + 1)).last() == rs[i]@,
        resources_view(rs.subrange(0, i + 1)).len() == i + 1,
{
    assert(resources_view(rs.subrange(0, i + 1)).drop_last() =~= resources_view(
        rs.subrange(0, i),
    ));
}

/// The sorted distinct server names of the GPUs.
fn sorted_gpu_servers(resources: &[Resource]) -> (servers: Vec<String>)
    ensures
        strings_view(servers@) == sorted_distinct(gpu_servers(resources_view(resources@))),
{
    let mut servers: Vec<String> = Vec::new();
    let mut i: usize = 0;
    while i < resources.len()
        invariant
            i <= resources@.len(),
            strings_view(servers@) == sorted_distinct(
                gpu_servers(resources_view(resources@.subrange(0, i as int))),
            ),
        decreases resources@.len() - i,
    {
        proof {
            lemma_prefix_step(resources@, i as int);
        }
        match &resources[i] {
            Resource::Gpu(g) => {
                insert_name_sorted(&mut servers, g.server());
                proof {
                    let p = resources_view(resources@.subrange(0, i + 1));
                    assert(gpu_servers(p) == gpu_servers(p.drop_last()).push(g.server@));
                    assert(gpu_servers(p).drop_last() =~= gpu_servers(p.drop_last()));
                }
            },
            Resource::Room { .. } => {},
        }
        i = i + 1;
    }
    assert(resources@.subrange(0, resources@.len() as int) =~= resources@);
    servers
}

/// The sorted distinct room names.
fn sorted_room_names(resources: &[Resource]) -> (rooms: Vec<String>)
    ensures
        strings_view(rooms@) == sorted_distinct(room_names(resources_view(resources@))),
{
    let mut rooms: Vec<String> = Vec::new();
    let mut i: usize = 0;
    while i < resources.len()
        invariant
            i <= resources@.len(),
            strings_view(rooms@) == sorted_distinct(
                room_names(resources_view(resources@.subrange(0, i as int))),
            ),
        decreases resources@.len() - i,
    {
        proof {
            lemma_prefix_step(resources@, i as int);
        }
        match &resources[i] {
            Resource::Gpu(_) => {},
            Resource::Room { name } => {
                insert_name_sorted(&mut rooms, name.as_str());
                proof {
                    let p = resources_view(resources@.subrange(0, i + 1));
                    assert(room_names(p).drop_last() =~= room_names(p.drop_last()));
                }
            },
        }
        i = i + 1;
    }
    assert(resources@.subrange(0, resources@.len() as int) =~= resources@);
    rooms
}

/// The room names in the given order.
fn room_names_in_order(resources: &[Resource]) -> (rooms: Vec<String>)
    ensures
        strings_view(rooms@) == room_names(resources_view(resources@)),
{
    let mut rooms: Vec<String> = Vec::new();
    let mut i: usize = 0;
    while i < resources.len()
        invariant
            i <= resources@.len(),
            strings_view(rooms@) == room_names(resources_view(resources@.subrange(0, i as int))),
        decreases resources@.len() - i,
    {
        proof {
            lemma_prefix_step(resources@, i as int);
        }
        let ghost before = rooms@;
        match &resources[i] {
            Resource::Gpu(_) => {},
            Resource::Room { name } => {
                rooms.push(name.clone());
                assert(strings_view(rooms@) =~= strings_view(before).push(name@));
            },
        }
        i = i + 1;
    }
    assert(resources@.subrange(0, resources@.len() as int) =~= resources@);
    rooms
}

/// The sorted device numbers of the GPUs on `server`.
fn sorted_devices_on(resources: &[Resource], server: &str) -> (devices: Vec<u32>)
    ensures
        devices@ == sort_numbers(devices_on(resources_view(resources@), server@)),
{
    let mut devices: Vec<u32> = Vec::new();
    let mut i: usize = 0;
    while i < resources.len()
        invariant
            i <= resources@.len(),
            devices@ == sort_numbers(
                devices_on(resources_view(resources@.subrange(0, i as int)), server@),
            ),
        decreases resources@.len() - i,
    {
        proof {
            lemma_prefix_step(resources@, i as int);
        }
        match &resources[i] {
            Resource::Gpu(g) => {
                if str_equal(g.server(), server) {
                    insert_number_sorted(&mut devices, g.device_number());
                    proof {
                        let p = resources_view(resources@.subrange(0, i + 1));
                        assert(devices_on(p, server@).drop_last() =~= devices_on(
                            p.drop_last(),
                            server@,
                        ));
                    }
                }
            },
            Resource::Room { .. } => {},
        }
        i = i + 1;
    }
    assert(resources@.subrange(0, resources@.len() as int) =~= resources@);
    devices
}

/// Comma separated decimal numbers.
pub fn format_number_list(ns: &[u32]) -> (s: String)
    ensures
        s@ == number_list(ns@),
{
    let mut parts: Vec<String> = Vec::new();
    let mut i: usize = 0;
    while i < ns.len()
        invariant
            i <= ns@.len(),
            strings_view(parts@) == ns@.subrange(0, i as int).map_values(
                |n: u32| decimal(n as nat),
            ),
        decreases ns@.len() - i,
    {
        let ghost before = parts@;
        parts.push(decimal_string(ns[i] as u64));
        proof {
            assert(strings_view(parts@) =~= strings_view(before).push(decimal(ns@[i as int] as nat)));
            assert(ns@.subrange(0, i + 1).map_values(|n: u32| decimal(n as nat)) =~= ns@.subrange(
                0,
                i as int,
            ).map_values(|n: u32| decimal(n as nat)).push(decimal(ns@[i as int] as nat)));
        }
        i = i + 1;
    }
    assert(ns@.subrange(0, ns@.len() as int) =~= ns@);
    join_strings(parts.as_slice(), ",")
}

/// Compact style: "Thalys 0,1,2", servers in name order, then the rooms.
pub fn format_resources_compact(resources: &[Resource]) -> (s: String)
    ensures
        s@ == spec_format_compact(resources_view(resources@)),
{
    let ghost rv = resources_view(resources@);
    let servers = sorted_gpu_servers(resources);
    let ghost sv = strings_view(servers@);
    let mut lines: Vec<String> = Vec::new();
    let mut i: usize = 0;
    while i < servers.len()
        invariant
            rv == resources_view(resources@),
            sv == strings_view(servers@),
            i <= servers@.len(),
            strings_view(lines@) == sv.subrange(0, i as int).map_values(
                |s: Seq<char>| compact_server_line(rv, s),
            ),
        decreases servers@.len() - i,
    {
        let devices = sorted_devices_on(resources, servers[i].as_str());
        let mut line = servers[i].clone();
        push_str(&mut line, " ");
        let list = format_number_list(devices.as_slice());
        push_str(&mut line, list.as_str());
        let ghost before = lines@;
        lines.push(line);
        proof {
            assert(sv[i as int] == servers@[i as int]@);
            assert(strings_view(lines@) =~= strings_view(before).push(
                compact_server_line(rv, sv[i as int]),
            ));
            assert(sv.subrange(0, i + 1).map_values(|s: Seq<char>| compact_server_line(rv, s))
                =~= sv.subrange(0, i as int).map_values(
                |s: Seq<char>| compact_server_line(rv, s),
            ).push(compact_server_line(rv, sv[i as int])));
        }
        i = i + 1;
    }
    assert(sv.subrange(0, sv.len() as int) =~= sv);
    let rooms = room_names_in_order(resources);
    let ghost server_lines = lines@;
    let mut j: usize = 0;
    while j < rooms.len()
        invariant
            j <= rooms@.len(),
            lines@ == server_lines + rooms@.subrange(0, j as int),
        decreases rooms@.len() - j,
    {
        lines.push(rooms[j].clone());
        assert(server_lines + rooms@.subrange(0, j + 1) =~= (server_lines + rooms@.subrange(
            0,
            j as int,
        )).push(rooms@[j as int]));
        j = j + 1;
    }
    proof {
        assert(rooms@.subrange(0, rooms@.len() as int) =~= rooms@);
        assert(strings_view(lines@) =~= strings_view(server_lines) + strings_view(rooms@));
    }
    join_strings(lines.as_slice(), "\n")
}

/// Server-only style: "Thalys", distinct servers in name order, then distinct rooms.
pub fn format_resources_server_only(resources: &[Resource]) -> (s: String)
    ensures
        s@ == spec_format_server_only(resources_view(resources@)),
{
    let mut names = sorted_gpu_servers(resources);
    let rooms = sorted_room_names(resources);
    let ghost server_names = names@;
    let mut j: usize = 0;
    while j < rooms.len()
        invariant
            j <= rooms@.len(),
            names@ == server_names + rooms@.subrange(0, j as int),
        decreases rooms@.len() - j,
    {
        names.push(rooms[j].clone());
        assert(server_names + rooms@.subrange(0, j + 1) =~= (server_names + rooms@.subrange(
            0,
            j as int,
        )).push(rooms@[j as int]));
        j = j + 1;
    }
    proof {
        assert(rooms@.subrange(0, rooms@.len() as int) =~= rooms@);
        assert(strings_view(names@) =~= strings_view(server_names) + strings_view(rooms@));
    }
    join_strings(names.as_slice(), "\n")
}

/// Resources listed in the given style.
pub fn format_resources_styled(resources: &[Resource], style: ResourceStyle) -> (s: String)
    ensures
        s@ == spec_format_resources(resources_view(resources@), style),
{
    match style {
        ResourceStyle::Full => format_resources_full(resources),
        ResourceStyle::Compact => format_resources_compact(resources),
        ResourceStyle::ServerOnly => format_resources_server_only(resources),
    }
}


// ---------------------------------------------------------------------------
// Periods
// ---------------------------------------------------------------------------

/// The chrono format string of a date format.
pub fn date_format_string(format: DateFormat) -> (s: &'static str)
    ensures
        format == DateFormat::Ymd ==> s@ == "%Y-%m-%d"@,
        format == DateFormat::Md ==> s@ == "%-m/%-d"@,
        format == DateFormat::MdJapanese ==> s@ == "%-m月%-d日"@,
{
    match format {
        DateFormat::Ymd => "%Y-%m-%d",
        DateFormat::Md => "%-m/%-d",
        DateFormat::MdJapanese => "%-m月%-d日",
    }
}

/// The date of a local time in a date format.
pub open spec fn date_text(ldt: LocalDateTime, format: DateFormat) -> Seq<char> {
    match format {
        DateFormat::Ymd => ymd_text(ldt),
        DateFormat::Md => md_text(ldt),
        DateFormat::MdJapanese => md_japanese_text(ldt),
    }
}

/// Appends the date of a local time in a date format.
fn push_date(s: &mut String, ldt: &LocalDateTime, format: DateFormat)
    ensures
        final(s)@ == old(s)@ + date_text(*ldt, format),
{
    match format {
        DateFormat::Ymd => push_ymd(s, ldt),
        DateFormat::Md => push_md(s, ldt),
        DateFormat::MdJapanese => push_md_japanese(s, ldt),
    }
}

/// Smart style: "1/15 19:00-21:00" within one local day,
/// "1/15 19:00 - 1/16 09:00" across days.
pub open spec fn spec_smart(s: LocalDateTime, e: LocalDateTime, format: DateFormat) -> Seq<char> {
    if s.day_number == e.day_number {
        date_text(s, format) + " "@ + clock_text(s) + "-"@ + clock_text(e)
    } else {
        date_text(s, format) + " "@ + clock_text(s) + " - "@ + date_text(e, format) + " "@
            + clock_text(e)
    }
}

/// The word for a start day relative to today, or the date when it is not near.
pub open spec fn relative_day(s: LocalDateTime, today: int, format: DateFormat) -> Seq<char> {
    let diff = s.day_number - today;
    if diff == 0 {
        "今日"@
    } else if diff == 1 {
        "明日"@
    } else if diff == 2 {
        "明後日"@
    } else if diff == -1 {
        "昨日"@
    } else {
        date_text(s, format)
    }
}

/// Relative style: "今日 19:00-21:00" within one local day; across days the smart style.
pub open spec fn spec_relative(
    s: LocalDateTime,
    e: LocalDateTime,
    today: int,
    format: DateFormat,
) -> Seq<char> {
    if s.day_number == e.day_number {
        relative_day(s, today, format) + " "@ + clock_text(s) + "-"@ + clock_text(e)
    } else {
        spec_smart(s, e, format)
    }
}

/// Full style: "2024-01-15 19:00 - 2024-01-15 21:00 (Asia/Tokyo)"; the zone is named only
/// when the setting names a known zone.
pub open spec fn spec_full(s: LocalDateTime, e: LocalDateTime, zone: Option<Seq<char>>) -> Seq<
    char,
> {
    let range = ymd_text(s) + " "@ + clock_text(s) + " - "@ + ymd_text(e) + " "@ + clock_text(e);
    match zone {
        Some(n) => range + " ("@ + n + ")"@,
        None => range,
    }
}

/// The local times of a period's ends under a zone setting.
#[verifier::opaque]
pub open spec fn local_ends(
    p: TimePeriod,
    tz: Option<Seq<char>>,
    s: LocalDateTime,
    e: LocalDateTime,
) -> bool {
    exists|os: int, oe: int|
        offset_choice(tz, p.start as int, os) && offset_choice(tz, p.end as int, oe) && fields_of(
            s,
            p.start + os,
        ) && fields_of(e, p.end + oe)
}

/// The period lies within the calendar's range.
pub open spec fn period_in_range(p: TimePeriod) -> bool {
    in_time_range(p.start as int) && in_time_range(p.end as int)
}

/// Smart style for a period in a zone setting.
pub fn format_time_smart(period: &TimePeriod, timezone: Option<&str>, date_format: DateFormat) -> (r:
    String)
    requires
        period_in_range(*period),
    ensures
        exists|s: LocalDateTime, e: LocalDateTime|
            local_ends(*period, tz_view(timezone), s, e) && r@ == spec_smart(s, e, date_format),
{
    let (start, os) = local_date_time_at(timezone, period.start);
    let (end, oe) = local_date_time_at(timezone, period.end);
    let mut r = String::new();
    push_date(&mut r, &start, date_format);
    push_str(&mut r, " ");
    push_clock(&mut r, &start);
    if start.day_number == end.day_number {
        push_str(&mut r, "-");
        push_clock(&mut r, &end);
    } else {
        push_str(&mut r, " - ");
        push_date(&mut r, &end, date_format);
        push_str(&mut r, " ");
        push_clock(&mut r, &end);
    }
    assert(r@ =~= spec_smart(start, end, date_format));
    assert(local_ends(*period, tz_view(timezone), start, end)) by {
        reveal(local_ends);
    }
    r
}

/// Relative style between two local times, with today's day number given.
pub fn format_relative_local(
    start: &LocalDateTime,
    end: &LocalDateTime,
    today: i64,
    date_format: DateFormat,
) -> (r: String)
    ensures
        r@ == spec_relative(*start, *end, today as int, date_format),
{
    let mut r = String::new();
    if start.day_number != end.day_number {
        push_date(&mut r, start, date_format);
        push_str(&mut r, " ");
        push_clock(&mut r, start);
        push_str(&mut r, " - ");
        push_date(&mut r, end, date_format);
        push_str(&mut r, " ");
        push_clock(&mut r, end);
        assert(r@ =~= spec_smart(*start, *end, date_format));
        return r;
    }
    let ghost diff = start.day_number - today;
    if start.day_number == today {
        push_str(&mut r, "今日");
    } else if today < i64::MAX && start.day_number == today + 1 {
        push_str(&mut r, "明日");
    } else if today < i64::MAX - 1 && start.day_number == today + 2 {
        push_str(&mut r, "明後日");
    } else if today > i64::MIN && start.day_number == today - 1 {
        push_str(&mut r, "昨日");
    } else {
        push_date(&mut r, start, date_format);
    }
    assert(r@ =~= relative_day(*start, today as int, date_format));
    push_str(&mut r, " ");
    push_clock(&mut r, start);
    push_str(&mut r, "-");
    push_clock(&mut r, end);
    assert(r@ =~= spec_relative(*start, *end, today as int, date_format));
    r
}

/// Relative style for a period in a zone setting, with "today" taken at the instant `now`.
pub fn format_time_relative_at(
    period: &TimePeriod,
    timezone: Option<&str>,
    date_format: DateFormat,
    now: i64,
) -> (r: String)
    requires
        period_in_range(*period),
        in_time_range(now as int),
    ensures
        exists|s: LocalDateTime, e: LocalDateTime, t: LocalDateTime|
            #![trigger local_ends(*period, tz_view(timezone), s, e), local_now(tz_view(timezone), now as int, t)]
            local_ends(*period, tz_view(timezone), s, e) && local_now(
                tz_view(timezone),
                now as int,
                t,
            ) && r@ == spec_relative(s, e, t.day_number as int, date_format),
{
    let (start, os) = local_date_time_at(timezone, period.start);
    let (end, oe) = local_date_time_at(timezone, period.end);
    let (today, on) = local_date_time_at(timezone, now);
    assert(local_ends(*period, tz_view(timezone), start, end)) by {
        reveal(local_ends);
    }
    assert(local_now(tz_view(timezone), now as int, today)) by {
        reveal(local_now);
    }
    format_relative_local(&start, &end, today.day_number, date_format)
}

/// `t` is the local time of the instant `now` under the zone setting.
#[verifier::opaque]
pub open spec fn local_now(tz: Option<Seq<char>>, now: int, t: LocalDateTime) -> bool {
    exists|on: int| offset_choice(tz, now, on) && fields_of(t, now + on)
}

/// `r` is the relative style of the period in the zone setting with "today" the local day of
/// the instant `now`.
pub open spec fn relative_at(
    r: Seq<char>,
    period: TimePeriod,
    tz: Option<Seq<char>>,
    format: DateFormat,
    now: int,
) -> bool {
    exists|s: LocalDateTime, e: LocalDateTime, t: LocalDateTime|
        #![trigger local_ends(period, tz, s, e), local_now(tz, now, t)]
        local_ends(period, tz, s, e) && local_now(tz, now, t) && r == spec_relative(
            s,
            e,
            t.day_number as int,
            format,
        )
}

/// Relative style for a period in a zone setting, with "today" the local day of the current
/// instant (read from the clock, and taken at the nearest end of the calendar's range should
/// the clock read beyond it).
pub fn format_time_relative(period: &TimePeriod, timezone: Option<&str>, date_format: DateFormat) -> (r:
    String)
    requires
        period_in_range(*period),
    ensures
        exists|now: int| in_time_range(now) && relative_at(r@, *period, tz_view(timezone), date_format, now),
{
    let clock = now_seconds();
    let now: i64 = if clock < -8_000_000_000_000 {
        -8_000_000_000_000
    } else if clock > 8_000_000_000_000 {
        8_000_000_000_000
    } else {
        clock
    };
    let r = format_time_relative_at(period, timezone, date_format, now);
    assert(in_time_range(now as int));
    assert(relative_at(r@, *period, tz_view(timezone), date_format, now as int));
    assert(in_time_range(now as int) && relative_at(
        r@,
        *period,
        tz_view(timezone),
        date_format,
        now as int,
    ));
    r
}

/// Under a zone known at the instants, every local reading of them falls on the same days.
proof fn lemma_known_zone_same_days(
    period: TimePeriod,
    zone: Seq<char>,
    now: int,
    s: LocalDateTime,
    e: LocalDateTime,
    t: LocalDateTime,
    s0: LocalDateTime,
    e0: LocalDateTime,
    t0: LocalDateTime,
)
    requires
        zone_offset(zone, period.start as int) is Some,
        zone_offset(zone, period.end as int) is Some,
        zone_offset(zone, now) is Some,
        local_ends(period, Some(zone), s, e),
        local_now(Some(zone), now, t),
        local_ends(period, Some(zone), s0, e0),
        local_now(Some(zone), now, t0),
    ensures
        s0.day_number == s.day_number,
        e0.day_number == e.day_number,
        t0.day_number == t.day_number,
{
    reveal(local_ends);
    reveal(local_now);
    reveal(fields_of);
    let tz = Some(zone);
    let (os, oe) = choose|os: int, oe: int|
        offset_choice(tz, period.start as int, os) && offset_choice(tz, period.end as int, oe)
            && fields_of(s, period.start + os) && fields_of(e, period.end + oe);
    let (os0, oe0) = choose|os: int, oe: int|
        offset_choice(tz, period.start as int, os) && offset_choice(tz, period.end as int, oe)
            && fields_of(s0, period.start + os) && fields_of(e0, period.end + oe);
    let on = choose|on: int| offset_choice(tz, now, on) && fields_of(t, now + on);
    let on0 = choose|on: int| offset_choice(tz, now, on) && fields_of(t0, now + on);
    assert(os == os0 && oe == oe0 && on == on0);
}

/// With a zone that is known at the period's ends and at `now`, the relative style names the
/// start's day against the local day of `now`: a period within one local day that starts on
/// the day of `now` reads "今日", the next day "明日", the day after "明後日", the day before
/// "昨日".
pub proof fn lemma_relative_day_word(
    r: Seq<char>,
    period: TimePeriod,
    zone: Seq<char>,
    format: DateFormat,
    now: int,
    s: LocalDateTime,
    e: LocalDateTime,
    t: LocalDateTime,
)
    requires
        relative_at(r, period, Some(zone), format, now),
        zone_offset(zone, period.start as int) is Some,
        zone_offset(zone, period.end as int) is Some,
        zone_offset(zone, now) is Some,
        local_ends(period, Some(zone), s, e),
        local_now(Some(zone), now, t),
        s.day_number == e.day_number,
    ensures
        s.day_number == t.day_number ==> r.subrange(0, 3) == "今日 "@,
        s.day_number == t.day_number + 1 ==> r.subrange(0, 3) == "明日 "@,
        s.day_number == t.day_number + 2 ==> r.subrange(0, 4) == "明後日 "@,
        s.day_number == t.day_number - 1 ==> r.subrange(0, 3) == "昨日 "@,
{
    reveal(local_ends);
    reveal(local_now);
    reveal_strlit("今日");
    reveal_strlit("明日");
    reveal_strlit("明後日");
    reveal_strlit("昨日");
    reveal_strlit(" ");
    reveal_strlit("今日 ");
    reveal_strlit("明日 ");
    reveal_strlit("明後日 ");
    reveal_strlit("昨日 ");
    let (s0, e0, t0) = choose|s0: LocalDateTime, e0: LocalDateTime, t0: LocalDateTime|
        local_ends(period, Some(zone), s0, e0) && local_now(Some(zone), now, t0) && r
            == spec_relative(s0, e0, t0.day_number as int, format);
    lemma_known_zone_same_days(period, zone, now, s, e, t, s0, e0, t0);
    assert(s0.day_number == s.day_number);
    assert(e0.day_number == e.day_number);
    assert(t0.day_number == t.day_number);
    let w = relative_day(s0, t0.day_number as int, format);
    let rest = clock_text(s0) + "-"@ + clock_text(e0);
    assert(r =~= w + " "@ + rest);
    if s.day_number - t.day_number == 0 || s.day_number - t.day_number == 1 || s.day_number
        - t.day_number == -1 {
        assert(r.subrange(0, 3) =~= w + " "@);
    }
    if s.day_number - t.day_number == 2 {
        assert(r.subrange(0, 4) =~= w + " "@);
    }
}

/// Whether the zone setting names a zone that is known at the instant.
pub open spec fn zone_named(tz: Option<Seq<char>>, t: int) -> Option<Seq<char>> {
    match tz {
        Some(n) => if zone_offset(n, t) is Some {
            Some(n)
        } else {
            None
        },
        None => None,
    }
}

/// Full style for a period in a zone setting.
pub fn format_time_full(period: &TimePeriod, timezone: Option<&str>) -> (r: String)
    requires
        period_in_range(*period),
    ensures
        exists|s: LocalDateTime, e: LocalDateTime|
            local_ends(*period, tz_view(timezone), s, e) && r@ == spec_full(
                s,
                e,
                zone_named(tz_view(timezone), period.start as int),
            ),
{
    let (start, os) = local_date_time_at(timezone, period.start);
    let (end, oe) = local_date_time_at(timezone, period.end);
    let mut r = String::new();
    push_ymd(&mut r, &start);
    push_str(&mut r, " ");
    push_clock(&mut r, &start);
    push_str(&mut r, " - ");
    push_ymd(&mut r, &end);
    push_str(&mut r, " ");
    push_clock(&mut r, &end);
    let ghost range = r@;
    match timezone {
        Some(name) => {
            if crate::infrastructure::notifier::local_time::zone_is_known(name, period.start) {
                push_str(&mut r, " (");
                push_str(&mut r, name);
                push_str(&mut r, ")");
            }
        },
        None => {},
    }
    assert(local_ends(*period, tz_view(timezone), start, end)) by {
        reveal(local_ends);
    }
    assert(r@ =~= spec_full(start, end, zone_named(tz_view(timezone), period.start as int)));
    r
}

/// A period in the given styles.
pub open spec fn time_styled_ok(
    r: Seq<char>,
    period: TimePeriod,
    tz: Option<Seq<char>>,
    style: TimeStyle,
    format: DateFormat,
) -> bool {
    exists|s: LocalDateTime, e: LocalDateTime|
        #![trigger local_ends(period, tz, s, e)]
        local_ends(period, tz, s, e) && match style {
            TimeStyle::Full => r == spec_full(s, e, zone_named(tz, period.start as int)),
            TimeStyle::Smart => r == spec_smart(s, e, format),
            TimeStyle::Relative => exists|now: int, t: LocalDateTime|
                #![trigger local_now(tz, now, t)]
                in_time_range(now) && local_now(tz, now, t) && r == spec_relative(
                    s,
                    e,
                    t.day_number as int,
                    format,
                ),
        }
}

/// A period in the given time style and date format.
pub fn format_time_styled(
    period: &TimePeriod,
    timezone: Option<&str>,
    style: TimeStyle,
    date_format: DateFormat,
) -> (r: String)
    requires
        period_in_range(*period),
    ensures
        time_styled_ok(r@, *period, tz_view(timezone), style, date_format),
{
    match style {
        TimeStyle::Full => {
            let r = format_time_full(period, timezone);
            proof {
                let (s, e) = choose|s: LocalDateTime, e: LocalDateTime|
                    local_ends(*period, tz_view(timezone), s, e) && r@ == spec_full(
                        s,
                        e,
                        zone_named(tz_view(timezone), period.start as int),
                    );
                assert(local_ends(*period, tz_view(timezone), s, e));
                assert(r@ == spec_full(s, e, zone_named(tz_view(timezone), period.start as int)));
                assert(time_styled_ok(r@, *period, tz_view(timezone), style, date_format));
            }
            r
        },
        TimeStyle::Smart => format_time_smart(period, timezone, date_format),
        TimeStyle::Relative => {
            let r = format_time_relative(period, timezone, date_format);
            proof {
                let now = choose|now: int|
                    in_time_range(now) && relative_at(r@, *period, tz_view(timezone), date_format, now);
                let (s, e, t) = choose|s: LocalDateTime, e: LocalDateTime, t: LocalDateTime|
                    local_ends(*period, tz_view(timezone), s, e) && local_now(tz_view(timezone), now, t)
                        && r@ == spec_relative(s, e, t.day_number as int, date_format);
                assert(local_ends(*period, tz_view(timezone), s, e));
                assert(local_now(tz_view(timezone), now, t));
                assert(time_styled_ok(r@, *period, tz_view(timezone), style, date_format));
            }
            r
        },
    }
}

} // verus!
