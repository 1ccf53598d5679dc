//! Reading the GPUs of a reservation from its event title, such as "0,1,5,7" or "0-2,5".
use crate::domain::resource::{Gpu, GpuView, Resource, ResourceView, resources_view};
use crate::infrastructure::config::loader::trimmed_pieces;
use crate::infrastructure::config::resource_config::{DeviceConfig, ServerConfig};
use crate::infrastructure::notifier::formatter::number_list;
use crate::parse::{is_digit, lemma_decimal_digits, lemma_decimal_parses_back, lemma_decimal_trimmed, parse_unsigned, parse_unsigned_at_most, pieces_view, split_chars, trim_chars};
use crate::text::{chars_of, decimal, first_index, lemma_first_index, lemma_split_join, owned, push_decimal, push_str, split, string_from_chars, trim};
use vstd::prelude::*;

verus! {

/// The device numbers a piece of a title names: one number, or an increasing range
/// "first-last" with both ends included.
pub open spec fn piece_numbers(p: Seq<char>) -> Option<Seq<u32>> {
    match first_index(p, '-') {
        None => match parse_unsigned(p, u32::MAX as nat) {
            Some(n) => Some(seq![n as u32]),
            None => None,
        },
        Some(k) => match (
            parse_unsigned(p.subrange(0, k), u32::MAX as nat),
            parse_unsigned(p.subrange(k + 1, p.len() as int), u32::MAX as nat),
        ) {
            (Some(a), Some(b)) => if a <= b {
                Some(Seq::new((b - a + 1) as nat, |i: int| (a + i) as u32))
            } else {
                None
            },
            _ => None,
        },
    }
}

/// The device numbers the pieces name, piece after piece; none when a piece names none.
pub open spec fn pieces_numbers(pieces: Seq<Seq<char>>) -> Option<Seq<u32>>
    decreases pieces.len(),
{
    if pieces.len() == 0 {
        Some(Seq::empty())
    } else {
        match (pieces_numbers(pieces.drop_last()), piece_numbers(pieces.last())) {
            (Some(a), Some(b)) => Some(a + b),
            _ => None,
        }
    }
}

/// The device numbers a title names: its comma-separated, trimmed pieces.
pub open spec fn title_numbers(title: Seq<char>) -> Option<Seq<u32>> {
    pieces_numbers(trimmed_pieces(title))
}

/// The model of the server's first device with the number, if any.
pub open spec fn device_model(devices: Seq<DeviceConfig>, id: u32) -> Option<Seq<char>> {
    match first_index(devices.map_values(|d: DeviceConfig| d.id), id) {
        Some(i) => Some(devices[i].model@),
        None => None,
    }
}

/// The position of the first number that is not a device of the server, if any.
pub open spec fn first_unknown_device(ns: Seq<u32>, devices: Seq<DeviceConfig>) -> Option<int>
    decreases ns.len(),
{
    if ns.len() == 0 {
        None
    } else {
        match first_unknown_device(ns.drop_last(), devices) {
            Some(i) => Some(i),
            None => if device_model(devices, ns.last()) is None {
                Some(ns.len() - 1)
            } else {
                None
            },
        }
    }
}

/// The message for a title that names no devices.
pub open spec fn bad_spec_message(title: Seq<char>) -> Seq<char> {
    "GPUデバイス仕様を解釈できません: "@ + title
}

/// The message for a number that is no device of the server.
pub open spec fn unknown_device_message(server: Seq<char>, id: u32) -> Seq<char> {
    "サーバー "@ + server + " にデバイス "@ + decimal(id as nat) + " がありません"@
}

/// The GPUs a title names on a server, in the order named, or why it names none.
pub open spec fn gpus_from_spec(title: Seq<char>, server: ServerConfig) -> Result<
    Seq<ResourceView>,
    Seq<char>,
> {
    match title_numbers(title) {
        None => Err(bad_spec_message(title)),
        Some(ns) => match first_unknown_device(ns, server.devices@) {
            Some(i) => Err(unknown_device_message(server.name@, ns[i])),
            None => Ok(
                ns.map_values(
                    |n: u32|
                        ResourceView::Gpu(
                            GpuView {
                                server: server.name@,
                                device_number: n,
                                model: device_model(server.devices@, n)->0,
                            },
                        ),
                ),
            ),
        },
    }
}

/// The device numbers a piece names.
fn read_piece(p: &[char]) -> (r: Option<Vec<u32>>)
    ensures
        match piece_numbers(p@) {
            Some(ns) => r matches Some(v) && v@ == ns,
            None => r is None,
        },
{
    let mut k: usize = 0;
    while k < p.len() && p[k] != '-'
        invariant
            k <= p@.len(),
            forall|j: int| 0 <= j < k ==> p@[j] != '-',
        decreases p@.len() - k,
    {
        k = k + 1;
    }
    proof {
        lemma_first_index(p@, '-');
        if k < p@.len() {
            crate::text::lemma_first_index_is(p@, '-', k as int);
        }
    }
    if k == p.len() {
        let s = string_from_chars(p);
        return match parse_unsigned_at_most(s.as_str(), 0xffff_ffffu64) {
            Some(n) => {
                let mut v: Vec<u32> = Vec::new();
                v.push(n as u32);
                Some(v)
            },
            None => None,
        };
    }
    let left = string_from_chars(crate::text::slice_chars(p, 0, k).as_slice());
    let right = string_from_chars(crate::text::slice_chars(p, k + 1, p.len()).as_slice());
    let a = parse_unsigned_at_most(left.as_str(), 0xffff_ffffu64);
    let b = parse_unsigned_at_most(right.as_str(), 0xffff_ffffu64);
    match (a, b) {
        (Some(a), Some(b)) => {
            if a > b {
                return None;
            }
            let ghost want = Seq::new((b - a + 1) as nat, |i: int| (a + i) as u32);
            let mut v: Vec<u32> = Vec::new();
            let mut x: u64 = a;
            while x <= b
                invariant
                    a <= x <= b + 1,
                    b <= 0xffff_ffff,
                    want == Seq::new((b - a + 1) as nat, |i: int| (a + i) as u32),
                    v@ == want.subrange(0, x - a),
                decreases b + 1 - x,
            {
                v.push(x as u32);
                assert(want.subrange(0, x + 1 - a) =~= want.subrange(0, x - a).push(want[x - a]));
                x = x + 1;
            }
            assert(want.subrange(0, want.len() as int) =~= want);
            Some(v)
        },
        _ => None,
    }
}

/// The model of the first device with the number, if any.
fn find_device_model(devices: &[DeviceConfig], id: u32) -> (r: Option<String>)
    ensures
        match device_model(devices@, id) {
            Some(m) => r matches Some(s) && s@ == m,
            None => r is None,
        },
{
    let ghost ids = devices@.map_values(|d: DeviceConfig| d.id);
    let mut i: usize = 0;
    while i < devices.len()
        invariant
            ids == devices@.map_values(|d: DeviceConfig| d.id),
            i <= devices@.len(),
            forall|j: int| 0 <= j < i ==> ids[j] != id,
        decreases devices@.len() - i,
    {
        if devices[i].id == id {
            proof {
                crate::text::lemma_first_index_is(ids, id, i as int);
            }
            return Some(devices[i].model.clone());
        }
        i = i + 1;
    }
    proof {
        lemma_first_index(ids, id);
        if first_index(ids, id) is Some {
            let j = first_index(ids, id)->0;
            assert(ids[j] == id);
        }
    }
    None
}

/// An unknown number found in a prefix is the first unknown number of the whole.
proof fn lemma_first_unknown_extends(ns: Seq<u32>, devices: Seq<DeviceConfig>, i: int)
    requires
        0 <= i < ns.len(),
        first_unknown_device(ns.subrange(0, i + 1), devices) == Some(i),
    ensures
        first_unknown_device(ns, devices) == Some(i),
    decreases ns.len(),
{
    if ns.len() == i + 1 {
        assert(ns.subrange(0, i + 1) =~= ns);
    } else {
        let t = ns.drop_last();
        assert(t.subrange(0, i + 1) =~= ns.subrange(0, i + 1));
        lemma_first_unknown_extends(t, devices, i);
    }
}

/// A failure found in a prefix of the pieces is a failure of the whole.
proof fn lemma_pieces_numbers_fail(pieces: Seq<Seq<char>>, i: int)
    requires
        0 <= i <= pieces.len(),
        pieces_numbers(pieces.subrange(0, i)) is None,
    ensures
        pieces_numbers(pieces) is None,
    decreases pieces.len(),
{
    if pieces.len() == i {
        assert(pieces.subrange(0, i) =~= pieces);
    } else {
        let t = pieces.drop_last();
        assert(t.subrange(0, i) =~= pieces.subrange(0, i));
        lemma_pieces_numbers_fail(t, i);
    }
}

/// The GPUs a title names on the server (`ResourceFactory::create_gpus_from_spec`), or why
/// it names none.
pub fn create_gpus_from_spec(title: &str, server: &ServerConfig) -> (r: Result<Vec<Resource>, String>)
    ensures
        match gpus_from_spec(title@, *server) {
            Ok(gpus) => r matches Ok(v) && resources_view(v@) == gpus,
            Err(m) => r matches Err(e) && e@ == m,
        },
{
    let parts = split_chars(chars_of(title).as_slice(), ',');
    let ghost pieces = trimmed_pieces(title@);
    assert(pieces =~= pieces_view(parts@).map_values(|p: Seq<char>| trim(p)));
    let mut numbers: Vec<u32> = Vec::new();
    let mut i: usize = 0;
    while i < parts.len()
        invariant
            pieces == pieces_view(parts@).map_values(|p: Seq<char>| trim(p)),
            pieces == trimmed_pieces(title@),
            i <= parts@.len(),
            pieces_numbers(pieces.subrange(0, i as int)) == Some(numbers@),
        decreases parts@.len() - i,
    {
        let piece = trim_chars(parts[i].as_slice());
        assert(piece@ == pieces[i as int]);
        let ghost p = pieces.subrange(0, i + 1);
        assert(p.drop_last() =~= pieces.subrange(0, i as int));
        assert(p.last() == pieces[i as int]);
        match read_piece(piece.as_slice()) {
            Some(ns) => {
                let ghost before = numbers@;
                let mut j: usize = 0;
                while j < ns.len()
                    invariant
                        j <= ns@.len(),
                        numbers@ == before + ns@.subrange(0, j as int),
                    decreases ns@.len() - j,
                {
                    numbers.push(ns[j]);
                    assert(ns@.subrange(0, j + 1) =~= ns@.subrange(0, j as int).push(ns@[j as int]));
                    j = j + 1;
                }
                assert(ns@.subrange(0, ns@.len() as int) =~= ns@);
            },
            None => {
                proof {
                    lemma_pieces_numbers_fail(pieces, i + 1);
                }
                let mut m = owned("GPUデバイス仕様を解釈できません: ");
                push_str(&mut m, title);
                return Err(m);
            },
        }
        i = i + 1;
    }
    assert(pieces.subrange(0, parts@.len() as int) =~= pieces);
    let ghost ns = numbers@;
    let mut gpus: Vec<Resource> = Vec::new();
    let mut k: usize = 0;
    while k < numbers.len()
        invariant
            ns == numbers@,
            title_numbers(title@) == Some(ns),
            k <= ns.len(),
            first_unknown_device(ns.subrange(0, k as int), server.devices@) is None,
            resources_view(gpus@) == ns.subrange(0, k as int).map_values(
                |n: u32|
                    ResourceView::Gpu(
                        GpuView {
                            server: server.name@,
                            device_number: n,
                            model: device_model(server.devices@, n)->0,
                        },
                    ),
            ),
        decreases ns.len() - k,
    {
        let ghost p = ns.subrange(0, k + 1);
        assert(p.drop_last() =~= ns.subrange(0, k as int));
        assert(p.last() == ns[k as int]);
        match find_device_model(server.devices.as_slice(), numbers[k]) {
            Some(model) => {
                let ghost before = resources_view(gpus@);
                gpus.push(Resource::Gpu(Gpu::new(server.name.clone(), numbers[k], model)));
                assert(resources_view(gpus@) =~= before.push(
                    ResourceView::Gpu(
                        GpuView {
                            server: server.name@,
                            device_number: ns[k as int],
                            model: device_model(server.devices@, ns[k as int])->0,
                        },
                    ),
                ));
            },
            None => {
                proof {
                    lemma_first_unknown_extends(ns, server.devices@, k as int);
                }
                let mut m = owned("サーバー ");
                push_str(&mut m, server.name.as_str());
                push_str(&mut m, " にデバイス ");
                push_decimal(&mut m, numbers[k] as u64);
                push_str(&mut m, " がありません");
                return Err(m);
            },
        }
        k = k + 1;
    }
    assert(ns.subrange(0, ns.len() as int) =~= ns);
    Ok(gpus)
}


/// A decimal rendering holds no character that is not a digit.
proof fn lemma_decimal_lacks(n: nat, c: char)
    requires
        !is_digit(c),
    ensures
        !decimal(n).contains(c),
{
    lemma_decimal_digits(n);
    if decimal(n).contains(c) {
        let j = choose|j: int| 0 <= j < decimal(n).len() && decimal(n)[j] == c;
        assert(is_digit(decimal(n)[j]));
    }
}

/// A number's decimal rendering names that one device.
proof fn lemma_piece_of_decimal(n: u32)
    ensures
        piece_numbers(decimal(n as nat)) == Some(seq![n]),
{
    lemma_decimal_lacks(n as nat, '-');
    lemma_first_index(decimal(n as nat), '-');
    if first_index(decimal(n as nat), '-') is Some {
        let k = first_index(decimal(n as nat), '-')->0;
        assert(decimal(n as nat)[k] == '-');
    }
    lemma_decimal_parses_back(n as nat, u32::MAX as nat);
}

/// The decimal renderings of numbers name those numbers, in order.
proof fn lemma_pieces_of_decimals(ns: Seq<u32>)
    ensures
        pieces_numbers(ns.map_values(|n: u32| decimal(n as nat))) == Some(ns),
    decreases ns.len(),
{
    let ps = ns.map_values(|n: u32| decimal(n as nat));
    if ns.len() > 0 {
        lemma_pieces_of_decimals(ns.drop_last());
        assert(ps.drop_last() =~= ns.drop_last().map_values(|n: u32| decimal(n as nat)));
        lemma_piece_of_decimal(ns.last());
        assert(ps.last() == decimal(ns.last() as nat));
        assert(ns.drop_last() + seq![ns.last()] =~= ns);
    } else {
        assert(ns =~= Seq::<u32>::empty());
    }
}

/// The title written for a non-empty list of device numbers reads back as that list: what
/// `number_list` writes, `title_numbers` reads.
pub proof fn lemma_title_round_trip(ns: Seq<u32>)
    requires
        ns.len() >= 1,
    ensures
        title_numbers(number_list(ns)) == Some(ns),
{
    let ps = ns.map_values(|n: u32| decimal(n as nat));
    assert forall|i: int| 0 <= i < ps.len() implies !(#[trigger] ps[i]).contains(',') by {
        lemma_decimal_lacks(ns[i] as nat, ',');
    }
    reveal_strlit(",");
    assert(","@ =~= seq![',']);
    lemma_split_join(ps, ',');
    assert(split(number_list(ns), ',') == ps);
    assert forall|i: int| 0 <= i < ps.len() implies trim(#[trigger] ps[i]) == ps[i] by {
        lemma_decimal_trimmed(ns[i] as nat);
    }
    assert(trimmed_pieces(number_list(ns)) =~= ps);
    lemma_pieces_of_decimals(ns);
}

/// Numbers that are all devices of the server have no unknown one.
pub proof fn lemma_known_devices(ns: Seq<u32>, devices: Seq<DeviceConfig>)
    requires
        forall|k: int| 0 <= k < ns.len() ==> device_model(devices, #[trigger] ns[k]) is Some,
    ensures
        first_unknown_device(ns, devices) is None,
    decreases ns.len(),
{
    if ns.len() > 0 {
        let d = ns.drop_last();
        assert forall|k: int| 0 <= k < d.len() implies device_model(devices, #[trigger] d[k]) is Some by {
            assert(d[k] == ns[k]);
        }
        lemma_known_devices(d, devices);
        assert(device_model(devices, ns[ns.len() - 1]) is Some);
    }
}

} // verus!
