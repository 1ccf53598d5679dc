//! The direct message that tells an owner their reservation is not being used.
use crate::domain::idle::IdleEvidence;
use crate::domain::resource::{Gpu, GpuView, ResourceUsage};
use crate::infrastructure::config::notification_format::{DateFormat, ResourceStyle, TimeStyle};
use crate::infrastructure::notifier::formatter::{
    format_resources_styled, format_time_styled, period_in_range, spec_format_resources,
    time_styled_ok,
};
use crate::infrastructure::notifier::local_time::{
    clock_text, fields_of, in_time_range, local_date_time_at, offset_choice, push_clock,
    LocalDateTime,
};
use crate::infrastructure::notifier::senders::slack::block_builder::{
    button_view, Button, ButtonStyle, ButtonValue, MessageBlock,
};
use crate::domain::resource::ResourceView;
use crate::infrastructure::notifier::formatter::resource_line;
use crate::text::{
    decimal, holds_text, join, lemma_holds_middle, occurs_at, lemma_holds_trans, lemma_join_holds, owned,
    push_decimal, push_str,
};
use vstd::prelude::*;

verus! {

/// The action of the button that ends the reservation now.
pub const ACTION_IDLE_RELEASE: &'static str = "idle_release";

/// The action of the button that keeps the reservation.
pub const ACTION_IDLE_KEEP: &'static str = "idle_keep";

/// The action of the button that cancels the reservation.
pub const ACTION_IDLE_CANCEL: &'static str = "idle_cancel";

/// The one-line headline of what is happening.
pub open spec fn headline(e: IdleEvidence) -> Seq<char> {
    match e {
        IdleEvidence::NoProcesses => "⏳ 予約したリソースが使われていません"@,
        IdleEvidence::HeldWithoutComputing { .. } => if e.partial() {
            "⏳ 予約したGPUの一部で計算が走っていません"@
        } else {
            "⏳ 予約したGPUで計算が走っていません"@
        },
    }
}

/// The headline of what is happening.
pub fn headline_of(evidence: &IdleEvidence) -> (s: &'static str)
    ensures
        s@ == headline(*evidence),
{
    match evidence {
        IdleEvidence::NoProcesses => "⏳ 予約したリソースが使われていません",
        IdleEvidence::HeldWithoutComputing { .. } => {
            if evidence.is_partial() {
                "⏳ 予約したGPUの一部で計算が走っていません"
            } else {
                "⏳ 予約したGPUで計算が走っていません"
            }
        },
    }
}

/// What the owner can do about it.
pub open spec fn advice(e: IdleEvidence) -> Seq<char> {
    if e.partial() {
        "残りを使い続けるならそのままで構いません。まとめて使い終わっているなら、いったん終了して必要な分だけ取り直せます。"@
    } else {
        "使い終わっているなら、残りの時間を他の人に開放できます。"@
    }
}

/// What the owner can do about it: keep the rest when only some GPUs rest (no part of a
/// reservation can be given back alone), else release the remaining time.
pub fn advice_of(evidence: &IdleEvidence) -> (s: &'static str)
    ensures
        s@ == advice(*evidence),
{
    if evidence.is_partial() {
        return "残りを使い続けるならそのままで構いません。まとめて使い終わっているなら、いったん終了して必要な分だけ取り直せます。";
    }
    "使い終わっているなら、残りの時間を他の人に開放できます。"
}

/// How a GPU is named on site: "Thalys GPU0".
pub open spec fn device_text(g: GpuView) -> Seq<char> {
    g.server + " GPU"@ + decimal(g.device_number as nat)
}

/// The GPUs named on site, joined by "・".
pub open spec fn devices_text(gs: Seq<GpuView>) -> Seq<char> {
    join(gs.map_values(|g: GpuView| device_text(g)), "・"@)
}

/// The GPUs named as the owner finds them on site, joined by "・".
pub fn format_devices(at_rest: &[Gpu]) -> (s: String)
    ensures
        s@ == devices_text(at_rest@.map_values(|g: Gpu| g@)),
{
    let ghost gs = at_rest@.map_values(|g: Gpu| g@);
    let mut parts: Vec<String> = Vec::new();
    let mut i: usize = 0;
    while i < at_rest.len()
        invariant
            gs == at_rest@.map_values(|g: Gpu| g@),
            i <= at_rest@.len(),
            crate::text::strings_view(parts@) == gs.subrange(0, i as int).map_values(
                |g: GpuView| device_text(g),
            ),
        decreases at_rest@.len() - i,
    {
        let mut s = owned(at_rest[i].server());
        push_str(&mut s, " GPU");
        push_decimal(&mut s, at_rest[i].device_number() as u64);
        let ghost before = crate::text::strings_view(parts@);
        parts.push(s);
        assert(crate::text::strings_view(parts@) =~= before.push(device_text(gs[i as int])));
        assert(gs.subrange(0, i + 1).map_values(|g: GpuView| device_text(g)) =~= gs.subrange(
            0,
            i as int,
        ).map_values(|g: GpuView| device_text(g)).push(device_text(gs[i as int])));
        i = i + 1;
    }
    assert(gs.subrange(0, gs.len() as int) =~= gs);
    crate::text::join_strings(parts.as_slice(), "・")
}

/// Tenths of GiB of an amount of MiB, rounded to the nearest, ties to even.
pub open spec fn gib_tenths(mib: nat) -> nat {
    let q = (mib * 10) / 1024;
    let r = (mib * 10) % 1024;
    if 2 * r > 1024 || (2 * r == 1024 && q % 2 == 1) {
        q + 1
    } else {
        q
    }
}

/// An amount of memory in the unit that reads at a glance: MiB below a GiB, else GiB with
/// one decimal.
pub open spec fn memory_text(mib: nat) -> Seq<char> {
    if mib < 1024 {
        decimal(mib) + " MiB"@
    } else {
        decimal(gib_tenths(mib) / 10) + "."@ + decimal(gib_tenths(mib) % 10) + " GiB"@
    }
}

/// An amount of memory: "512 MiB", or "37.1 GiB" (`{:.1}` of the amount in GiB).
pub fn format_memory(used_memory_mib: u64) -> (s: String)
    ensures
        s@ == memory_text(used_memory_mib as nat),
{
    if used_memory_mib < 1024 {
        let mut s = String::new();
        push_decimal(&mut s, used_memory_mib);
        push_str(&mut s, " MiB");
        return s;
    }
    let m = used_memory_mib as u128;
    let q = (m * 10) / 1024;
    let r = (m * 10) % 1024;
    let t: u128 = if 2 * r > 1024 || (2 * r == 1024 && q % 2 == 1) {
        q + 1
    } else {
        q
    };
    assert(t == gib_tenths(used_memory_mib as nat));
    assert(t / 10 <= u64::MAX) by (nonlinear_arith)
        requires
            t <= m * 10 / 1024 + 1,
            m <= u64::MAX,
    ;
    let mut s = String::new();
    push_decimal(&mut s, (t / 10) as u64);
    push_str(&mut s, ".");
    push_decimal(&mut s, (t % 10) as u64);
    push_str(&mut s, " GiB");
    s
}

/// What was seen, as the owner can check it against what they know.
pub open spec fn observation(e: IdleEvidence) -> Seq<char> {
    match e {
        IdleEvidence::NoProcesses => "あなたの利用を確認できていません。"@,
        IdleEvidence::HeldWithoutComputing { at_rest, peak_utilization_percent, used_memory_mib, .. } =>
            devices_text(at_rest@.map_values(|g: Gpu| g@)) + "で計算が走っていません（最大稼働率 "@
            + decimal(peak_utilization_percent as nat) + "%"@ + match used_memory_mib {
            Some(mib) => "、確保 "@ + memory_text(mib as nat),
            None => Seq::empty(),
        } + "）。"@,
    }
}

/// What was seen: no use by the owner, or which GPUs rest with their peak utilization and
/// the memory they hold.
pub fn observation_of(evidence: &IdleEvidence) -> (s: String)
    ensures
        s@ == observation(*evidence),
{
    match evidence {
        IdleEvidence::NoProcesses => owned("あなたの利用を確認できていません。"),
        IdleEvidence::HeldWithoutComputing {
            at_rest,
            peak_utilization_percent,
            used_memory_mib,
            ..
        } => {
            let mut s = format_devices(at_rest.as_slice());
            push_str(&mut s, "で計算が走っていません（最大稼働率 ");
            push_decimal(&mut s, *peak_utilization_percent as u64);
            push_str(&mut s, "%");
            match used_memory_mib {
                Some(mib) => {
                    push_str(&mut s, "、確保 ");
                    let m = format_memory(*mib);
                    push_str(&mut s, m.as_str());
                },
                None => {},
            }
            push_str(&mut s, "）。");
            s
        },
    }
}

/// `r` is the instant as `%H:%M` on the machine's local clock.
pub open spec fn local_clock(r: Seq<char>, t: int) -> bool {
    exists|o: int, ldt: LocalDateTime|
        #![trigger offset_choice(None, t, o), fields_of(ldt, t + o)]
        offset_choice(None, t, o) && fields_of(ldt, t + o) && r == clock_text(ldt)
}

/// `r` is the message for the reservation found idle since `idle_since` for the reason.
pub open spec fn idle_message(r: Seq<char>, reservation: ResourceUsage, idle_since: int, e: IdleEvidence) -> bool {
    exists|period: Seq<char>, since: Seq<char>|
        #![trigger time_styled_ok(period, reservation.time_period, None, TimeStyle::Full, DateFormat::Ymd), local_clock(since, idle_since)]
        time_styled_ok(period, reservation.time_period, None, TimeStyle::Full, DateFormat::Ymd)
            && local_clock(since, idle_since) && r == headline(e) + "\n\n💻 予約リソース\n"@
            + spec_format_resources(reservation@.resources, ResourceStyle::Full)
            + "\n\n📅 予約期間\n"@ + period + "\n\n"@ + since + "以降、"@ + observation(e)
            + advice(e)
}

/// An idle message is made of: a head, the resource listing, a middle, the local clock text
/// with "以降、", the observation and the advice.
proof fn lemma_idle_message_split(
    r: Seq<char>,
    reservation: ResourceUsage,
    idle_since: int,
    e: IdleEvidence,
) -> (parts: (Seq<char>, Seq<char>, Seq<char>))
    requires
        idle_message(r, reservation, idle_since, e),
    ensures
        local_clock(parts.2, idle_since),
        r == parts.0 + spec_format_resources(reservation@.resources, ResourceStyle::Full) + parts.1
            + (parts.2 + "以降、"@) + observation(e) + advice(e),
{
    let (period, since) = choose|period: Seq<char>, since: Seq<char>|
        time_styled_ok(period, reservation.time_period, None, TimeStyle::Full, DateFormat::Ymd)
            && local_clock(since, idle_since) && r == headline(e) + "\n\n💻 予約リソース\n"@
            + spec_format_resources(reservation@.resources, ResourceStyle::Full)
            + "\n\n📅 予約期間\n"@ + period + "\n\n"@ + since + "以降、"@ + observation(e)
            + advice(e);
    let head = headline(e) + "\n\n💻 予約リソース\n"@;
    let mid = "\n\n📅 予約期間\n"@ + period + "\n\n"@;
    assert(r =~= head + spec_format_resources(reservation@.resources, ResourceStyle::Full) + mid + (
    since + "以降、"@) + observation(e) + advice(e));
    (head, mid, since)
}

/// The observation of GPUs held without computing shows their peak utilization and the
/// memory they hold.
proof fn lemma_observation_shows(e: IdleEvidence)
    ensures
        e matches IdleEvidence::HeldWithoutComputing { peak_utilization_percent, .. }
            ==> holds_text(observation(e), decimal(peak_utilization_percent as nat) + "%"@),
        e matches IdleEvidence::HeldWithoutComputing { used_memory_mib: Some(m), .. }
            ==> holds_text(observation(e), memory_text(m as nat)),
{
    match e {
        IdleEvidence::HeldWithoutComputing { at_rest, peak_utilization_percent, used_memory_mib, .. } => {
            let obs = observation(e);
            let devs = devices_text(at_rest@.map_values(|g: Gpu| g@)) + "で計算が走っていません（最大稼働率 "@;
            let pct = decimal(peak_utilization_percent as nat) + "%"@;
            let mem = match used_memory_mib {
                Some(mib) => "、確保 "@ + memory_text(mib as nat),
                None => Seq::<char>::empty(),
            };
            assert(obs =~= devs + pct + (mem + "）。"@));
            lemma_holds_middle(devs, pct, mem + "）。"@);
            match used_memory_mib {
                Some(mib) => {
                    assert(obs =~= (devs + pct + "、確保 "@) + memory_text(mib as nat) + "）。"@);
                    lemma_holds_middle(devs + pct + "、確保 "@, memory_text(mib as nat), "）。"@);
                },
                None => {},
            }
        },
        IdleEvidence::NoProcesses => {},
    }
}

/// Each resource's line occurs in the full listing of the resources.
proof fn lemma_listing_shows(rs: Seq<ResourceView>, k: int)
    requires
        0 <= k < rs.len(),
    ensures
        holds_text(spec_format_resources(rs, ResourceStyle::Full), resource_line(rs[k])),
{
    let lines = rs.map_values(|x: ResourceView| resource_line(x));
    assert(lines[k] == resource_line(rs[k]));
    lemma_join_holds(lines, "\n"@, k);
}

/// The idle message shows each reserved resource on its line (so the server's name), the
/// local clock time the reservation went quiet, and, for GPUs held without computing, their
/// peak utilization in percent and the memory they hold in the unit that reads at a glance.
pub proof fn lemma_idle_message_shows(
    r: Seq<char>,
    reservation: ResourceUsage,
    idle_since: int,
    e: IdleEvidence,
)
    requires
        idle_message(r, reservation, idle_since, e),
    ensures
        forall|k: int|
            0 <= k < reservation@.resources.len() ==> holds_text(
                r,
                resource_line(#[trigger] reservation@.resources[k]),
            ),
        exists|c: Seq<char>| local_clock(c, idle_since) && holds_text(r, c + "以降、"@),
        e matches IdleEvidence::HeldWithoutComputing { peak_utilization_percent, .. }
            ==> holds_text(r, decimal(peak_utilization_percent as nat) + "%"@),
        e matches IdleEvidence::HeldWithoutComputing { used_memory_mib: Some(m), .. }
            ==> holds_text(r, memory_text(m as nat)),
{
    let (head, mid, since) = lemma_idle_message_split(r, reservation, idle_since, e);
    let rs = reservation@.resources;
    let listing = spec_format_resources(rs, ResourceStyle::Full);
    let clock = since + "以降、"@;
    let obs = observation(e);
    let ad = advice(e);
    assert(r =~= head + listing + (mid + clock + obs + ad));
    lemma_holds_middle(head, listing, mid + clock + obs + ad);
    assert forall|k: int| 0 <= k < rs.len() implies holds_text(r, resource_line(#[trigger] rs[k])) by {
        lemma_listing_shows(rs, k);
        lemma_holds_trans(r, listing, resource_line(rs[k]));
    }
    assert(r =~= (head + listing + mid) + clock + (obs + ad));
    lemma_holds_middle(head + listing + mid, clock, obs + ad);
    assert(local_clock(since, idle_since) && holds_text(r, since + "以降、"@));
    assert(r =~= (head + listing + mid + clock) + obs + ad);
    lemma_holds_middle(head + listing + mid + clock, obs, ad);
    lemma_observation_shows(e);
    match e {
        IdleEvidence::HeldWithoutComputing { peak_utilization_percent, used_memory_mib, .. } => {
            lemma_holds_trans(r, obs, decimal(peak_utilization_percent as nat) + "%"@);
            match used_memory_mib {
                Some(m) => {
                    lemma_holds_trans(r, obs, memory_text(m as nat));
                },
                None => {},
            }
        },
        IdleEvidence::NoProcesses => {},
    }
}

/// The headline of GPUs held without computing says "一部" (some of them) exactly when fewer
/// GPUs rest than were observed; when every observed GPU rests it says the reserved GPUs
/// are not computing, and a reservation nobody touched says the resources are unused.
pub proof fn lemma_headline_words(e: IdleEvidence, h: Seq<char>)
    requires
        h == headline(e),
    ensures
        e matches IdleEvidence::HeldWithoutComputing { at_rest, observed_count, .. }
            ==> (at_rest@.len() < observed_count <==> holds_text(h, "一部"@)),
        e matches IdleEvidence::HeldWithoutComputing { at_rest, observed_count, .. }
            ==> (at_rest@.len() >= observed_count ==> h == "⏳ 予約したGPUで計算が走っていません"@),
        e is NoProcesses ==> h == "⏳ 予約したリソースが使われていません"@,
{
    reveal_strlit("⏳ 予約したGPUの一部で計算が走っていません");
    reveal_strlit("⏳ 予約したGPUで計算が走っていません");
    reveal_strlit("⏳ 予約したリソースが使われていません");
    reveal_strlit("一部");
    let part = "一部"@;
    match e {
        IdleEvidence::HeldWithoutComputing { at_rest, observed_count, .. } => {
            if at_rest@.len() < observed_count {
                assert(h.subrange(10, 12) =~= part);
                assert(occurs_at(h, 10, part));
            } else {
                assert(!holds_text(h, part)) by {
                    if holds_text(h, part) {
                        let j = choose|j: int| occurs_at(h, j, part);
                        assert(h.subrange(j, j + 2)[0] == h[j]);
                        assert(h[j] == '一');
                    }
                }
            }
        },
        IdleEvidence::NoProcesses => {},
    }
}

/// A reservation nobody touched and one whose GPUs are held without computing are never
/// told with the same message: the headlines differ.
pub proof fn lemma_idle_evidence_told_apart(
    r1: Seq<char>,
    r2: Seq<char>,
    reservation1: ResourceUsage,
    reservation2: ResourceUsage,
    since1: int,
    since2: int,
    evidence: IdleEvidence,
)
    requires
        idle_message(r1, reservation1, since1, IdleEvidence::NoProcesses),
        idle_message(r2, reservation2, since2, evidence),
        evidence is HeldWithoutComputing,
    ensures
        r1 != r2,
{
    reveal_strlit("⏳ 予約したリソースが使われていません");
    reveal_strlit("⏳ 予約したGPUの一部で計算が走っていません");
    reveal_strlit("⏳ 予約したGPUで計算が走っていません");
    let h1 = headline(IdleEvidence::NoProcesses);
    let h2 = headline(evidence);
    assert(h1[6] == 'リ');
    assert(h2[6] == 'G');
    let (p1, s1) = choose|period: Seq<char>, since: Seq<char>|
        time_styled_ok(period, reservation1.time_period, None, TimeStyle::Full, DateFormat::Ymd)
            && local_clock(since, since1) && r1 == h1 + "\n\n💻 予約リソース\n"@
            + spec_format_resources(reservation1@.resources, ResourceStyle::Full)
            + "\n\n📅 予約期間\n"@ + period + "\n\n"@ + since + "以降、"@ + observation(IdleEvidence::NoProcesses)
            + advice(IdleEvidence::NoProcesses);
    let (p2, s2) = choose|period: Seq<char>, since: Seq<char>|
        time_styled_ok(period, reservation2.time_period, None, TimeStyle::Full, DateFormat::Ymd)
            && local_clock(since, since2) && r2 == h2 + "\n\n💻 予約リソース\n"@
            + spec_format_resources(reservation2@.resources, ResourceStyle::Full)
            + "\n\n📅 予約期間\n"@ + period + "\n\n"@ + since + "以降、"@ + observation(evidence)
            + advice(evidence);
    assert(r1[6] == h1[6]);
    assert(r2[6] == h2[6]);
}

/// The message telling the owner their reservation has been idle since `idle_since`: the
/// headline, the resources, the period, the local time it went quiet, what was seen and
/// what they can do.
pub fn build_idle_message(reservation: &ResourceUsage, idle_since: i64, evidence: &IdleEvidence) -> (r: String)
    requires
        period_in_range(reservation.time_period),
        in_time_range(idle_since as int),
    ensures
        idle_message(r@, *reservation, idle_since as int, *evidence),
{
    let resources = format_resources_styled(reservation.resources(), ResourceStyle::Full);
    let period = format_time_styled(
        &reservation.time_period,
        None,
        TimeStyle::Full,
        DateFormat::Ymd,
    );
    let (since, offset) = local_date_time_at(None, idle_since);
    let mut r = owned(headline_of(evidence));
    push_str(&mut r, "\n\n💻 予約リソース\n");
    push_str(&mut r, resources.as_str());
    push_str(&mut r, "\n\n📅 予約期間\n");
    push_str(&mut r, period.as_str());
    push_str(&mut r, "\n\n");
    let ghost before_clock = r@;
    push_clock(&mut r, &since);
    push_str(&mut r, "以降、");
    let observed = observation_of(evidence);
    push_str(&mut r, observed.as_str());
    push_str(&mut r, advice_of(evidence));
    proof {
        assert(local_clock(clock_text(since), idle_since as int));
        assert(r@ =~= headline(*evidence) + "\n\n💻 予約リソース\n"@ + resources@
            + "\n\n📅 予約期間\n"@ + period@ + "\n\n"@ + clock_text(since) + "以降、"@ + observation(
            *evidence,
        ) + advice(*evidence));
    }
    r
}

/// The blocks are the text and the three buttons on the reservation: end it now
/// (primary), keep it, cancel it (danger).
pub open spec fn is_idle_blocks(blocks: Seq<MessageBlock>, text: Seq<char>, usage_id: Seq<char>) -> bool {
    &&& blocks.len() == 2
    &&& blocks[0] matches MessageBlock::Section { text: t } && t@ == text
    &&& blocks[1] matches MessageBlock::Actions { elements } && elements@.len() == 3 && button_view(
        elements@[0],
    ) == ("⏹️ 今で終了する"@, Some(ButtonStyle::Primary), ACTION_IDLE_RELEASE@, Some(usage_id))
        && button_view(elements@[1]) == ("✅ まだ使う"@, None::<ButtonStyle>, ACTION_IDLE_KEEP@, Some(usage_id))
        && button_view(elements@[2]) == (
        "❌ 予約を取り消す"@,
        Some(ButtonStyle::Danger),
        ACTION_IDLE_CANCEL@,
        Some(usage_id),
    )
}

/// The message's blocks: the text, then the buttons to end the reservation now, keep it or
/// cancel it, each carrying the reservation id.
pub fn build_idle_blocks(reservation: &ResourceUsage, text: &str) -> (blocks: Vec<MessageBlock>)
    ensures
        is_idle_blocks(blocks@, text@, reservation@.id),
{
    let usage_id = reservation.id();
    let mut elements: Vec<Button> = Vec::new();
    elements.push(
        Button {
            text: owned("⏹️ 今で終了する"),
            style: Some(ButtonStyle::Primary),
            action_id: owned(ACTION_IDLE_RELEASE),
            value: ButtonValue::Text(owned(usage_id)),
        },
    );
    elements.push(
        Button {
            text: owned("✅ まだ使う"),
            style: None,
            action_id: owned(ACTION_IDLE_KEEP),
            value: ButtonValue::Text(owned(usage_id)),
        },
    );
    elements.push(
        Button {
            text: owned("❌ 予約を取り消す"),
            style: Some(ButtonStyle::Danger),
            action_id: owned(ACTION_IDLE_CANCEL),
            value: ButtonValue::Text(owned(usage_id)),
        },
    );
    let mut blocks: Vec<MessageBlock> = Vec::new();
    blocks.push(MessageBlock::Section { text: owned(text) });
    blocks.push(MessageBlock::Actions { elements });
    blocks
}

/// The three buttons of an idle notice ask for different actions, so Slack accepts the
/// message (it refuses a block whose action ids repeat).
pub proof fn lemma_idle_actions_distinct()
    ensures
        ACTION_IDLE_RELEASE@ != ACTION_IDLE_KEEP@,
        ACTION_IDLE_RELEASE@ != ACTION_IDLE_CANCEL@,
        ACTION_IDLE_KEEP@ != ACTION_IDLE_CANCEL@,
{
    reveal_strlit("idle_release");
    reveal_strlit("idle_keep");
    reveal_strlit("idle_cancel");
    assert(ACTION_IDLE_RELEASE@[5] == 'r');
    assert(ACTION_IDLE_KEEP@[5] == 'k');
    assert(ACTION_IDLE_CANCEL@[5] == 'c');
}

} // verus!
