//! The direct message that proposes a reservation for resources used without one.
use crate::domain::identity::Instant;
use crate::domain::notification::NotificationError;
use crate::domain::proposal::{ProposalAcceptPayload, ReservationProposal};
use crate::domain::resource::{Gpu, GpuView, Resource, ResourceView, resources_view};
use crate::infrastructure::config::notification_format::ResourceStyle;
use crate::infrastructure::notifier::formatter::{format_resources_styled, spec_format_resources};
use crate::infrastructure::notifier::senders::slack::block_builder::{Button, ButtonValue, MessageBlock};
use crate::text::{owned, push_signed_decimal, push_str, signed_decimal};
use vstd::prelude::*;

verus! {

/// The prefix of the action of an accept button; the duration in minutes follows it.
pub const ACTION_ACCEPT_RESERVATION_PROPOSAL: &'static str = "accept_reservation_proposal";

/// Division rounding toward zero, as Rust's integer division.
pub open spec fn tdiv(a: int, b: int) -> int {
    if a >= 0 {
        a / b
    } else {
        -((-a) / b)
    }
}

/// The remainder of division rounding toward zero, as Rust's `%`.
pub open spec fn trem(a: int, b: int) -> int {
    a - b * tdiv(a, b)
}

/// The whole minutes of a duration in seconds (`TimeDelta::num_minutes`).
pub open spec fn whole_minutes(secs: int) -> int {
    tdiv(secs, 60)
}

/// A duration as its label: "1時間", "30分", "1時間30分".
pub open spec fn duration_label(secs: int) -> Seq<char> {
    let total = whole_minutes(secs);
    let h = tdiv(total, 60);
    let m = trem(total, 60);
    if h > 0 && m == 0 {
        signed_decimal(h) + "時間"@
    } else if h == 0 {
        signed_decimal(m) + "分"@
    } else {
        signed_decimal(h) + "時間"@ + signed_decimal(m) + "分"@
    }
}

/// The whole minutes of a duration given in seconds.
pub fn num_minutes(secs: i64) -> (m: i64)
    ensures
        m == whole_minutes(secs as int),
{
    if secs >= 0 {
        secs / 60
    } else {
        let a: i128 = -(secs as i128);
        let q: i128 = a / 60;
        (-q) as i64
    }
}

/// The label of a duration given in seconds: hours, minutes, or both.
pub fn format_duration_label(duration_secs: i64) -> (s: String)
    ensures
        s@ == duration_label(duration_secs as int),
{
    let total = num_minutes(duration_secs);
    let (h, m): (i64, i64) = if total >= 0 {
        (total / 60, total % 60)
    } else {
        let a: i128 = -(total as i128);
        ((-(a / 60)) as i64, (-(a % 60)) as i64)
    };
    assert(h == tdiv(total as int, 60));
    assert(m == trem(total as int, 60));
    let mut s = String::new();
    if h > 0 && m == 0 {
        push_signed_decimal(&mut s, h);
        push_str(&mut s, "時間");
    } else if h == 0 {
        push_signed_decimal(&mut s, m);
        push_str(&mut s, "分");
    } else {
        push_signed_decimal(&mut s, h);
        push_str(&mut s, "時間");
        push_signed_decimal(&mut s, m);
        push_str(&mut s, "分");
    }
    s
}

/// The GPUs of the resources, when all of them are GPUs and there is one at least.
pub open spec fn proposal_gpus(rs: Seq<ResourceView>) -> Option<Seq<GpuView>> {
    if rs.len() == 0 || exists|i: int| 0 <= i < rs.len() && #[trigger] rs[i] is Room {
        None
    } else {
        Some(rs.map_values(|r: ResourceView| r->Gpu_0))
    }
}

/// The GPUs of the proposal: a proposal comes from seeing GPUs in use, so anything else,
/// or nothing, is an error.
pub fn collect_gpus(proposal: &ReservationProposal) -> (r: Result<Vec<Gpu>, NotificationError>)
    ensures
        ({
            let rs = resources_view(proposal.resources@);
            if exists|i: int| 0 <= i < rs.len() && #[trigger] rs[i] is Room {
                r matches Err(NotificationError::SendFailure(m))
                    && m@ == "GPU以外のリソースの事後予約提案はサポートしていません"@
            } else if rs.len() == 0 {
                r matches Err(NotificationError::SendFailure(m)) && m@
                    == "提案対象のリソースがありません"@
            } else {
                r matches Ok(v) && Some(v@.map_values(|g: Gpu| g@)) == proposal_gpus(rs)
            }
        }),
{
    let resources = proposal.resources.as_slice();
    let ghost rs = resources_view(proposal.resources@);
    let mut gpus: Vec<Gpu> = Vec::new();
    let mut i: usize = 0;
    while i < resources.len()
        invariant
            resources@ == proposal.resources@,
            rs == resources_view(proposal.resources@),
            i <= resources@.len(),
            forall|j: int| 0 <= j < i ==> rs[j] is Gpu,
            gpus@.map_values(|g: Gpu| g@) == rs.subrange(0, i as int).map_values(
                |r: ResourceView| r->Gpu_0,
            ),
        decreases resources@.len() - i,
    {
        assert(rs[i as int] == resources@[i as int]@);
        match &resources[i] {
            Resource::Gpu(g) => {
                let ghost before = gpus@.map_values(|g: Gpu| g@);
                gpus.push(g.duplicate());
                assert(gpus@.map_values(|g: Gpu| g@) =~= before.push(g@));
                assert(rs.subrange(0, i + 1).map_values(|r: ResourceView| r->Gpu_0) =~= rs.subrange(
                    0,
                    i as int,
                ).map_values(|r: ResourceView| r->Gpu_0).push(rs[i as int]->Gpu_0));
            },
            Resource::Room { .. } => {
                return Err(
                    NotificationError::SendFailure(
                        owned("GPU以外のリソースの事後予約提案はサポートしていません"),
                    ),
                );
            },
        }
        i = i + 1;
    }
    if gpus.len() == 0 {
        return Err(NotificationError::SendFailure(owned("提案対象のリソースがありません")));
    }
    assert(rs.subrange(0, rs.len() as int) =~= rs);
    Ok(gpus)
}

/// The text of a proposal: the resources in use and the question.
pub open spec fn proposal_text(rs: Seq<ResourceView>) -> Seq<char> {
    "⏱️ 予約なしでリソースを使用しています\n\n💻 使用中のリソース\n"@ + spec_format_resources(
        rs,
        ResourceStyle::Full,
    ) + "\n\nこのまま事後予約を作成しますか？"@
}

/// The text of the proposal message.
pub fn build_proposal_text(proposal: &ReservationProposal) -> (s: String)
    ensures
        s@ == proposal_text(resources_view(proposal.resources@)),
{
    let mut s = owned("⏱️ 予約なしでリソースを使用しています\n\n💻 使用中のリソース\n");
    let listed = format_resources_styled(proposal.resources.as_slice(), ResourceStyle::Full);
    push_str(&mut s, listed.as_str());
    push_str(&mut s, "\n\nこのまま事後予約を作成しますか？");
    s
}

/// The action of the accept button for a duration.
pub open spec fn accept_action(secs: int) -> Seq<char> {
    ACTION_ACCEPT_RESERVATION_PROPOSAL@ + "_"@ + signed_decimal(whole_minutes(secs))
}

/// The button accepts the proposal for the duration: its label, its action, and the
/// payload of the server, devices, owner, start and minutes.
pub open spec fn is_accept_button(
    b: Button,
    secs: int,
    server: Seq<char>,
    devices: Seq<u32>,
    owner: Seq<char>,
    since: Instant,
) -> bool {
    &&& b.text@ == duration_label(secs)
    &&& b.style is None
    &&& b.action_id@ == accept_action(secs)
    &&& b.value matches ButtonValue::Proposal(p) && p.server@ == server && p.device_numbers@
        == devices && p.owner_email@ == owner && p.active_since == since && p.duration_minutes
        == whole_minutes(secs)
}

/// The blocks of a proposal: the text, then one accept button per offered duration, in
/// order, each carrying what is needed to make the reservation. The server is that of the
/// first GPU.
pub fn build_proposal_blocks(proposal: &ReservationProposal, gpus: &[Gpu], text: &str) -> (blocks:
    Vec<MessageBlock>)
    ensures
        blocks@.len() == 2,
        blocks@[0] matches MessageBlock::Section { text: t } && t@ == text@,
        blocks@[1] matches MessageBlock::Actions { elements } && elements@.len()
            == proposal.duration_candidates@.len() && forall|k: int|
            0 <= k < elements@.len() ==> is_accept_button(
                #[trigger] elements@[k],
                proposal.duration_candidates@[k] as int,
                if gpus@.len() > 0 {
                    gpus@[0].server@
                } else {
                    Seq::empty()
                },
                gpus@.map_values(|g: Gpu| g.device_number),
                proposal.owner_email@,
                proposal.active_since,
            ),
{
    let server: String = if gpus.len() > 0 {
        gpus[0].server.clone()
    } else {
        String::new()
    };
    let mut devices: Vec<u32> = Vec::new();
    let mut j: usize = 0;
    while j < gpus.len()
        invariant
            j <= gpus@.len(),
            devices@ == gpus@.subrange(0, j as int).map_values(|g: Gpu| g.device_number),
        decreases gpus@.len() - j,
    {
        devices.push(gpus[j].device_number);
        assert(gpus@.subrange(0, j + 1).map_values(|g: Gpu| g.device_number) =~= gpus@.subrange(
            0,
            j as int,
        ).map_values(|g: Gpu| g.device_number).push(gpus@[j as int].device_number));
        j = j + 1;
    }
    assert(gpus@.subrange(0, gpus@.len() as int) =~= gpus@);
    let ghost server_view = if gpus@.len() > 0 {
        gpus@[0].server@
    } else {
        Seq::<char>::empty()
    };
    proof {
        reveal_strlit("");
    }
    let candidates = proposal.duration_candidates.as_slice();
    let mut elements: Vec<Button> = Vec::new();
    let mut i: usize = 0;
    while i < candidates.len()
        invariant
            candidates@ == proposal.duration_candidates@,
            i <= candidates@.len(),
            elements@.len() == i,
            server@ == server_view,
            devices@ == gpus@.map_values(|g: Gpu| g.device_number),
            forall|k: int|
                0 <= k < i ==> is_accept_button(
                    #[trigger] elements@[k],
                    candidates@[k] as int,
                    server_view,
                    gpus@.map_values(|g: Gpu| g.device_number),
                    proposal.owner_email@,
                    proposal.active_since,
                ),
        decreases candidates@.len() - i,
    {
        let minutes = num_minutes(candidates[i]);
        let mut action = owned(ACTION_ACCEPT_RESERVATION_PROPOSAL);
        push_str(&mut action, "_");
        push_signed_decimal(&mut action, minutes);
        let mut device_copy: Vec<u32> = Vec::new();
        let mut d: usize = 0;
        while d < devices.len()
            invariant
                d <= devices@.len(),
                device_copy@ == devices@.subrange(0, d as int),
            decreases devices@.len() - d,
        {
            device_copy.push(devices[d]);
            assert(devices@.subrange(0, d + 1) =~= devices@.subrange(0, d as int).push(devices@[d as int]));
            d = d + 1;
        }
        assert(devices@.subrange(0, devices@.len() as int) =~= devices@);
        let payload = ProposalAcceptPayload {
            server: server.clone(),
            device_numbers: device_copy,
            owner_email: proposal.owner_email.clone(),
            active_since: proposal.active_since,
            duration_minutes: minutes,
        };
        let button = Button {
            text: format_duration_label(candidates[i]),
            style: None,
            action_id: action,
            value: ButtonValue::Proposal(payload),
        };
        elements.push(button);
        i = i + 1;
    }
    let mut blocks: Vec<MessageBlock> = Vec::new();
    blocks.push(MessageBlock::Section { text: owned(text) });
    blocks.push(MessageBlock::Actions { elements });
    blocks
}

/// Accept buttons for durations of different whole minutes ask for different actions, so a
/// proposal whose durations differ in minutes is a message Slack accepts (it refuses a block
/// whose action ids repeat); every action starts with the prefix the handler dispatches on.
pub proof fn lemma_accept_actions_distinct(a: int, b: int)
    ensures
        whole_minutes(a) != whole_minutes(b) ==> accept_action(a) != accept_action(b),
        accept_action(a).subrange(0, ACTION_ACCEPT_RESERVATION_PROPOSAL@.len() as int)
            == ACTION_ACCEPT_RESERVATION_PROPOSAL@,
{
    let p = ACTION_ACCEPT_RESERVATION_PROPOSAL@ + "_"@;
    let x = accept_action(a);
    let y = accept_action(b);
    assert(x == p + signed_decimal(whole_minutes(a)));
    assert(y == p + signed_decimal(whole_minutes(b)));
    if x == y {
        assert(x.subrange(p.len() as int, x.len() as int) =~= signed_decimal(whole_minutes(a)));
        assert(y.subrange(p.len() as int, y.len() as int) =~= signed_decimal(whole_minutes(b)));
        crate::text::lemma_signed_decimal_injective(whole_minutes(a), whole_minutes(b));
    }
    assert(x.subrange(0, ACTION_ACCEPT_RESERVATION_PROPOSAL@.len() as int) =~= ACTION_ACCEPT_RESERVATION_PROPOSAL@);
}

} // verus!
