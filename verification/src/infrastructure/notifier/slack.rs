//! Plain-text reservation messages for a Slack incoming webhook.
use crate::domain::notification::NotificationEvent;
use crate::domain::resource::{resources_view, Resource, ResourceView, TimePeriod};
use crate::infrastructure::notifier::formatter::period_in_range;
use crate::infrastructure::notifier::local_time::{
    clock_text, fields_of, local_date_time, push_clock, push_ymd, ymd_text, LocalDateTime,
};
use crate::text::{decimal, join, owned, push_decimal, push_str};
use vstd::prelude::*;

verus! {

/// How one resource is described: a GPU by server, model and device number, a room by name.
pub open spec fn webhook_resource_text(r: ResourceView) -> Seq<char> {
    match r {
        ResourceView::Gpu(g) => "サーバー: "@ + g.server + ", モデル: "@ + g.model + ", デバイスID: "@
            + decimal(g.device_number as nat),
        ResourceView::Room { name } => name,
    }
}

/// The resources described one after another, separated by ", ".
pub open spec fn webhook_resources_text(rs: Seq<ResourceView>) -> Seq<char> {
    join(rs.map_values(|r: ResourceView| webhook_resource_text(r)), ", "@)
}

/// `r` is the instant `t` in UTC as `%Y-%m-%d %H:%M`.
pub open spec fn utc_minute_text(r: Seq<char>, t: int) -> bool {
    exists|ldt: LocalDateTime| #![trigger fields_of(ldt, t)] fields_of(ldt, t) && r == ymd_text(ldt) + " "@ + clock_text(ldt)
}

/// `r` is the period's start and end in UTC, joined by " - ".
pub open spec fn webhook_period_text(r: Seq<char>, p: TimePeriod) -> bool {
    exists|a: Seq<char>, b: Seq<char>|
        #![trigger utc_minute_text(a, p.start as int), utc_minute_text(b, p.end as int)]
        utc_minute_text(a, p.start as int) && utc_minute_text(b, p.end as int) && r == a + " - "@ + b
}

/// The notes suffix: " (notes)" when there are notes.
pub open spec fn webhook_notes(notes: Option<Seq<char>>) -> Seq<char> {
    match notes {
        Some(n) => " ("@ + n + ")"@,
        None => Seq::empty(),
    }
}

/// `r` is the webhook message for the event.
pub open spec fn webhook_message(r: Seq<char>, event: NotificationEvent) -> bool {
    let u = event.usage()@;
    match event {
        NotificationEvent::ResourceUsageCreated(_) => exists|period: Seq<char>|
            #![trigger webhook_period_text(period, u.time_period)]
            webhook_period_text(period, u.time_period) && r == "[新規使用予定] "@ + u.owner_email
                + "\n期間: "@ + period + "\n資源: "@ + webhook_resources_text(u.resources)
                + webhook_notes(u.notes),
        NotificationEvent::ResourceUsageUpdated(_) => exists|period: Seq<char>|
            #![trigger webhook_period_text(period, u.time_period)]
            webhook_period_text(period, u.time_period) && r == "[使用予定更新] "@ + u.owner_email
                + "\n期間: "@ + period + "\n資源: "@ + webhook_resources_text(u.resources),
        NotificationEvent::ResourceUsageDeleted(_) => r == "[使用予定削除] "@ + u.owner_email
            + "が使用予定を削除しました"@,
    }
}

/// Appends an instant in UTC as `%Y-%m-%d %H:%M`.
fn push_utc_minute(s: &mut String, t: i64) -> (g: Ghost<Seq<char>>)
    requires
        -8_000_000_000_000 <= t <= 8_000_000_000_000,
    ensures
        utc_minute_text(g@, t as int),
        final(s)@ == old(s)@ + g@,
{
    let ldt = local_date_time(t);
    let ghost before = s@;
    push_ymd(s, &ldt);
    push_str(s, " ");
    push_clock(s, &ldt);
    let ghost r = ymd_text(ldt) + " "@ + clock_text(ldt);
    assert(s@ =~= before + r);
    assert(utc_minute_text(r, t as int));
    Ghost(r)
}

/// Appends the resources, described one after another and separated by ", ".
fn push_webhook_resources(s: &mut String, resources: &[Resource])
    ensures
        final(s)@ == old(s)@ + webhook_resources_text(resources_view(resources@)),
{
    let ghost texts = resources_view(resources@).map_values(
        |r: ResourceView| webhook_resource_text(r),
    );
    let ghost start = s@;
    let mut i: usize = 0;
    while i < resources.len()
        invariant
            texts == resources_view(resources@).map_values(
                |r: ResourceView| webhook_resource_text(r),
            ),
            i <= resources@.len(),
            s@ == start + join(texts.subrange(0, i as int), ", "@),
        decreases resources@.len() - i,
    {
        let ghost prev = texts.subrange(0, i as int);
        let ghost next = texts.subrange(0, i + 1);
        assert(next.drop_last() =~= prev);
        let ghost before = s@;
        if i > 0 {
            push_str(s, ", ");
        }
        match &resources[i] {
            Resource::Gpu(g) => {
                push_str(s, "サーバー: ");
                push_str(s, g.server());
                push_str(s, ", モデル: ");
                push_str(s, g.model());
                push_str(s, ", デバイスID: ");
                push_decimal(s, g.device_number() as u64);
            },
            Resource::Room { name } => {
                push_str(s, name.as_str());
            },
        }
        proof {
            assert(next.last() == texts[i as int]);
            if i == 0 {
                assert(join(next, ", "@) == next[0]);
                assert(s@ =~= start + join(next, ", "@));
            } else {
                assert(s@ =~= start + join(next, ", "@));
            }
        }
        i = i + 1;
    }
    assert(texts.subrange(0, resources@.len() as int) =~= texts);
}

/// Sends plain-text reservation messages to a Slack incoming webhook.
pub struct SlackNotifier {
    pub webhook_url: String,
}

impl SlackNotifier {
    /// A notifier for the webhook.
    pub fn new(webhook_url: String) -> (n: SlackNotifier)
        ensures
            n.webhook_url@ == webhook_url@,
    {
        SlackNotifier { webhook_url }
    }

    /// The message for the event: what happened, the owner, the period in UTC and the
    /// resources (with the notes for a new reservation).
    pub fn format_message(&self, event: &NotificationEvent) -> (r: String)
        requires
            period_in_range(event.usage().time_period),
        ensures
            webhook_message(r@, *event),
    {
        let usage = event.usage_of();
        match event {
            NotificationEvent::ResourceUsageDeleted(_) => {
                let mut r = owned("[使用予定削除] ");
                push_str(&mut r, usage.owner_email());
                push_str(&mut r, "が使用予定を削除しました");
                r
            },
            _ => {
                let mut r = match event {
                    NotificationEvent::ResourceUsageCreated(_) => owned("[新規使用予定] "),
                    _ => owned("[使用予定更新] "),
                };
                push_str(&mut r, usage.owner_email());
                push_str(&mut r, "\n期間: ");
                let ghost head = r@;
                let a = push_utc_minute(&mut r, usage.time_period.start);
                push_str(&mut r, " - ");
                let b = push_utc_minute(&mut r, usage.time_period.end);
                let ghost period = a@ + " - "@ + b@;
                assert(r@ =~= head + period);
                assert(webhook_period_text(period, event.usage()@.time_period));
                push_str(&mut r, "\n資源: ");
                push_webhook_resources(&mut r, usage.resources());
                match event {
                    NotificationEvent::ResourceUsageCreated(_) => match usage.notes() {
                        Some(n) => {
                            push_str(&mut r, " (");
                            push_str(&mut r, n);
                            push_str(&mut r, ")");
                        },
                        None => {},
                    },
                    _ => {},
                }
                assert(r@ =~= head + period + "\n資源: "@ + webhook_resources_text(usage@.resources) + match event {
                    NotificationEvent::ResourceUsageCreated(_) => webhook_notes(usage@.notes),
                    _ => Seq::empty(),
                });
                r
            },
        }
    }
}

} // verus!
