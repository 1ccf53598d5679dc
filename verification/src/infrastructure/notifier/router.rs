//! Routing a reservation event to the destinations of its resources.
use crate::domain::notification::NotificationEvent;
use crate::domain::resource::ResourceView;
use crate::infrastructure::config::notification_format::{DateFormat, ResourceStyle, TimeStyle};
use crate::infrastructure::config::resource_config::{
    configs_view, notifications_for, NotificationConfig, NotificationConfigView, ResourceConfig,
};
use crate::infrastructure::notifier::formatter::{
    format_resources_styled, format_time_styled, period_in_range, spec_format_resources,
    time_styled_ok,
};
use crate::text::{owned, push_str};
use vstd::prelude::*;

verus! {

/// The destinations of the resources, resource after resource.
pub open spec fn configs_for_resources(config: ResourceConfig, rs: Seq<ResourceView>) -> Seq<
    NotificationConfigView,
>
    decreases rs.len(),
{
    if rs.len() == 0 {
        Seq::empty()
    } else {
        configs_for_resources(config, rs.drop_last()) + notifications_for(config, rs.last())
    }
}

/// The destinations with repeats left out: each kept where it first occurs.
pub open spec fn without_repeats(s: Seq<NotificationConfigView>) -> Seq<NotificationConfigView>
    decreases s.len(),
{
    if s.len() == 0 {
        Seq::empty()
    } else {
        let p = without_repeats(s.drop_last());
        if p.contains(s.last()) {
            p
        } else {
            p.push(s.last())
        }
    }
}

/// Leaving out repeats keeps every destination and holds each once: each destination is
/// notified exactly once.
pub proof fn lemma_without_repeats(s: Seq<NotificationConfigView>)
    ensures
        forall|x: NotificationConfigView| without_repeats(s).contains(x) <==> s.contains(x),
        forall|i: int, j: int|
            0 <= i < j < without_repeats(s).len() ==> without_repeats(s)[i] != without_repeats(
                s,
            )[j],
    decreases s.len(),
{
    if s.len() > 0 {
        let d = s.drop_last();
        lemma_without_repeats(d);
        let p = without_repeats(d);
        let w = without_repeats(s);
        assert(w == if p.contains(s.last()) { p } else { p.push(s.last()) });
        assert forall|x: NotificationConfigView| w.contains(x) implies s.contains(x) by {
            if p.contains(x) {
                assert(d.contains(x));
                let k = choose|k: int| 0 <= k < d.len() && d[k] == x;
                assert(s[k] == x);
            } else {
                let k = choose|k: int| 0 <= k < w.len() && w[k] == x;
                assert(k == p.len());
                assert(s[s.len() - 1] == x);
            }
        }
        assert forall|x: NotificationConfigView| s.contains(x) implies w.contains(x) by {
            let k = choose|k: int| 0 <= k < s.len() && s[k] == x;
            if k < s.len() - 1 {
                assert(d[k] == x);
                assert(d.contains(x));
                assert(p.contains(x));
                let m = choose|m: int| 0 <= m < p.len() && p[m] == x;
                assert(w[m] == x);
            } else if !p.contains(x) {
                assert(w[p.len() as int] == x);
            }
        }
    }
}

/// The notes suffix of a new reservation's message.
pub open spec fn router_notes(notes: Option<Seq<char>>) -> Seq<char> {
    match notes {
        Some(n) => " ("@ + n + ")"@,
        None => Seq::empty(),
    }
}

/// The header a router message starts with, for each kind of event.
pub open spec fn router_header(event: NotificationEvent) -> Seq<char> {
    match event {
        NotificationEvent::ResourceUsageCreated(_) => "✨ [新規使用予定] "@,
        NotificationEvent::ResourceUsageUpdated(_) => "♻️ [使用予定更新] "@,
        NotificationEvent::ResourceUsageDeleted(_) => "🗑️ [使用予定削除] "@,
    }
}

/// `r` is the router's message for the event, with the period in the full style.
pub open spec fn router_message(r: Seq<char>, event: NotificationEvent) -> bool {
    let u = event.usage()@;
    exists|time: Seq<char>|
        #![trigger time_styled_ok(time, u.time_period, None, TimeStyle::Full, DateFormat::Ymd)]
        time_styled_ok(time, u.time_period, None, TimeStyle::Full, DateFormat::Ymd) && r
            == router_header(event) + u.owner_email + "\n⏰ 期間: "@ + time + "\n🖥️ 資源:\n"@
            + spec_format_resources(
            u.resources,
            ResourceStyle::Full,
        ) + match event {
            NotificationEvent::ResourceUsageCreated(_) => router_notes(u.notes),
            _ => Seq::empty(),
        }
}

/// A router message says what happened to whose reservation: it starts with the event's
/// header, then the owner; a deleted reservation's message starts "🗑️ [使用予定削除] ", a new
/// one's "✨ [新規使用予定] ", a changed one's "♻️ [使用予定更新] ".
pub proof fn lemma_router_message_header(r: Seq<char>, event: NotificationEvent)
    requires
        router_message(r, event),
    ensures
        r.len() >= router_header(event).len() + event.usage()@.owner_email.len(),
        r.subrange(0, (router_header(event).len() + event.usage()@.owner_email.len()) as int)
            == router_header(event) + event.usage()@.owner_email,
        event is ResourceUsageDeleted ==> r.subrange(0, "🗑️ [使用予定削除] "@.len() as int)
            == "🗑️ [使用予定削除] "@,
        event is ResourceUsageCreated ==> r.subrange(0, "✨ [新規使用予定] "@.len() as int)
            == "✨ [新規使用予定] "@,
        event is ResourceUsageUpdated ==> r.subrange(0, "♻️ [使用予定更新] "@.len() as int)
            == "♻️ [使用予定更新] "@,
{
    let u = event.usage()@;
    let time = choose|time: Seq<char>|
        time_styled_ok(time, u.time_period, None, TimeStyle::Full, DateFormat::Ymd) && r
            == router_header(event) + u.owner_email + "\n⏰ 期間: "@ + time + "\n🖥️ 資源:\n"@
            + spec_format_resources(
            u.resources,
            ResourceStyle::Full,
        ) + match event {
            NotificationEvent::ResourceUsageCreated(_) => router_notes(u.notes),
            _ => Seq::empty(),
        };
    let h = router_header(event);
    let rest = "\n⏰ 期間: "@ + time + "\n🖥️ 資源:\n"@ + spec_format_resources(
        u.resources,
        ResourceStyle::Full,
    ) + match event {
        NotificationEvent::ResourceUsageCreated(_) => router_notes(u.notes),
        _ => Seq::empty(),
    };
    assert(r =~= (h + u.owner_email) + rest);
    assert(r.subrange(0, (h.len() + u.owner_email.len()) as int) =~= h + u.owner_email);
    assert(r.subrange(0, h.len() as int) =~= h);
}

/// Messages for different kinds of events never coincide: the three kinds have three
/// distinct headers.
pub proof fn lemma_router_kinds_told_apart(
    r1: Seq<char>,
    e1: NotificationEvent,
    r2: Seq<char>,
    e2: NotificationEvent,
)
    requires
        router_message(r1, e1),
        router_message(r2, e2),
        (e1 is ResourceUsageCreated) != (e2 is ResourceUsageCreated) || (e1 is ResourceUsageUpdated)
            != (e2 is ResourceUsageUpdated),
    ensures
        r1 != r2,
{
    reveal_strlit("✨ [新規使用予定] ");
    reveal_strlit("♻️ [使用予定更新] ");
    reveal_strlit("🗑️ [使用予定削除] ");
    lemma_router_message_header(r1, e1);
    lemma_router_message_header(r2, e2);
    let h1 = router_header(e1);
    let h2 = router_header(e2);
    assert(r1.subrange(0, h1.len() as int)[0] == r1[0]);
    assert(r2.subrange(0, h2.len() as int)[0] == r2[0]);
    assert(h1[0] != h2[0]);
}

/// Whether the list holds a destination with the same settings.
fn contains_config(list: &[NotificationConfig], c: &NotificationConfig) -> (b: bool)
    ensures
        b == configs_view(list@).contains(c@),
{
    let ghost v = configs_view(list@);
    let mut i: usize = 0;
    while i < list.len()
        invariant
            v == configs_view(list@),
            i <= list@.len(),
            forall|j: int| 0 <= j < i ==> v[j] != c@,
        decreases list@.len() - i,
    {
        if list[i].same_as(c) {
            assert(v[i as int] == c@);
            return true;
        }
        i = i + 1;
    }
    false
}

/// Routes reservation events to the destinations configured for their resources.
pub struct NotificationRouter {
    pub config: ResourceConfig,
}

impl NotificationRouter {
    /// A router over the resource settings.
    pub fn new(config: ResourceConfig) -> (r: NotificationRouter)
        ensures
            r.config == config,
    {
        NotificationRouter { config }
    }

    /// The message for the event: what happened, the owner, the period and the resources
    /// (with the notes for a new reservation).
    pub fn format_message(&self, event: &NotificationEvent) -> (r: String)
        requires
            period_in_range(event.usage().time_period),
        ensures
            router_message(r@, *event),
    {
        let usage = event.usage_of();
        let resources = format_resources_styled(usage.resources(), ResourceStyle::Full);
        let time = format_time_styled(&usage.time_period, None, TimeStyle::Full, DateFormat::Ymd);
        let mut r = match event {
            NotificationEvent::ResourceUsageCreated(_) => owned("✨ [新規使用予定] "),
            NotificationEvent::ResourceUsageUpdated(_) => owned("♻️ [使用予定更新] "),
            NotificationEvent::ResourceUsageDeleted(_) => owned("🗑️ [使用予定削除] "),
        };
        push_str(&mut r, usage.owner_email());
        push_str(&mut r, "\n⏰ 期間: ");
        push_str(&mut r, time.as_str());
        push_str(&mut r, "\n🖥️ 資源:\n");
        push_str(&mut r, resources.as_str());
        match event {
            NotificationEvent::ResourceUsageCreated(_) => match usage.notes() {
                Some(n) => {
                    push_str(&mut r, " (");
                    push_str(&mut r, n);
                    push_str(&mut r, ")");
                },
                None => {},
            },
            _ => {},
        }
        let ghost u = event.usage()@;
        assert(time_styled_ok(time@, u.time_period, None, TimeStyle::Full, DateFormat::Ymd));
        assert(r@ =~= match *event {
            NotificationEvent::ResourceUsageCreated(_) => "✨ [新規使用予定] "@,
            NotificationEvent::ResourceUsageUpdated(_) => "♻️ [使用予定更新] "@,
            NotificationEvent::ResourceUsageDeleted(_) => "🗑️ [使用予定削除] "@,
        } + u.owner_email + "\n⏰ 期間: "@ + time@ + "\n🖥️ 資源:\n"@ + spec_format_resources(
            u.resources,
            ResourceStyle::Full,
        ) + match *event {
            NotificationEvent::ResourceUsageCreated(_) => router_notes(u.notes),
            _ => Seq::empty(),
        });
        r
    }

    /// The destinations of the event's resources, each once, in the order they first come.
    pub fn collect_notification_configs(&self, event: &NotificationEvent) -> (cs: Vec<
        NotificationConfig,
    >)
        ensures
            configs_view(cs@) == without_repeats(
                configs_for_resources(self.config, event.usage()@.resources),
            ),
    {
        let resources = event.usage_of().resources();
        let ghost rs = event.usage()@.resources;
        let mut out: Vec<NotificationConfig> = Vec::new();
        let mut i: usize = 0;
        while i < resources.len()
            invariant
                rs == event.usage()@.resources,
                rs.len() == resources@.len(),
                forall|k: int| 0 <= k < rs.len() ==> rs[k] == resources@[k]@,
                i <= resources@.len(),
                configs_view(out@) == without_repeats(
                    configs_for_resources(self.config, rs.subrange(0, i as int)),
                ),
            decreases resources@.len() - i,
        {
            let found = self.config.get_notifications_for_resource(&resources[i]);
            let ghost base = configs_for_resources(self.config, rs.subrange(0, i as int));
            let mut j: usize = 0;
            while j < found.len()
                invariant
                    i < resources@.len(),
                    j <= found@.len(),
                    configs_view(out@) == without_repeats(
                        base + configs_view(found@).subrange(0, j as int),
                    ),
                decreases found@.len() - j,
            {
                let ghost prev = base + configs_view(found@).subrange(0, j as int);
                let ghost next = base + configs_view(found@).subrange(0, j + 1);
                assert(next.drop_last() =~= prev);
                assert(next.last() == found@[j as int]@);
                if !contains_config(out.as_slice(), &found[j]) {
                    let ghost before = configs_view(out@);
                    out.push(found[j].duplicate());
                    assert(configs_view(out@) =~= before.push(found@[j as int]@));
                }
                j = j + 1;
            }
            proof {
                let p = rs.subrange(0, i + 1);
                assert(p.drop_last() =~= rs.subrange(0, i as int));
                assert(p.last() == resources@[i as int]@);
                assert(configs_view(found@).subrange(0, found@.len() as int) =~= configs_view(
                    found@,
                ));
            }
            i = i + 1;
        }
        assert(rs.subrange(0, rs.len() as int) =~= rs);
        out
    }
}

} // verus!
