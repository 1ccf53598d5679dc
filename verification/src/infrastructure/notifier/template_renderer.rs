//! Message templates and their placeholders.
use crate::domain::resource::{resources_view, Resource, ResourceUsage, ResourceView, TimePeriod};
use crate::infrastructure::config::notification_format::{FormatConfig, TemplateConfig};
use crate::infrastructure::notifier::formatter::{
    format_resources_styled, format_time_styled, period_in_range, spec_format_resources,
    time_styled_ok,
};
use crate::infrastructure::notifier::local_time::tz_view;
use crate::text::{chars_of, occurs_at, push_char, push_str};
use vstd::prelude::*;

verus! {

/// The display name of the user.
pub const PLACEHOLDER_USER: &'static str = "{user}";

/// The reserved resources.
pub const PLACEHOLDER_RESOURCE: &'static str = "{resource}";

/// The reserved period.
pub const PLACEHOLDER_TIME: &'static str = "{time}";

/// The notes section (empty without notes).
pub const PLACEHOLDER_NOTES: &'static str = "{notes}";

/// The label of the kind of resources ("💻 予約GPU" and the like).
pub const PLACEHOLDER_RESOURCE_LABEL: &'static str = "{resource_label}";

/// Built-in template for a created reservation.
pub const DEFAULT_CREATED: &'static str = "🔔 新規予約\n👤 {user}\n\n📅 期間\n{time}\n\n{resource_label}\n{resource}{notes}";

/// Built-in template for an updated reservation.
pub const DEFAULT_UPDATED: &'static str = "🔄 予約更新\n👤 {user}\n\n📅 期間\n{time}\n\n{resource_label}\n{resource}{notes}";

/// Built-in template for a deleted reservation.
pub const DEFAULT_DELETED: &'static str = "🗑️ 予約削除\n👤 {user}\n\n📅 期間\n{time}\n\n{resource_label}\n{resource}{notes}";

/// Built-in template for a conflicting reservation.
pub const DEFAULT_CONFLICT: &'static str = "⚠️ 予約が重複しています\n👤 予約者\n{user}\n\n📅 競合する期間\n{time}\n\n{resource_label}\n{resource}{notes}";

/// The values that replace the placeholders.
pub struct RenderValues {
    pub resource_label: Seq<char>,
    pub resources: Seq<char>,
    pub user: Seq<char>,
    pub time: Seq<char>,
    pub notes: Seq<char>,
}

/// A template with every placeholder replaced by its value, in one pass from left to
/// right: replaced values are not scanned again. At each position the longer
/// `{resource_label}` is tried before `{resource}`.
pub open spec fn render_template(t: Seq<char>, v: RenderValues) -> Seq<char>
    decreases t.len(),
{
    if t.len() == 0 {
        Seq::empty()
    } else if PLACEHOLDER_RESOURCE_LABEL@.len() > 0 && occurs_at(t, 0, PLACEHOLDER_RESOURCE_LABEL@) {
        v.resource_label + render_template(
            t.subrange(PLACEHOLDER_RESOURCE_LABEL@.len() as int, t.len() as int),
            v,
        )
    } else if PLACEHOLDER_RESOURCE@.len() > 0 && occurs_at(t, 0, PLACEHOLDER_RESOURCE@) {
        v.resources + render_template(
            t.subrange(PLACEHOLDER_RESOURCE@.len() as int, t.len() as int),
            v,
        )
    } else if PLACEHOLDER_USER@.len() > 0 && occurs_at(t, 0, PLACEHOLDER_USER@) {
        v.user + render_template(t.subrange(PLACEHOLDER_USER@.len() as int, t.len() as int), v)
    } else if PLACEHOLDER_TIME@.len() > 0 && occurs_at(t, 0, PLACEHOLDER_TIME@) {
        v.time + render_template(t.subrange(PLACEHOLDER_TIME@.len() as int, t.len() as int), v)
    } else if PLACEHOLDER_NOTES@.len() > 0 && occurs_at(t, 0, PLACEHOLDER_NOTES@) {
        v.notes + render_template(t.subrange(PLACEHOLDER_NOTES@.len() as int, t.len() as int), v)
    } else {
        seq![t[0]] + render_template(t.drop_first(), v)
    }
}

/// A template without an opening brace holds no placeholder: it renders as written,
/// whatever the values.
pub proof fn lemma_plain_template(t: Seq<char>, v: RenderValues)
    requires
        !t.contains('{'),
    ensures
        render_template(t, v) == t,
    decreases t.len(),
{
    reveal_strlit("{resource_label}");
    reveal_strlit("{resource}");
    reveal_strlit("{user}");
    reveal_strlit("{time}");
    reveal_strlit("{notes}");
    if t.len() > 0 {
        assert(t[0] != '{');
        let rest = t.drop_first();
        assert(!rest.contains('{')) by {
            if rest.contains('{') {
                let j = choose|j: int| 0 <= j < rest.len() && rest[j] == '{';
                assert(t[j + 1] == '{');
            }
        }
        lemma_plain_template(rest, v);
        assert(!occurs_at(t, 0, PLACEHOLDER_RESOURCE_LABEL@)) by {
            if occurs_at(t, 0, PLACEHOLDER_RESOURCE_LABEL@) {
                assert(t.subrange(0, PLACEHOLDER_RESOURCE_LABEL@.len() as int)[0] == t[0]);
            }
        }
        assert(!occurs_at(t, 0, PLACEHOLDER_RESOURCE@)) by {
            if occurs_at(t, 0, PLACEHOLDER_RESOURCE@) {
                assert(t.subrange(0, PLACEHOLDER_RESOURCE@.len() as int)[0] == t[0]);
            }
        }
        assert(!occurs_at(t, 0, PLACEHOLDER_USER@)) by {
            if occurs_at(t, 0, PLACEHOLDER_USER@) {
                assert(t.subrange(0, PLACEHOLDER_USER@.len() as int)[0] == t[0]);
            }
        }
        assert(!occurs_at(t, 0, PLACEHOLDER_TIME@)) by {
            if occurs_at(t, 0, PLACEHOLDER_TIME@) {
                assert(t.subrange(0, PLACEHOLDER_TIME@.len() as int)[0] == t[0]);
            }
        }
        assert(!occurs_at(t, 0, PLACEHOLDER_NOTES@)) by {
            if occurs_at(t, 0, PLACEHOLDER_NOTES@) {
                assert(t.subrange(0, PLACEHOLDER_NOTES@.len() as int)[0] == t[0]);
            }
        }
        assert(seq![t[0]] + rest =~= t);
    }
}

/// The label of the kind of the resources.
pub open spec fn resource_label(rs: Seq<ResourceView>) -> Seq<char> {
    let has_gpu = exists|i: int| 0 <= i < rs.len() && rs[i] is Gpu;
    let has_room = exists|i: int| 0 <= i < rs.len() && rs[i] is Room;
    if has_gpu && !has_room {
        "💻 予約GPU"@
    } else if has_room && !has_gpu {
        "🏢 予約部屋"@
    } else {
        "📦 予約リソース"@
    }
}

/// The notes section: empty without notes or with empty notes.
pub open spec fn notes_section(notes: Option<Seq<char>>) -> Seq<char> {
    match notes {
        Some(n) => if n.len() > 0 {
            "\n\n📝 備考\n"@ + n
        } else {
            Seq::empty()
        },
        None => Seq::empty(),
    }
}

/// The label of the kind of the resources: GPUs only, rooms only, or anything else.
pub fn resource_label_of(resources: &[Resource]) -> (s: &'static str)
    ensures
        s@ == resource_label(resources_view(resources@)),
{
    let ghost rv = resources_view(resources@);
    let mut has_gpu = false;
    let mut has_room = false;
    let mut i: usize = 0;
    while i < resources.len()
        invariant
            rv == resources_view(resources@),
            i <= resources@.len(),
            has_gpu == (exists|j: int| 0 <= j < i && rv[j] is Gpu),
            has_room == (exists|j: int| 0 <= j < i && rv[j] is Room),
        decreases resources@.len() - i,
    {
        match &resources[i] {
            Resource::Gpu(_) => {
                has_gpu = true;
            },
            Resource::Room { .. } => {
                has_room = true;
            },
        }
        assert(rv[i as int] == resources@[i as int]@);
        i = i + 1;
    }
    if has_gpu && !has_room {
        "💻 予約GPU"
    } else if has_room && !has_gpu {
        "🏢 予約部屋"
    } else {
        "📦 予約リソース"
    }
}

/// Whether `p` occurs in `s` at position `at`.
fn occurs_in_chars(s: &Vec<char>, at: usize, p: &Vec<char>) -> (b: bool)
    requires
        at <= s@.len(),
    ensures
        b == occurs_at(s@, at as int, p@),
{
    if p.len() > s.len() - at {
        return false;
    }
    let mut k: usize = 0;
    while k < p.len()
        invariant
            at <= s@.len(),
            at + p@.len() <= s@.len(),
            s@.len() == s.len(),
            k <= p@.len(),
            forall|j: int| 0 <= j < k ==> s@[at + j] == p@[j],
        decreases p@.len() - k,
    {
        if s[at + k] != p[k] {
            assert(s@.subrange(at as int, at + p@.len())[k as int] != p@[k as int]);
            return false;
        }
        k = k + 1;
    }
    assert(s@.subrange(at as int, at + p@.len()) =~= p@);
    true
}

proof fn lemma_occurs_shift(s: Seq<char>, i: int, p: Seq<char>)
    requires
        0 <= i <= s.len(),
    ensures
        occurs_at(s, i, p) == occurs_at(s.subrange(i, s.len() as int), 0, p),
{
    let t = s.subrange(i, s.len() as int);
    if i + p.len() <= s.len() {
        assert(t.subrange(0, p.len() as int) =~= s.subrange(i, i + p.len()));
    }
}


/// One step of the left-to-right pass.
proof fn lemma_render_step(t: Seq<char>, v: RenderValues)
    requires
        t.len() > 0,
        PLACEHOLDER_RESOURCE_LABEL@.len() == 16,
        PLACEHOLDER_RESOURCE@.len() == 10,
        PLACEHOLDER_USER@.len() == 6,
        PLACEHOLDER_TIME@.len() == 6,
        PLACEHOLDER_NOTES@.len() == 7,
    ensures
        occurs_at(t, 0, PLACEHOLDER_RESOURCE_LABEL@) ==> render_template(t, v) == v.resource_label
            + render_template(t.subrange(16, t.len() as int), v),
        !occurs_at(t, 0, PLACEHOLDER_RESOURCE_LABEL@) && occurs_at(t, 0, PLACEHOLDER_RESOURCE@)
            ==> render_template(t, v) == v.resources + render_template(
            t.subrange(10, t.len() as int),
            v,
        ),
        !occurs_at(t, 0, PLACEHOLDER_RESOURCE_LABEL@) && !occurs_at(t, 0, PLACEHOLDER_RESOURCE@)
            && occurs_at(t, 0, PLACEHOLDER_USER@) ==> render_template(t, v) == v.user
            + render_template(t.subrange(6, t.len() as int), v),
        !occurs_at(t, 0, PLACEHOLDER_RESOURCE_LABEL@) && !occurs_at(t, 0, PLACEHOLDER_RESOURCE@)
            && !occurs_at(t, 0, PLACEHOLDER_USER@) && occurs_at(t, 0, PLACEHOLDER_TIME@)
            ==> render_template(t, v) == v.time + render_template(t.subrange(6, t.len() as int), v),
        !occurs_at(t, 0, PLACEHOLDER_RESOURCE_LABEL@) && !occurs_at(t, 0, PLACEHOLDER_RESOURCE@)
            && !occurs_at(t, 0, PLACEHOLDER_USER@) && !occurs_at(t, 0, PLACEHOLDER_TIME@)
            && occurs_at(t, 0, PLACEHOLDER_NOTES@) ==> render_template(t, v) == v.notes
            + render_template(t.subrange(7, t.len() as int), v),
        !occurs_at(t, 0, PLACEHOLDER_RESOURCE_LABEL@) && !occurs_at(t, 0, PLACEHOLDER_RESOURCE@)
            && !occurs_at(t, 0, PLACEHOLDER_USER@) && !occurs_at(t, 0, PLACEHOLDER_TIME@)
            && !occurs_at(t, 0, PLACEHOLDER_NOTES@) ==> render_template(t, v) == seq![t[0]]
            + render_template(t.subrange(1, t.len() as int), v),
{
    assert(t.drop_first() =~= t.subrange(1, t.len() as int));
}

/// Replaces the placeholders of a template by their values in one left-to-right pass.
pub fn render_placeholders(
    template: &str,
    label: &str,
    resources: &str,
    user: &str,
    time: &str,
    notes: &str,
) -> (r: String)
    ensures
        r@ == render_template(
            template@,
            RenderValues {
                resource_label: label@,
                resources: resources@,
                user: user@,
                time: time@,
                notes: notes@,
            },
        ),
{
    let ghost v = RenderValues {
        resource_label: label@,
        resources: resources@,
        user: user@,
        time: time@,
        notes: notes@,
    };
    let t = chars_of(template);
    let p_label = chars_of(PLACEHOLDER_RESOURCE_LABEL);
    let p_resource = chars_of(PLACEHOLDER_RESOURCE);
    let p_user = chars_of(PLACEHOLDER_USER);
    let p_time = chars_of(PLACEHOLDER_TIME);
    let p_notes = chars_of(PLACEHOLDER_NOTES);
    proof {
        reveal_strlit("{resource_label}");
        reveal_strlit("{resource}");
        reveal_strlit("{user}");
        reveal_strlit("{time}");
        reveal_strlit("{notes}");
    }
    let mut r = String::new();
    let mut i: usize = 0;
    assert(t@.subrange(0, t@.len() as int) =~= t@);
    assert(r@ + render_template(t@, v) =~= render_template(t@, v));
    while i < t.len()
        invariant
            t@ == template@,
            v.resource_label == label@,
            v.resources == resources@,
            v.user == user@,
            v.time == time@,
            v.notes == notes@,
            p_label@ == PLACEHOLDER_RESOURCE_LABEL@,
            p_resource@ == PLACEHOLDER_RESOURCE@,
            p_user@ == PLACEHOLDER_USER@,
            p_time@ == PLACEHOLDER_TIME@,
            p_notes@ == PLACEHOLDER_NOTES@,
            p_label@.len() == 16,
            p_resource@.len() == 10,
            p_user@.len() == 6,
            p_time@.len() == 6,
            p_notes@.len() == 7,
            i <= t@.len(),
            render_template(t@, v) == r@ + render_template(
                t@.subrange(i as int, t@.len() as int),
                v,
            ),
        decreases t@.len() - i,
    {
        let ghost rest = t@.subrange(i as int, t@.len() as int);
        proof {
            lemma_occurs_shift(t@, i as int, p_label@);
            lemma_occurs_shift(t@, i as int, p_resource@);
            lemma_occurs_shift(t@, i as int, p_user@);
            lemma_occurs_shift(t@, i as int, p_time@);
            lemma_occurs_shift(t@, i as int, p_notes@);
        }
        proof {
            lemma_render_step(rest, v);
        }
        let ghost prev = r@;
        let ghost piece: Seq<char>;
        let step: usize;
        if occurs_in_chars(&t, i, &p_label) {
            push_str(&mut r, label);
            step = 16;
            proof {
                piece = label@;
                assert(render_template(rest, v) == piece + render_template(rest.subrange(16, rest.len() as int), v));
            }
        } else if occurs_in_chars(&t, i, &p_resource) {
            push_str(&mut r, resources);
            step = 10;
            proof {
                piece = resources@;
                assert(render_template(rest, v) == piece + render_template(rest.subrange(10, rest.len() as int), v));
            }
        } else if occurs_in_chars(&t, i, &p_user) {
            push_str(&mut r, user);
            step = 6;
            proof {
                piece = user@;
                assert(render_template(rest, v) == piece + render_template(rest.subrange(6, rest.len() as int), v));
            }
        } else if occurs_in_chars(&t, i, &p_time) {
            push_str(&mut r, time);
            step = 6;
            proof {
                piece = time@;
                assert(render_template(rest, v) == piece + render_template(rest.subrange(6, rest.len() as int), v));
            }
        } else if occurs_in_chars(&t, i, &p_notes) {
            push_str(&mut r, notes);
            step = 7;
            proof {
                piece = notes@;
                assert(render_template(rest, v) == piece + render_template(rest.subrange(7, rest.len() as int), v));
            }
        } else {
            push_char(&mut r, t[i]);
            step = 1;
            proof {
                piece = seq![rest[0]];
                assert(rest.drop_first() =~= rest.subrange(1, rest.len() as int));
                assert(render_template(rest, v) == piece + render_template(rest.subrange(1, rest.len() as int), v));
            }
            assert(rest.drop_first() =~= t@.subrange(i + 1, t@.len() as int));
            assert(r@ =~= prev + seq![rest[0]]);
        }
        proof {
            assert(rest.subrange(step as int, rest.len() as int) =~= t@.subrange(
                i + step,
                t@.len() as int,
            ));
            assert(r@ =~= prev + piece);
            assert(render_template(rest, v) == piece + render_template(
                rest.subrange(step as int, rest.len() as int),
                v,
            ));
            assert(prev + (piece + render_template(rest.subrange(step as int, rest.len() as int), v))
                =~= r@ + render_template(rest.subrange(step as int, rest.len() as int), v));
        }
        i = i + step;
    }
    assert(t@.subrange(i as int, t@.len() as int) =~= Seq::<char>::empty());
    assert(r@ + Seq::<char>::empty() =~= r@);
    r
}

/// Renders reservation messages from templates and display styles.
pub struct TemplateRenderer<'a> {
    pub templates: &'a TemplateConfig,
    pub format: &'a FormatConfig,
    pub timezone: Option<&'a str>,
}

/// The model of a template choice: the configured one, else the built-in one.
pub open spec fn chosen_template(configured: Option<String>, builtin: &str) -> Seq<char> {
    match configured {
        Some(t) => t@,
        None => builtin@,
    }
}

impl<'a> TemplateRenderer<'a> {
    /// A renderer over templates, display styles and a zone setting.
    pub fn new(
        templates: &'a TemplateConfig,
        format: &'a FormatConfig,
        timezone: Option<&'a str>,
    ) -> (r: TemplateRenderer<'a>)
        ensures
            r.templates == templates,
            r.format == format,
            r.timezone == timezone,
    {
        TemplateRenderer { templates, format, timezone }
    }

    /// The label of the kind of the resources.
    pub fn get_resource_label(resources: &[Resource]) -> (s: &'static str)
        ensures
            s@ == resource_label(resources_view(resources@)),
    {
        resource_label_of(resources)
    }

    /// What `render` produces for a template and message parts.
    pub open spec fn rendered(
        &self,
        r: Seq<char>,
        template: Seq<char>,
        resources: Seq<ResourceView>,
        period: TimePeriod,
        notes: Option<Seq<char>>,
        user: Seq<char>,
    ) -> bool {
        exists|time: Seq<char>|
            #![trigger time_styled_ok(time, period, tz_view(self.timezone), self.format.time_style, self.format.date_format)]
            time_styled_ok(
                time,
                period,
                tz_view(self.timezone),
                self.format.time_style,
                self.format.date_format,
            ) && r == render_template(
                template,
                RenderValues {
                    resource_label: resource_label(resources),
                    resources: spec_format_resources(resources, self.format.resource_style),
                    user,
                    time,
                    notes: notes_section(notes),
                },
            )
    }

    /// Renders a template with the formatted resources, period, notes and user.
    pub fn render(
        &self,
        template: &str,
        resources: &[Resource],
        time_period: &TimePeriod,
        notes: Option<&str>,
        user_display: &str,
    ) -> (r: String)
        requires
            period_in_range(*time_period),
        ensures
            self.rendered(
                r@,
                template@,
                resources_view(resources@),
                *time_period,
                match notes {
                    Some(n) => Some(n@),
                    None => None,
                },
                user_display@,
            ),
    {
        let resources_formatted = format_resources_styled(resources, self.format.resource_style);
        let time_formatted = format_time_styled(
            time_period,
            self.timezone,
            self.format.time_style,
            self.format.date_format,
        );
        let mut notes_formatted = String::new();
        match notes {
            Some(n) => {
                if n.unicode_len() > 0 {
                    push_str(&mut notes_formatted, "\n\n📝 備考\n");
                    push_str(&mut notes_formatted, n);
                }
            },
            None => {},
        }
        let label = resource_label_of(resources);
        let r = render_placeholders(
            template,
            label,
            resources_formatted.as_str(),
            user_display,
            time_formatted.as_str(),
            notes_formatted.as_str(),
        );
        assert(notes_formatted@ =~= notes_section(
            match notes {
                Some(n) => Some(n@),
                None => None,
            },
        ));
        r
    }

    /// The message for a created reservation.
    pub fn render_created(&self, usage: &ResourceUsage, user_display: &str) -> (r: String)
        requires
            period_in_range(usage.time_period),
        ensures
            self.rendered(
                r@,
                chosen_template(self.templates.created, DEFAULT_CREATED),
                usage@.resources,
                usage.time_period,
                usage@.notes,
                user_display@,
            ),
    {
        let template = match &self.templates.created {
            Some(t) => t.as_str(),
            None => DEFAULT_CREATED,
        };
        self.render(template, usage.resources(), &usage.time_period, usage.notes(), user_display)
    }

    /// The message for an updated reservation.
    pub fn render_updated(&self, usage: &ResourceUsage, user_display: &str) -> (r: String)
        requires
            period_in_range(usage.time_period),
        ensures
            self.rendered(
                r@,
                chosen_template(self.templates.updated, DEFAULT_UPDATED),
                usage@.resources,
                usage.time_period,
                usage@.notes,
                user_display@,
            ),
    {
        let template = match &self.templates.updated {
            Some(t) => t.as_str(),
            None => DEFAULT_UPDATED,
        };
        self.render(template, usage.resources(), &usage.time_period, usage.notes(), user_display)
    }

    /// The message for a deleted reservation.
    pub fn render_deleted(&self, usage: &ResourceUsage, user_display: &str) -> (r: String)
        requires
            period_in_range(usage.time_period),
        ensures
            self.rendered(
                r@,
                chosen_template(self.templates.deleted, DEFAULT_DELETED),
                usage@.resources,
                usage.time_period,
                usage@.notes,
                user_display@,
            ),
    {
        let template = match &self.templates.deleted {
            Some(t) => t.as_str(),
            None => DEFAULT_DELETED,
        };
        self.render(template, usage.resources(), &usage.time_period, usage.notes(), user_display)
    }

    /// The message for a requested reservation that conflicts with `existing_usage`:
    /// the conflicting resources, with the existing reservation's period and notes.
    pub fn render_conflict(
        &self,
        conflicting_resources: &[Resource],
        existing_usage: &ResourceUsage,
        user_display: &str,
    ) -> (r: String)
        requires
            period_in_range(existing_usage.time_period),
        ensures
            self.rendered(
                r@,
                chosen_template(self.templates.conflict, DEFAULT_CONFLICT),
                resources_view(conflicting_resources@),
                existing_usage.time_period,
                existing_usage@.notes,
                user_display@,
            ),
    {
        let template = match &self.templates.conflict {
            Some(t) => t.as_str(),
            None => DEFAULT_CONFLICT,
        };
        self.render(
            template,
            conflicting_resources,
            &existing_usage.time_period,
            existing_usage.notes(),
            user_display,
        )
    }
}

} // verus!
