//! What can be reserved, and where each resource's notifications go.
use crate::domain::resource::{duplicate_opt, opt_view, Gpu, GpuView, Resource, ResourceView};
use crate::infrastructure::config::notification_format::{
    DateFormat, FormatConfig, NotificationCustomization, ResourceStyle, TemplateConfig, TimeStyle,
};
use crate::infrastructure::config::storage_config::{names_without_calendar, StorageConfig};
use crate::text::{
    first_index, join, join_strings, lemma_first_index, lemma_first_index_is, owned, push_str,
    str_equal, strings_view,
};
use vstd::prelude::*;

verus! {

/// Model of message templates.
pub struct TemplateConfigView {
    pub created: Option<Seq<char>>,
    pub updated: Option<Seq<char>>,
    pub deleted: Option<Seq<char>>,
    pub conflict: Option<Seq<char>>,
}

impl View for TemplateConfig {
    type V = TemplateConfigView;

    open spec fn view(&self) -> TemplateConfigView {
        TemplateConfigView {
            created: opt_view(self.created),
            updated: opt_view(self.updated),
            deleted: opt_view(self.deleted),
            conflict: opt_view(self.conflict),
        }
    }
}

/// Model of a notification destination.
pub enum NotificationConfigView {
    Slack {
        bot_token: Seq<char>,
        channel_id: Seq<char>,
        timezone: Option<Seq<char>>,
        templates: Option<TemplateConfigView>,
        format: Option<FormatConfig>,
    },
    Mock {
        timezone: Option<Seq<char>>,
        templates: Option<TemplateConfigView>,
        format: Option<FormatConfig>,
    },
}

/// A notification destination and its settings.
#[derive(Debug)]
pub enum NotificationConfig {
    /// A Slack channel reached with a bot token.
    Slack {
        bot_token: String,
        channel_id: String,
        timezone: Option<String>,
        templates: Option<TemplateConfig>,
        format: Option<FormatConfig>,
    },
    /// A destination for tests and development.
    Mock {
        timezone: Option<String>,
        templates: Option<TemplateConfig>,
        format: Option<FormatConfig>,
    },
}

/// The model of optional templates.
pub open spec fn opt_templates_view(t: Option<TemplateConfig>) -> Option<TemplateConfigView> {
    match t {
        Some(t) => Some(t@),
        None => None,
    }
}

impl View for NotificationConfig {
    type V = NotificationConfigView;

    open spec fn view(&self) -> NotificationConfigView {
        match self {
            NotificationConfig::Slack { bot_token, channel_id, timezone, templates, format } =>
                NotificationConfigView::Slack {
                bot_token: bot_token@,
                channel_id: channel_id@,
                timezone: opt_view(*timezone),
                templates: opt_templates_view(*templates),
                format: *format,
            },
            NotificationConfig::Mock { timezone, templates, format } =>
                NotificationConfigView::Mock {
                timezone: opt_view(*timezone),
                templates: opt_templates_view(*templates),
                format: *format,
            },
        }
    }
}

/// The zone setting of a destination.
pub open spec fn config_timezone(c: NotificationConfigView) -> Option<Seq<char>> {
    match c {
        NotificationConfigView::Slack { timezone, .. } => timezone,
        NotificationConfigView::Mock { timezone, .. } => timezone,
    }
}

/// The templates of a destination.
pub open spec fn config_templates(c: NotificationConfigView) -> Option<TemplateConfigView> {
    match c {
        NotificationConfigView::Slack { templates, .. } => templates,
        NotificationConfigView::Mock { templates, .. } => templates,
    }
}

/// The display styles of a destination.
pub open spec fn config_format(c: NotificationConfigView) -> Option<FormatConfig> {
    match c {
        NotificationConfigView::Slack { format, .. } => format,
        NotificationConfigView::Mock { format, .. } => format,
    }
}

/// Copies optional templates.
fn duplicate_templates(t: &Option<TemplateConfig>) -> (r: Option<TemplateConfig>)
    ensures
        opt_templates_view(r) == opt_templates_view(*t),
{
    match t {
        Some(t) => Some(t.duplicate()),
        None => None,
    }
}

/// Whether two optional strings are equal.
fn same_opt_string(a: &Option<String>, b: &Option<String>) -> (r: bool)
    ensures
        r == (opt_view(*a) == opt_view(*b)),
{
    match (a, b) {
        (Some(x), Some(y)) => str_equal(x.as_str(), y.as_str()),
        (None, None) => true,
        _ => false,
    }
}

/// Whether two optional template sets are equal.
fn same_templates(a: &Option<TemplateConfig>, b: &Option<TemplateConfig>) -> (r: bool)
    ensures
        r == (opt_templates_view(*a) == opt_templates_view(*b)),
{
    match (a, b) {
        (Some(x), Some(y)) => same_opt_string(&x.created, &y.created) && same_opt_string(
            &x.updated,
            &y.updated,
        ) && same_opt_string(&x.deleted, &y.deleted) && same_opt_string(
            &x.conflict,
            &y.conflict,
        ),
        (None, None) => true,
        _ => false,
    }
}

/// Whether two optional display styles are equal.
fn same_format(a: &Option<FormatConfig>, b: &Option<FormatConfig>) -> (r: bool)
    ensures
        r == (*a == *b),
{
    match (a, b) {
        (Some(x), Some(y)) => x.resource_style == y.resource_style && x.time_style
            == y.time_style && x.date_format == y.date_format,
        (None, None) => true,
        _ => false,
    }
}

impl NotificationConfig {
    /// The zone setting of the destination.
    pub fn timezone(&self) -> (tz: Option<&str>)
        ensures
            match tz {
                Some(s) => config_timezone(self@) == Some(s@),
                None => config_timezone(self@) is None,
            },
    {
        match self {
            NotificationConfig::Slack { timezone, .. } => match timezone {
                Some(t) => Some(t.as_str()),
                None => None,
            },
            NotificationConfig::Mock { timezone, .. } => match timezone {
                Some(t) => Some(t.as_str()),
                None => None,
            },
        }
    }

    /// The templates and display styles, with built-in ones where none are set.
    pub fn customization(&self) -> (c: NotificationCustomization)
        ensures
            match config_templates(self@) {
                Some(t) => c.templates@ == t,
                None => c.templates.created is None && c.templates.updated is None
                    && c.templates.deleted is None && c.templates.conflict is None,
            },
            match config_format(self@) {
                Some(f) => c.format == f,
                None => c.format.resource_style == ResourceStyle::Full && c.format.time_style
                    == TimeStyle::Full && c.format.date_format == DateFormat::Ymd,
            },
    {
        let (templates, format) = match self {
            NotificationConfig::Slack { templates, format, .. } => (templates, format),
            NotificationConfig::Mock { templates, format, .. } => (templates, format),
        };
        let templates = match templates {
            Some(t) => t.duplicate(),
            None => TemplateConfig::default(),
        };
        let format = match format {
            Some(f) => *f,
            None => FormatConfig::default(),
        };
        NotificationCustomization { templates, format }
    }

    /// A copy with the same model.
    pub fn duplicate(&self) -> (c: NotificationConfig)
        ensures
            c@ == self@,
    {
        match self {
            NotificationConfig::Slack { bot_token, channel_id, timezone, templates, format } =>
                NotificationConfig::Slack {
                bot_token: bot_token.clone(),
                channel_id: channel_id.clone(),
                timezone: duplicate_opt(timezone),
                templates: duplicate_templates(templates),
                format: *format,
            },
            NotificationConfig::Mock { timezone, templates, format } => NotificationConfig::Mock {
                timezone: duplicate_opt(timezone),
                templates: duplicate_templates(templates),
                format: *format,
            },
        }
    }

    /// Whether two destinations have the same settings.
    pub fn same_as(&self, other: &NotificationConfig) -> (b: bool)
        ensures
            b == (self@ == other@),
    {
        match (self, other) {
            (
                NotificationConfig::Slack {
                    bot_token: t1,
                    channel_id: c1,
                    timezone: z1,
                    templates: p1,
                    format: f1,
                },
                NotificationConfig::Slack {
                    bot_token: t2,
                    channel_id: c2,
                    timezone: z2,
                    templates: p2,
                    format: f2,
                },
            ) => str_equal(t1.as_str(), t2.as_str()) && str_equal(c1.as_str(), c2.as_str())
                && same_opt_string(z1, z2) && same_templates(p1, p2) && same_format(f1, f2),
            (
                NotificationConfig::Mock { timezone: z1, templates: p1, format: f1 },
                NotificationConfig::Mock { timezone: z2, templates: p2, format: f2 },
            ) => same_opt_string(z1, z2) && same_templates(p1, p2) && same_format(f1, f2),
            _ => false,
        }
    }
}

/// The models of notification destinations.
pub open spec fn configs_view(cs: Seq<NotificationConfig>) -> Seq<NotificationConfigView> {
    cs.map_values(|c: NotificationConfig| c@)
}

/// Copies a list of destinations.
pub fn duplicate_configs(cs: &[NotificationConfig]) -> (out: Vec<NotificationConfig>)
    ensures
        configs_view(out@) == configs_view(cs@),
{
    let mut out: Vec<NotificationConfig> = Vec::new();
    let mut i: usize = 0;
    while i < cs.len()
        invariant
            i <= cs@.len(),
            configs_view(out@) == configs_view(cs@.subrange(0, i as int)),
        decreases cs@.len() - i,
    {
        let ghost before = out@;
        out.push(cs[i].duplicate());
        proof {
            assert(configs_view(out@) =~= configs_view(before).push(cs@[i as int]@));
            assert(configs_view(cs@.subrange(0, i + 1)) =~= configs_view(
                cs@.subrange(0, i as int),
            ).push(cs@[i as int]@));
        }
        i = i + 1;
    }
    assert(cs@.subrange(0, cs@.len() as int) =~= cs@);
    out
}

/// A GPU device of a server.
#[derive(Debug)]
pub struct DeviceConfig {
    pub id: u32,
    pub model: String,
}

/// A GPU server, its devices and its notification destinations.
#[derive(Debug)]
pub struct ServerConfig {
    pub name: String,
    pub devices: Vec<DeviceConfig>,
    pub notifications: Vec<NotificationConfig>,
}

/// A room and its notification destinations.
#[derive(Debug)]
pub struct RoomConfig {
    pub name: String,
    pub notifications: Vec<NotificationConfig>,
}

/// Everything that can be reserved.
#[derive(Debug)]
pub struct ResourceConfig {
    pub servers: Vec<ServerConfig>,
    pub rooms: Vec<RoomConfig>,
}

/// The GPUs of one server, in device order.
pub open spec fn server_gpus(s: ServerConfig) -> Seq<ResourceView> {
    s.devices@.map_values(
        |d: DeviceConfig|
            ResourceView::Gpu(GpuView { server: s.name@, device_number: d.id, model: d.model@ }),
    )
}

/// The GPUs of the servers, server by server.
pub open spec fn all_gpus(servers: Seq<ServerConfig>) -> Seq<ResourceView>
    decreases servers.len(),
{
    if servers.len() == 0 {
        Seq::empty()
    } else {
        all_gpus(servers.drop_last()) + server_gpus(servers.last())
    }
}

/// The names of the servers.
pub open spec fn server_names(servers: Seq<ServerConfig>) -> Seq<Seq<char>> {
    servers.map_values(|s: ServerConfig| s.name@)
}

/// The names of the rooms.
pub open spec fn room_name_list(rooms: Seq<RoomConfig>) -> Seq<Seq<char>> {
    rooms.map_values(|r: RoomConfig| r.name@)
}

/// The index of the first server with the name, if any.
pub open spec fn first_server_named(servers: Seq<ServerConfig>, name: Seq<char>) -> Option<int> {
    first_index(server_names(servers), name)
}

/// The index of the first room with the name, if any.
pub open spec fn first_room_named(rooms: Seq<RoomConfig>, name: Seq<char>) -> Option<int> {
    first_index(room_name_list(rooms), name)
}

/// The destinations for a resource: those of its server or room, none when it is unknown.
pub open spec fn notifications_for(config: ResourceConfig, r: ResourceView) -> Seq<
    NotificationConfigView,
> {
    match r {
        ResourceView::Gpu(g) => match first_server_named(config.servers@, g.server) {
            Some(i) => configs_view(config.servers@[i].notifications@),
            None => Seq::empty(),
        },
        ResourceView::Room { name } => match first_room_named(config.rooms@, name) {
            Some(i) => configs_view(config.rooms@[i].notifications@),
            None => Seq::empty(),
        },
    }
}

impl ResourceConfig {
    /// The first server with the name.
    pub fn get_server(&self, name: &str) -> (s: Option<&ServerConfig>)
        ensures
            match first_server_named(self.servers@, name@) {
                Some(i) => 0 <= i < self.servers@.len() && (s matches Some(x) && *x
                    === self.servers@[i]),
                None => s is None,
            },
    {
        match self.server_index(name) {
            Some(i) => {
                let x = &self.servers[i];
                assert(*x == self.servers@[i as int]);
                Some(x)
            },
            None => None,
        }
    }

    /// The index of the first server with the name.
    pub fn server_index(&self, name: &str) -> (r: Option<usize>)
        ensures
            match first_server_named(self.servers@, name@) {
                Some(i) => r matches Some(j) && j as int == i && 0 <= i < self.servers@.len(),
                None => r is None,
            },
    {
        let ghost names = server_names(self.servers@);
        let mut i: usize = 0;
        while i < self.servers.len()
            invariant
                names == server_names(self.servers@),
                i <= self.servers@.len(),
                forall|j: int| 0 <= j < i ==> names[j] != name@,
            decreases self.servers@.len() - i,
        {
            if str_equal(self.servers[i].name.as_str(), name) {
                proof {
                    lemma_first_index_is(names, name@, i as int);
                }
                return Some(i);
            }
            i = i + 1;
        }
        proof {
            lemma_first_index(names, name@);
            if first_index(names, name@) is Some {
                let k = first_index(names, name@)->0;
                assert(names[k] == name@);
            }
        }
        None
    }

    /// The index of the first room with the name.
    pub fn room_index(&self, name: &str) -> (r: Option<usize>)
        ensures
            match first_room_named(self.rooms@, name@) {
                Some(i) => r matches Some(j) && j as int == i && 0 <= i < self.rooms@.len(),
                None => r is None,
            },
    {
        let ghost names = room_name_list(self.rooms@);
        let mut i: usize = 0;
        while i < self.rooms.len()
            invariant
                names == room_name_list(self.rooms@),
                i <= self.rooms@.len(),
                forall|j: int| 0 <= j < i ==> names[j] != name@,
            decreases self.rooms@.len() - i,
        {
            if str_equal(self.rooms[i].name.as_str(), name) {
                proof {
                    lemma_first_index_is(names, name@, i as int);
                }
                return Some(i);
            }
            i = i + 1;
        }
        proof {
            lemma_first_index(names, name@);
            if first_index(names, name@) is Some {
                let k = first_index(names, name@)->0;
                assert(names[k] == name@);
            }
        }
        None
    }

    /// Every reservable resource: the GPUs server by server in device order, then the rooms.
    pub fn all_resources(&self) -> (rs: Vec<Resource>)
        ensures
            rs@.map_values(|r: Resource| r@) == all_gpus(self.servers@) + self.rooms@.map_values(
                |room: RoomConfig| ResourceView::Room { name: room.name@ },
            ),
    {
        let mut rs: Vec<Resource> = Vec::new();
        let mut i: usize = 0;
        while i < self.servers.len()
            invariant
                i <= self.servers@.len(),
                rs@.map_values(|r: Resource| r@) == all_gpus(self.servers@.subrange(0, i as int)),
            decreases self.servers@.len() - i,
        {
            let server = &self.servers[i];
            let ghost base = rs@.map_values(|r: Resource| r@);
            let mut j: usize = 0;
            while j < server.devices.len()
                invariant
                    j <= server.devices@.len(),
                    rs@.map_values(|r: Resource| r@) == base + server_gpus(*server).subrange(
                        0,
                        j as int,
                    ),
                decreases server.devices@.len() - j,
            {
                let device = &server.devices[j];
                let ghost before = rs@;
                rs.push(
                    Resource::Gpu(Gpu::new(server.name.clone(), device.id, device.model.clone())),
                );
                proof {
                    assert(rs@.map_values(|r: Resource| r@) =~= before.map_values(
                        |r: Resource| r@,
                    ).push(server_gpus(*server)[j as int]));
                    assert(server_gpus(*server).subrange(0, j + 1) =~= server_gpus(
                        *server,
                    ).subrange(0, j as int).push(server_gpus(*server)[j as int]));
                }
                j = j + 1;
            }
            proof {
                assert(server_gpus(*server).subrange(0, j as int) =~= server_gpus(*server));
                let p = self.servers@.subrange(0, i + 1);
                assert(p.drop_last() =~= self.servers@.subrange(0, i as int));
                assert(p.last() == *server);
            }
            i = i + 1;
        }
        assert(self.servers@.subrange(0, self.servers@.len() as int) =~= self.servers@);
        let ghost gpus = rs@.map_values(|r: Resource| r@);
        let mut k: usize = 0;
        while k < self.rooms.len()
            invariant
                k <= self.rooms@.len(),
                rs@.map_values(|r: Resource| r@) == gpus + self.rooms@.subrange(0, k as int).map_values(
                    |room: RoomConfig| ResourceView::Room { name: room.name@ },
                ),
            decreases self.rooms@.len() - k,
        {
            let ghost before = rs@;
            rs.push(Resource::Room { name: self.rooms[k].name.clone() });
            proof {
                assert(rs@.map_values(|r: Resource| r@) =~= before.map_values(|r: Resource| r@).push(
                    ResourceView::Room { name: self.rooms@[k as int].name@ },
                ));
                assert(self.rooms@.subrange(0, k + 1).map_values(
                    |room: RoomConfig| ResourceView::Room { name: room.name@ },
                ) =~= self.rooms@.subrange(0, k as int).map_values(
                    |room: RoomConfig| ResourceView::Room { name: room.name@ },
                ).push(ResourceView::Room { name: self.rooms@[k as int].name@ }));
            }
            k = k + 1;
        }
        assert(self.rooms@.subrange(0, self.rooms@.len() as int) =~= self.rooms@);
        rs
    }

    /// The destinations for a resource: those of its server or room (the first with the
    /// name), none when it is not configured.
    pub fn get_notifications_for_resource(&self, resource: &Resource) -> (cs: Vec<
        NotificationConfig,
    >)
        ensures
            configs_view(cs@) == notifications_for(*self, resource@),
    {
        match resource {
            Resource::Gpu(gpu) => {
                let server_name = gpu.server();
                let found = self.server_index(server_name);
                assert(server_name@ == gpu@.server);
                match found {
                    Some(i) => {
                        let server = &self.servers[i];
                        let cs = duplicate_configs(server.notifications.as_slice());
                        assert(first_server_named(self.servers@, gpu@.server) == Some(i as int));
                        cs
                    },
                    None => {
                        let cs: Vec<NotificationConfig> = Vec::new();
                        assert(configs_view(cs@) =~= Seq::<NotificationConfigView>::empty());
                        cs
                    },
                }
            },
            Resource::Room { name } => match self.room_index(name.as_str()) {
                Some(i) => duplicate_configs(self.rooms[i].notifications.as_slice()),
                None => {
                    let cs: Vec<NotificationConfig> = Vec::new();
                    assert(configs_view(cs@) =~= Seq::<NotificationConfigView>::empty());
                    cs
                },
            },
        }
    }
}

/// A resource file as read: its servers, rooms and storage section.
#[derive(Debug)]
pub struct ConfigRoot {
    pub servers: Vec<ServerConfig>,
    pub rooms: Vec<RoomConfig>,
    pub storage: Option<StorageConfig>,
}

/// The names of the servers, in order.
pub fn server_name_strings(servers: &[ServerConfig]) -> (names: Vec<String>)
    ensures
        strings_view(names@) == server_names(servers@),
{
    let mut names: Vec<String> = Vec::new();
    let mut i: usize = 0;
    while i < servers.len()
        invariant
            i <= servers@.len(),
            strings_view(names@) == server_names(servers@.subrange(0, i as int)),
        decreases servers@.len() - i,
    {
        let ghost before = strings_view(names@);
        names.push(servers[i].name.clone());
        assert(strings_view(names@) =~= before.push(servers@[i as int].name@));
        assert(server_names(servers@.subrange(0, i + 1)) =~= server_names(
            servers@.subrange(0, i as int),
        ).push(servers@[i as int].name@));
        i = i + 1;
    }
    assert(servers@.subrange(0, servers@.len() as int) =~= servers@);
    names
}

/// The names of the rooms, in order.
pub fn room_name_strings(rooms: &[RoomConfig]) -> (names: Vec<String>)
    ensures
        strings_view(names@) == room_name_list(rooms@),
{
    let mut names: Vec<String> = Vec::new();
    let mut i: usize = 0;
    while i < rooms.len()
        invariant
            i <= rooms@.len(),
            strings_view(names@) == room_name_list(rooms@.subrange(0, i as int)),
        decreases rooms@.len() - i,
    {
        let ghost before = strings_view(names@);
        names.push(rooms[i].name.clone());
        assert(strings_view(names@) =~= before.push(rooms@[i as int].name@));
        assert(room_name_list(rooms@.subrange(0, i + 1)) =~= room_name_list(
            rooms@.subrange(0, i as int),
        ).push(rooms@[i as int].name@));
        i = i + 1;
    }
    assert(rooms@.subrange(0, rooms@.len() as int) =~= rooms@);
    names
}

/// The message when the resource file has no storage section.
pub open spec fn missing_storage_message() -> Seq<char> {
    "storage設定が見つかりません"@
}

/// The message listing the resources that have no calendar, one per line.
pub open spec fn unmapped_resources_message(missing: Seq<Seq<char>>) -> Seq<char> {
    "resources.toml の以下のリソースが storage.calendars に写像を持ちません:\n  "@ + join(
        missing,
        "\n  "@,
    )
}

/// The names of the servers and then of the rooms of a resource file.
pub open spec fn resource_names(root: ConfigRoot) -> Seq<Seq<char>> {
    server_names(root.servers@) + room_name_list(root.rooms@)
}

/// Checks a resource file: it needs a storage section in which every server and room has a
/// calendar. Gives the resources and the storage settings, or the message that says why not.
pub fn load_config(root: ConfigRoot) -> (r: Result<(ResourceConfig, StorageConfig), String>)
    ensures
        match root.storage {
            None => r matches Err(m) && m@ == missing_storage_message(),
            Some(storage) => {
                let missing = names_without_calendar(resource_names(root), storage.entries());
                if missing.len() == 0 {
                    r matches Ok((rc, sc)) && rc.servers@ == root.servers@ && rc.rooms@
                        == root.rooms@ && sc.entries() == storage.entries()
                } else {
                    r matches Err(m) && m@ == unmapped_resources_message(missing)
                }
            },
        },
{
    let ConfigRoot { servers, rooms, storage } = root;
    let server_names = server_name_strings(servers.as_slice());
    let room_names = room_name_strings(rooms.as_slice());
    let storage = match storage {
        Some(s) => s,
        None => {
            return Err(owned("storage設定が見つかりません"));
        },
    };
    match storage.validate_resource_mappings(server_names.as_slice(), room_names.as_slice()) {
        Err(missing) => {
            let mut msg = owned(
                "resources.toml の以下のリソースが storage.calendars に写像を持ちません:\n  ",
            );
            let listed = join_strings(missing.as_slice(), "\n  ");
            push_str(&mut msg, listed.as_str());
            Err(msg)
        },
        Ok(()) => Ok((ResourceConfig { servers, rooms }, storage)),
    }
}

} // verus!
