//! Plugin system: plugin API, lifecycle, versioning, capabilities, sandbox.
//!
//! Manages plugin loading, lifecycle, capabilities, dependencies, and safe
//! execution.
use vstd::prelude::*;
use crate::keyed::{Keyed, views, key_is, find_key, lemma_views_push, lemma_views_remove, lemma_views_update};
use crate::search::{first_match, keep, keep_all, lemma_first_match_spec, lemma_first_match};
use crate::text::copy_str;

verus! {

/// Plugin version
#[derive(Clone, Copy, Debug, PartialEq, Eq, Structural)]
pub struct Version {
    pub major: u16,
    pub minor: u16,
    pub patch: u16,
}

/// A version meets a requirement when the major versions agree and its minor
/// version is at least the required one.
pub open spec fn compatible(v: Version, requirement: Version) -> bool {
    v.major == requirement.major && v.minor >= requirement.minor
}

impl Version {
    pub fn new(major: u16, minor: u16, patch: u16) -> (v: Self)
        ensures
            v == (Version { major, minor, patch }),
    {
        Version { major, minor, patch }
    }

    pub fn is_compatible_with(&self, requirement: Version) -> (r: bool)
        ensures
            r == compatible(*self, requirement),
    {
        self.major == requirement.major && self.minor >= requirement.minor
    }
}

/// Every version meets itself as a requirement, and a version meets any
/// requirement with the same major version and a lower or equal minor version.
pub proof fn law_version_compatibility(v: Version, r: Version)
    ensures
        compatible(v, v),
        (v.major == r.major && r.minor <= v.minor) ==> compatible(v, r),
        v.major != r.major ==> !compatible(v, r),
{
}

/// Plugin capability flags
#[derive(Clone, Copy, Debug, PartialEq, Eq, Structural)]
pub enum PluginCapability {
    /// Read file system
    FileRead,
    /// Write file system
    FileWrite,
    /// Access network
    Network,
    /// Access audio
    Audio,
    /// Access input devices
    Input,
    /// Create windows/UI
    Windowing,
    /// Access clipboard
    Clipboard,
    /// System information
    SystemInfo,
    /// Create processes
    ProcessManagement,
    /// Access device
    DeviceAccess,
}

/// The flag bit of a capability.
pub open spec fn capability_bit(c: PluginCapability) -> u32 {
    match c {
        PluginCapability::FileRead => 1,
        PluginCapability::FileWrite => 2,
        PluginCapability::Network => 4,
        PluginCapability::Audio => 8,
        PluginCapability::Input => 16,
        PluginCapability::Windowing => 32,
        PluginCapability::Clipboard => 64,
        PluginCapability::SystemInfo => 128,
        PluginCapability::ProcessManagement => 256,
        PluginCapability::DeviceAccess => 512,
    }
}

/// The capability's place in the list of capabilities, counting from zero.
pub open spec fn capability_index(c: PluginCapability) -> u32 {
    match c {
        PluginCapability::FileRead => 0,
        PluginCapability::FileWrite => 1,
        PluginCapability::Network => 2,
        PluginCapability::Audio => 3,
        PluginCapability::Input => 4,
        PluginCapability::Windowing => 5,
        PluginCapability::Clipboard => 6,
        PluginCapability::SystemInfo => 7,
        PluginCapability::ProcessManagement => 8,
        PluginCapability::DeviceAccess => 9,
    }
}

/// Each capability's flag is the bit at its place in the list, so two
/// capabilities share a flag bit only when they are the same capability: a
/// plugin granted only `a` passes the check for `b` exactly when `a` is `b`.
pub proof fn law_capability_bits(a: PluginCapability, b: PluginCapability)
    ensures
        capability_index(a) < 10,
        capability_bit(a) == 1u32 << capability_index(a),
        (capability_bit(a) & capability_bit(b)) != 0 <==> a == b,
{
    assert(1u32 << 0u32 == 1u32 && 1u32 << 1u32 == 2u32 && 1u32 << 2u32 == 4u32 && 1u32 << 3u32
        == 8u32 && 1u32 << 4u32 == 16u32 && 1u32 << 5u32 == 32u32 && 1u32 << 6u32 == 64u32
        && 1u32 << 7u32 == 128u32 && 1u32 << 8u32 == 256u32 && 1u32 << 9u32 == 512u32)
        by (bit_vector);
    assert(forall|i: u32, j: u32|
        #![trigger (1u32 << i) & (1u32 << j)]
        i < 10 && j < 10 ==> (((1u32 << i) & (1u32 << j)) != 0 <==> i == j)) by (bit_vector);
    let i = capability_index(a);
    let j = capability_index(b);
    assert(((1u32 << i) & (1u32 << j)) != 0 <==> i == j);
    assert(i == j <==> a == b);
}

impl PluginCapability {
    /// The flag bit of this capability.
    pub fn bit(self) -> (r: u32)
        ensures
            r == capability_bit(self),
    {
        match self {
            PluginCapability::FileRead => 1,
            PluginCapability::FileWrite => 2,
            PluginCapability::Network => 4,
            PluginCapability::Audio => 8,
            PluginCapability::Input => 16,
            PluginCapability::Windowing => 32,
            PluginCapability::Clipboard => 64,
            PluginCapability::SystemInfo => 128,
            PluginCapability::ProcessManagement => 256,
            PluginCapability::DeviceAccess => 512,
        }
    }
}

/// Plugin lifecycle state
#[derive(Clone, Copy, Debug, PartialEq, Eq, Structural)]
pub enum PluginState {
    /// Not loaded
    Unloaded,
    /// Loading...
    Loading,
    /// Loaded and ready
    Loaded,
    /// Initialized and running
    Active,
    /// Paused
    Paused,
    /// Unloading...
    Unloading,
    /// Failed state
    Failed,
}

/// Plugin dependency
pub struct PluginDependency {
    pub name: String,
    pub version_requirement: Version,
}

impl View for PluginDependency {
    type V = (Seq<char>, Version);

    open spec fn view(&self) -> (Seq<char>, Version) {
        (self.name@, self.version_requirement)
    }
}

/// Plugin metadata
pub struct PluginMetadata {
    pub id: String,
    pub name: String,
    pub version: Version,
    pub author: String,
    pub description: String,
    pub capabilities: u32,
    pub dependencies: Vec<PluginDependency>,
    pub entry_point: String,
}

pub struct MetadataRecord {
    pub id: Seq<char>,
    pub name: Seq<char>,
    pub version: Version,
    pub author: Seq<char>,
    pub description: Seq<char>,
    pub capabilities: u32,
    pub dependencies: Seq<(Seq<char>, Version)>,
    pub entry_point: Seq<char>,
}

impl View for PluginMetadata {
    type V = MetadataRecord;

    open spec fn view(&self) -> MetadataRecord {
        MetadataRecord {
            id: self.id@,
            name: self.name@,
            version: self.version,
            author: self.author@,
            description: self.description@,
            capabilities: self.capabilities,
            dependencies: views(self.dependencies@),
            entry_point: self.entry_point@,
        }
    }
}

impl Keyed for PluginMetadata {
    open spec fn key_of(v: MetadataRecord) -> Seq<char> {
        v.id
    }

    fn key_str(&self) -> (r: &str) {
        self.id.as_str()
    }
}

/// Plugin instance
pub struct Plugin {
    pub metadata: PluginMetadata,
    pub state: PluginState,
    pub sandbox_id: u32,
    pub load_time_ms: u32,
    pub error: Option<String>,
}

pub struct PluginRecord {
    pub metadata: MetadataRecord,
    pub state: PluginState,
    pub sandbox_id: u32,
    pub load_time_ms: u32,
    pub error: Option<Seq<char>>,
}

impl View for Plugin {
    type V = PluginRecord;

    open spec fn view(&self) -> PluginRecord {
        PluginRecord {
            metadata: self.metadata@,
            state: self.state,
            sandbox_id: self.sandbox_id,
            load_time_ms: self.load_time_ms,
            error: match self.error {
                Some(e) => Some(e@),
                None => None,
            },
        }
    }
}

impl Keyed for Plugin {
    open spec fn key_of(v: PluginRecord) -> Seq<char> {
        v.metadata.id
    }

    fn key_str(&self) -> (r: &str) {
        self.metadata.id.as_str()
    }
}

/// Plugin sandbox configuration
pub struct SandboxConfig {
    pub id: u32,
    pub capabilities: u32,
    pub memory_limit_kb: u32,
    pub cpu_time_limit_ms: u32,
    pub isolated: bool,
}

/// Plugin event
#[derive(Clone, Copy, Debug)]
pub enum PluginEvent {
    /// Plugin loaded successfully
    Loaded(u32),
    /// Plugin failed to load
    LoadFailed(u32),
    /// Plugin activated
    Activated(u32),
    /// Plugin deactivated
    Deactivated(u32),
    /// Plugin crashed
    Crashed(u32),
    /// Plugin requested capability
    CapabilityRequested(u32, u32),
}

/// The manager's state as plain values.
pub struct PluginModel {
    pub plugins: Seq<PluginRecord>,
    pub available: Seq<MetadataRecord>,
    pub sandboxes: Seq<SandboxConfig>,
    pub events: Seq<PluginEvent>,
}

/// Index of the first plugin instance with id `id`, or -1.
pub open spec fn plugin_index(m: PluginModel, id: Seq<char>) -> int {
    first_match(m.plugins, key_is::<Plugin>(id))
}

/// Some instance with id `id` is in a state other than Failed.
pub open spec fn is_loaded(m: PluginModel, id: Seq<char>) -> bool {
    exists|k: int|
        0 <= k < m.plugins.len() && #[trigger] m.plugins[k].metadata.id == id && m.plugins[k].state
            != PluginState::Failed
}

/// Every dependency is loaded.
pub open spec fn deps_loaded(m: PluginModel, deps: Seq<(Seq<char>, Version)>) -> bool {
    forall|j: int| 0 <= j < deps.len() ==> is_loaded(m, #[trigger] deps[j].0)
}

/// The largest sandbox id, or 0 when there is none.
pub open spec fn max_sandbox_id(s: Seq<SandboxConfig>) -> nat
    decreases s.len(),
{
    if s.len() == 0 {
        0
    } else {
        let m = max_sandbox_id(s.drop_last());
        if s.last().id > m {
            s.last().id as nat
        } else {
            m
        }
    }
}

/// The sandbox is not the one with id `id`.
pub open spec fn other_sandbox(id: u32) -> spec_fn(SandboxConfig) -> bool {
    |s: SandboxConfig| s.id != id
}

/// Loading `id` gets as far as creating its sandbox.
pub open spec fn load_reaches_sandbox(m: PluginModel, id: Seq<char>) -> bool {
    let a = first_match(m.available, key_is::<PluginMetadata>(id));
    plugin_index(m, id) < 0 && a >= 0 && deps_loaded(m, m.available[a].dependencies)
}

/// Loading `id`: refused when an instance with that id exists or no metadata
/// with that id is available; refused with a LoadFailed event when a
/// dependency is not loaded; otherwise a fresh sandbox (one past the largest
/// id) and a Loaded instance are added.
pub open spec fn load_result(m: PluginModel, id: Seq<char>) -> (bool, PluginModel) {
    let a = first_match(m.available, key_is::<PluginMetadata>(id));
    if plugin_index(m, id) >= 0 || a < 0 {
        (false, m)
    } else if !deps_loaded(m, m.available[a].dependencies) {
        (false, PluginModel { events: m.events.push(PluginEvent::LoadFailed(0)), ..m })
    } else {
        let md = m.available[a];
        let sid = (max_sandbox_id(m.sandboxes) + 1) as u32;
        (
            true,
            PluginModel {
                plugins: m.plugins.push(
                    PluginRecord {
                        metadata: md,
                        state: PluginState::Loaded,
                        sandbox_id: sid,
                        load_time_ms: 0,
                        error: None,
                    },
                ),
                sandboxes: m.sandboxes.push(
                    SandboxConfig {
                        id: sid,
                        capabilities: md.capabilities,
                        memory_limit_kb: 16384,
                        cpu_time_limit_ms: 5000,
                        isolated: true,
                    },
                ),
                events: m.events.push(PluginEvent::Loaded(sid)),
                ..m
            },
        )
    }
}

/// Unloading `id`: its first instance goes, with every sandbox of its id,
/// and a Deactivated event is added.
pub open spec fn unload_result(m: PluginModel, id: Seq<char>) -> (bool, PluginModel) {
    let k = plugin_index(m, id);
    if k < 0 {
        (false, m)
    } else {
        let sid = m.plugins[k].sandbox_id;
        (
            true,
            PluginModel {
                plugins: m.plugins.remove(k),
                sandboxes: keep_all(m.sandboxes, other_sandbox(sid)),
                events: m.events.push(PluginEvent::Deactivated(sid)),
                ..m
            },
        )
    }
}

/// Moving the first instance of `id` from state `from` to state `to`; when
/// `event` holds, an event for its sandbox is added.
pub open spec fn transition_result(
    m: PluginModel,
    id: Seq<char>,
    from: PluginState,
    to: PluginState,
    event: Option<spec_fn(u32) -> PluginEvent>,
) -> (bool, PluginModel) {
    let k = plugin_index(m, id);
    if k >= 0 && m.plugins[k].state == from {
        let p = m.plugins[k];
        (
            true,
            PluginModel {
                plugins: m.plugins.update(k, PluginRecord { state: to, ..p }),
                events: match event {
                    Some(f) => m.events.push(f(p.sandbox_id)),
                    None => m.events,
                },
                ..m
            },
        )
    } else {
        (false, m)
    }
}

pub open spec fn activated_event() -> spec_fn(u32) -> PluginEvent {
    |s: u32| PluginEvent::Activated(s)
}

pub open spec fn deactivated_event() -> spec_fn(u32) -> PluginEvent {
    |s: u32| PluginEvent::Deactivated(s)
}

pub open spec fn activate_result(m: PluginModel, id: Seq<char>) -> (bool, PluginModel) {
    transition_result(m, id, PluginState::Loaded, PluginState::Active, Some(activated_event()))
}

pub open spec fn deactivate_result(m: PluginModel, id: Seq<char>) -> (bool, PluginModel) {
    transition_result(m, id, PluginState::Active, PluginState::Loaded, Some(deactivated_event()))
}

/// Hot reload: unload, load again, and reactivate when the first instance was
/// active before.
pub open spec fn hot_reload_result(m: PluginModel, id: Seq<char>) -> (bool, PluginModel) {
    let k = plugin_index(m, id);
    let was_active = k >= 0 && m.plugins[k].state == PluginState::Active;
    let (u, m1) = unload_result(m, id);
    if !u {
        (false, m1)
    } else {
        let (l, m2) = load_result(m1, id);
        if !l {
            (false, m2)
        } else if was_active {
            activate_result(m2, id)
        } else {
            (true, m2)
        }
    }
}

/// Marking the first instance of `id` failed with `error`: its state becomes
/// Failed, its error is recorded, and a Crashed event for its sandbox is
/// added; nothing changes when no instance has the id.
pub open spec fn failed_result(m: PluginModel, id: Seq<char>, error: Seq<char>) -> PluginModel {
    let k = plugin_index(m, id);
    if k >= 0 {
        PluginModel {
            plugins: m.plugins.update(
                k,
                PluginRecord { state: PluginState::Failed, error: Some(error), ..m.plugins[k] },
            ),
            events: m.events.push(PluginEvent::Crashed(m.plugins[k].sandbox_id)),
            ..m
        }
    } else {
        m
    }
}

/// No two plugin instances share an id.
pub open spec fn unique_plugin_ids(s: Seq<PluginRecord>) -> bool {
    forall|i: int, j: int|
        0 <= i < j < s.len() ==> #[trigger] s[i].metadata.id != #[trigger] s[j].metadata.id
}

/// What marking `id` failed gives, when no two instances share an id: an
/// unknown id changes nothing; otherwise the instance stays where it was
/// found, Failed with the error recorded, no instance with the id counts as
/// loaded or is among the instances that are not failed, and a Crashed event
/// for its sandbox is added.
pub open spec fn mark_failed_outcome(
    m: PluginModel,
    id: Seq<char>,
    error: Seq<char>,
    m2: PluginModel,
) -> bool {
    let k = plugin_index(m, id);
    &&& k < 0 ==> m2 == m
    &&& k >= 0 ==> {
        &&& plugin_index(m2, id) == k
        &&& m2.plugins[k].state == PluginState::Failed
        &&& m2.plugins[k].error == Some(error)
        &&& !is_loaded(m2, id)
        &&& forall|j: int|
            0 <= j < keep_all(m2.plugins, not_failed()).len() ==> (#[trigger] keep_all(
                m2.plugins,
                not_failed(),
            )[j]).metadata.id != id
        &&& m2.events == m.events.push(PluginEvent::Crashed(m.plugins[k].sandbox_id))
    }
}

/// What a hot reload of `id` gives, when no two instances share an id: an
/// unknown id fails and changes nothing; otherwise the result is whether
/// loading again gets as far as a sandbox, a success leaves the instance
/// found under its id with no error, Active when it was active before and
/// Loaded otherwise, and a failure leaves no instance with the id.
pub open spec fn hot_reload_outcome(m: PluginModel, id: Seq<char>, r: bool, m2: PluginModel) -> bool {
    let k = plugin_index(m, id);
    let m1 = unload_result(m, id).1;
    &&& k < 0 ==> !r && m2 == m
    &&& k >= 0 ==> {
        &&& r == load_reaches_sandbox(m1, id)
        &&& r ==> {
            &&& plugin_index(m2, id) >= 0
            &&& m2.plugins[plugin_index(m2, id)].error is None
            &&& m2.plugins[plugin_index(m2, id)].state == if m.plugins[k].state
                == PluginState::Active {
                PluginState::Active
            } else {
                PluginState::Loaded
            }
        }
        &&& !r ==> plugin_index(m2, id) < 0
    }
}

/// The plugin is not failed.
pub open spec fn not_failed() -> spec_fn(PluginRecord) -> bool {
    |p: PluginRecord| p.state != PluginState::Failed
}

/// The plugin is active.
pub open spec fn is_active() -> spec_fn(PluginRecord) -> bool {
    |p: PluginRecord| p.state == PluginState::Active
}

pub open spec fn plugin_ref_views(s: Seq<&Plugin>) -> Seq<PluginRecord> {
    s.map_values(|p: &Plugin| p@)
}

/// No two sandboxes share an id.
pub open spec fn unique_sandbox_ids(s: Seq<SandboxConfig>) -> bool {
    forall|i: int, j: int| 0 <= i < j < s.len() ==> s[i].id != s[j].id
}

/// No two available entries share an id.
pub open spec fn unique_available(s: Seq<MetadataRecord>) -> bool {
    forall|i: int, j: int| 0 <= i < j < s.len() ==> s[i].id != s[j].id
}

/// The available list after discovering `list`, in order: an entry is added
/// unless one with its id is already available.
pub open spec fn discover_result(available: Seq<MetadataRecord>, list: Seq<MetadataRecord>) -> Seq<
    MetadataRecord,
>
    decreases list.len(),
{
    if list.len() == 0 {
        available
    } else {
        let a = discover_result(available, list.drop_last());
        if first_match(a, key_is::<PluginMetadata>(list.last().id)) >= 0 {
            a
        } else {
            a.push(list.last())
        }
    }
}

fn copy_metadata(m: &PluginMetadata) -> (r: PluginMetadata)
    ensures
        r@ == m@,
{
    let mut deps: Vec<PluginDependency> = Vec::new();
    let mut i: usize = 0;
    while i < m.dependencies.len()
        invariant
            i <= m.dependencies@.len(),
            views(deps@) == views(m.dependencies@).subrange(0, i as int),
        decreases m.dependencies@.len() - i,
    {
        let d = &m.dependencies[i];
        let c = PluginDependency { name: d.name.clone(), version_requirement: d.version_requirement };
        proof {
            lemma_views_push(deps@, c);
        }
        deps.push(c);
        i = i + 1;
        assert(views(deps@) =~= views(m.dependencies@).subrange(0, i as int));
    }
    assert(views(m.dependencies@).subrange(0, i as int) =~= views(m.dependencies@));
    PluginMetadata {
        id: m.id.clone(),
        name: m.name.clone(),
        version: m.version,
        author: m.author.clone(),
        description: m.description.clone(),
        capabilities: m.capabilities,
        dependencies: deps,
        entry_point: m.entry_point.clone(),
    }
}

/// Plugin Manager
pub struct PluginManager {
    /// Loaded plugins
    plugins: Vec<Plugin>,
    /// Available plugin metadata (discovered but not loaded)
    available: Vec<PluginMetadata>,
    /// Sandbox configurations
    sandboxes: Vec<SandboxConfig>,
    /// Pending events
    events: Vec<PluginEvent>,
}

impl View for PluginManager {
    type V = PluginModel;

    closed spec fn view(&self) -> PluginModel {
        PluginModel {
            plugins: views(self.plugins@),
            available: views(self.available@),
            sandboxes: self.sandboxes@,
            events: self.events@,
        }
    }
}

impl PluginManager {
    /// No two plugin instances share an id.
    pub open spec fn wf(&self) -> bool {
        unique_plugin_ids(self@.plugins)
    }

    /// Create a new plugin manager
    pub fn new() -> (m: Self)
        ensures
            m@ == (PluginModel {
                plugins: Seq::empty(),
                available: Seq::empty(),
                sandboxes: Seq::empty(),
                events: Seq::empty(),
            }),
            m.wf(),
    {
        let m = PluginManager {
            plugins: Vec::new(),
            available: Vec::new(),
            sandboxes: Vec::new(),
            events: Vec::new(),
        };
        assert(views(m.plugins@) =~= Seq::<PluginRecord>::empty());
        assert(views(m.available@) =~= Seq::<MetadataRecord>::empty());
        m
    }

    /// Discover plugins: each entry becomes available unless an entry with
    /// its id already is.
    pub fn discover_plugins(&mut self, metadata_list: Vec<PluginMetadata>)
        ensures
            final(self)@ == (PluginModel {
                available: discover_result(old(self)@.available, views(metadata_list@)),
                ..old(self)@
            }),
            old(self).wf() ==> final(self).wf(),
    {
        let ghost list = views(metadata_list@);
        let mut rest = metadata_list;
        let ghost mut done: int = 0;
        while rest.len() > 0
            invariant
                0 <= done <= list.len(),
                views(rest@) == list.subrange(done, list.len() as int),
                self@ == (PluginModel {
                    available: discover_result(old(self)@.available, list.subrange(0, done)),
                    ..old(self)@
                }),
            decreases rest@.len(),
        {
            let ghost before = rest@;
            assert(views(before).len() == before.len());
            assert(done < list.len());
            assert(views(before)[0] == list.subrange(done, list.len() as int)[0]);
            assert(views(before)[0] == list[done]);
            proof {
                lemma_views_remove(before, 0);
            }
            let metadata = rest.remove(0);
            assert(views(rest@) =~= list.subrange(done + 1, list.len() as int));
            assert(list.subrange(0, done + 1).drop_last() =~= list.subrange(0, done));
            proof {
                lemma_first_match_spec(self@.available, key_is::<PluginMetadata>(metadata@.id));
            }
            if find_key(&self.available, metadata.id.as_str()).is_none() {
                proof {
                    lemma_views_push(self.available@, metadata);
                }
                self.available.push(metadata);
            }
            proof {
                done = done + 1;
            }
        }
        assert(list.subrange(0, done) =~= list);
    }

    /// Get available plugins
    pub fn available_plugins(&self) -> (r: &[PluginMetadata])
        ensures
            views(r@) == self@.available,
    {
        self.available.as_slice()
    }

    /// Largest sandbox id, or 0.
    fn max_sandbox(&self) -> (r: u32)
        ensures
            r == max_sandbox_id(self@.sandboxes),
    {
        let mut m: u32 = 0;
        let mut i: usize = 0;
        while i < self.sandboxes.len()
            invariant
                i <= self.sandboxes@.len(),
                m == max_sandbox_id(self.sandboxes@.subrange(0, i as int)),
            decreases self.sandboxes@.len() - i,
        {
            assert(self.sandboxes@.subrange(0, i + 1).drop_last() =~= self.sandboxes@.subrange(
                0,
                i as int,
            ));
            if self.sandboxes[i].id > m {
                m = self.sandboxes[i].id;
            }
            i = i + 1;
        }
        assert(self.sandboxes@.subrange(0, i as int) =~= self.sandboxes@);
        m
    }

    /// Whether every dependency is loaded.
    fn dependencies_loaded(&self, deps: &Vec<PluginDependency>) -> (r: bool)
        ensures
            r == deps_loaded(self@, views(deps@)),
    {
        let mut i: usize = 0;
        while i < deps.len()
            invariant
                i <= deps@.len(),
                forall|j: int| 0 <= j < i ==> is_loaded(self@, #[trigger] views(deps@)[j].0),
            decreases deps@.len() - i,
        {
            if !self.is_plugin_loaded(deps[i].name.as_str()) {
                assert(views(deps@)[i as int].0 == deps@[i as int].name@);
                return false;
            }
            i = i + 1;
        }
        true
    }

    /// Load a plugin: see `load_result`.
    pub fn load_plugin(&mut self, plugin_id: &str) -> (r: bool)
        requires
            load_reaches_sandbox(old(self)@, plugin_id@) ==> max_sandbox_id(old(self)@.sandboxes)
                < u32::MAX,
        ensures
            (r, final(self)@) == load_result(old(self)@, plugin_id@),
            old(self).wf() ==> final(self).wf(),
    {
        proof {
            lemma_first_match_spec(self@.plugins, key_is::<Plugin>(plugin_id@));
            lemma_first_match_spec(self@.available, key_is::<PluginMetadata>(plugin_id@));
        }
        // Check if already loaded
        if find_key(&self.plugins, plugin_id).is_some() {
            return false;
        }
        // Find metadata
        let metadata = match find_key(&self.available, plugin_id) {
            Some(a) => copy_metadata(&self.available[a]),
            None => {
                return false;
            },
        };
        // Check dependencies
        if !self.dependencies_loaded(&metadata.dependencies) {
            self.events.push(PluginEvent::LoadFailed(0));
            return false;
        }
        // Create sandbox
        let sandbox_id = self.max_sandbox() + 1;
        self.sandboxes.push(
            SandboxConfig {
                id: sandbox_id,
                capabilities: metadata.capabilities,
                memory_limit_kb: 16384,
                cpu_time_limit_ms: 5000,
                isolated: true,
            },
        );
        // Create plugin instance
        let plugin = Plugin {
            metadata: copy_metadata(&metadata),
            state: PluginState::Loaded,
            sandbox_id,
            load_time_ms: 0,
            error: None,
        };
        proof {
            lemma_views_push(self.plugins@, plugin);
        }
        self.plugins.push(plugin);
        self.events.push(PluginEvent::Loaded(sandbox_id));
        true
    }

    /// Unload a plugin: see `unload_result`.
    pub fn unload_plugin(&mut self, plugin_id: &str) -> (r: bool)
        ensures
            (r, final(self)@) == unload_result(old(self)@, plugin_id@),
            old(self).wf() ==> final(self).wf(),
    {
        proof {
            lemma_first_match_spec(self@.plugins, key_is::<Plugin>(plugin_id@));
        }
        match find_key(&self.plugins, plugin_id) {
            Some(pos) => {
                proof {
                    lemma_views_remove(self.plugins@, pos as int);
                }
                let plugin = self.plugins.remove(pos);
                let sid = plugin.sandbox_id;
                let mut kept: Vec<SandboxConfig> = Vec::new();
                let mut i: usize = 0;
                while i < self.sandboxes.len()
                    invariant
                        i <= self.sandboxes@.len(),
                        kept@ == keep(self.sandboxes@, other_sandbox(sid), i as int),
                    decreases self.sandboxes@.len() - i,
                {
                    let s = &self.sandboxes[i];
                    if s.id != sid {
                        kept.push(
                            SandboxConfig {
                                id: s.id,
                                capabilities: s.capabilities,
                                memory_limit_kb: s.memory_limit_kb,
                                cpu_time_limit_ms: s.cpu_time_limit_ms,
                                isolated: s.isolated,
                            },
                        );
                    }
                    i = i + 1;
                }
                self.sandboxes = kept;
                self.events.push(PluginEvent::Deactivated(sid));
                true
            },
            None => false,
        }
    }

    /// Check if plugin is loaded: some instance with the id is not failed.
    pub fn is_plugin_loaded(&self, plugin_id: &str) -> (r: bool)
        ensures
            r == is_loaded(self@, plugin_id@),
    {
        let ghost vs = views(self.plugins@);
        let mut k: usize = 0;
        while k < self.plugins.len()
            invariant
                vs == views(self.plugins@),
                k <= self.plugins@.len(),
                forall|j: int|
                    0 <= j < k ==> !(#[trigger] vs[j].metadata.id == plugin_id@ && vs[j].state
                        != PluginState::Failed),
            decreases self.plugins@.len() - k,
        {
            if crate::text::string_eq_str(&self.plugins[k].metadata.id, plugin_id)
                && self.plugins[k].state != PluginState::Failed {
                assert(vs[k as int].metadata.id == plugin_id@);
                return true;
            }
            k = k + 1;
        }
        false
    }

    /// Get the first plugin instance with id `plugin_id`.
    pub fn get_plugin(&self, plugin_id: &str) -> (r: Option<&Plugin>)
        ensures
            ({
                let k = plugin_index(self@, plugin_id@);
                match r {
                    Some(p) => k >= 0 && p@ == self@.plugins[k],
                    None => k < 0,
                }
            }),
    {
        proof {
            lemma_first_match_spec(self@.plugins, key_is::<Plugin>(plugin_id@));
        }
        match find_key(&self.plugins, plugin_id) {
            Some(k) => Some(&self.plugins[k]),
            None => None,
        }
    }

    /// Get the first plugin instance with id `plugin_id`, for change.
    pub fn get_plugin_mut(&mut self, plugin_id: &str) -> (r: Option<&mut Plugin>)
        ensures
            ({
                let k = plugin_index(old(self)@, plugin_id@);
                match r {
                    Some(p) => {
                        &&& k >= 0
                        &&& p@ == old(self)@.plugins[k]
                        &&& final(self)@ == (PluginModel {
                            plugins: old(self)@.plugins.update(k, final(p)@),
                            ..old(self)@
                        })
                        &&& (old(self).wf() && final(p)@.metadata.id == p@.metadata.id)
                            ==> final(self).wf()
                    },
                    None => k < 0 && final(self)@ == old(self)@,
                }
            }),
    {
        proof {
            lemma_first_match_spec(self@.plugins, key_is::<Plugin>(plugin_id@));
        }
        broadcast use crate::keyed::lemma_views_update;
        proof {
            let k = plugin_index(self@, plugin_id@);
            if self.wf() && k >= 0 {
                assert forall|rec: PluginRecord| rec.metadata.id == self@.plugins[k].metadata.id implies unique_plugin_ids(
                    #[trigger] self@.plugins.update(k, rec),
                ) by {
                    lemma_unique_update(self@.plugins, k, rec);
                }
            }
        }
        match find_key(&self.plugins, plugin_id) {
            Some(k) => Some(&mut self.plugins[k]),
            None => None,
        }
    }

    /// Move the first instance of `plugin_id` from `from` to `to`, giving its sandbox id.
    fn transition(&mut self, plugin_id: &str, from: PluginState, to: PluginState) -> (r: Option<u32>)
        ensures
            ({
                let (ok, m) = transition_result(old(self)@, plugin_id@, from, to, None);
                &&& ok == r is Some
                &&& final(self)@ == m
                &&& r matches Some(sid) ==> sid == old(self)@.plugins[plugin_index(
                    old(self)@,
                    plugin_id@,
                )].sandbox_id
            }),
    {
        proof {
            lemma_first_match_spec(self@.plugins, key_is::<Plugin>(plugin_id@));
        }
        match find_key(&self.plugins, plugin_id) {
            Some(k) => {
                if self.plugins[k].state == from {
                    let ghost before = self.plugins@;
                    let p = self.plugins.remove(k);
                    let sid = p.sandbox_id;
                    let q = Plugin {
                        metadata: p.metadata,
                        state: to,
                        sandbox_id: p.sandbox_id,
                        load_time_ms: p.load_time_ms,
                        error: p.error,
                    };
                    self.plugins.insert(k, q);
                    assert(self.plugins@ =~= before.update(k as int, self.plugins@[k as int]));
                    proof {
                        lemma_views_update(before, k as int, self.plugins@[k as int]);
                    }
                    Some(sid)
                } else {
                    None
                }
            },
            None => None,
        }
    }

    /// Activate a loaded plugin
    pub fn activate_plugin(&mut self, plugin_id: &str) -> (r: bool)
        ensures
            (r, final(self)@) == activate_result(old(self)@, plugin_id@),
            old(self).wf() ==> final(self).wf(),
    {
        proof {
            if self.wf() {
                lemma_transition_unique(self@, plugin_id@, PluginState::Loaded, PluginState::Active, Some(activated_event()));
            }
        }
        match self.transition(plugin_id, PluginState::Loaded, PluginState::Active) {
            Some(id) => {
                self.events.push(PluginEvent::Activated(id));
                true
            },
            None => false,
        }
    }

    /// Deactivate a running plugin
    pub fn deactivate_plugin(&mut self, plugin_id: &str) -> (r: bool)
        ensures
            (r, final(self)@) == deactivate_result(old(self)@, plugin_id@),
            old(self).wf() ==> final(self).wf(),
    {
        proof {
            if self.wf() {
                lemma_transition_unique(self@, plugin_id@, PluginState::Active, PluginState::Loaded, Some(deactivated_event()));
            }
        }
        match self.transition(plugin_id, PluginState::Active, PluginState::Loaded) {
            Some(id) => {
                self.events.push(PluginEvent::Deactivated(id));
                true
            },
            None => false,
        }
    }

    /// Pause a running plugin
    pub fn pause_plugin(&mut self, plugin_id: &str) -> (r: bool)
        ensures
            (r, final(self)@) == transition_result(
                old(self)@,
                plugin_id@,
                PluginState::Active,
                PluginState::Paused,
                None,
            ),
            old(self).wf() ==> final(self).wf(),
    {
        proof {
            if self.wf() {
                lemma_transition_unique(self@, plugin_id@, PluginState::Active, PluginState::Paused, None);
            }
        }
        self.transition(plugin_id, PluginState::Active, PluginState::Paused).is_some()
    }

    /// Resume a paused plugin
    pub fn resume_plugin(&mut self, plugin_id: &str) -> (r: bool)
        ensures
            (r, final(self)@) == transition_result(
                old(self)@,
                plugin_id@,
                PluginState::Paused,
                PluginState::Active,
                None,
            ),
            old(self).wf() ==> final(self).wf(),
    {
        proof {
            if self.wf() {
                lemma_transition_unique(self@, plugin_id@, PluginState::Paused, PluginState::Active, None);
            }
        }
        self.transition(plugin_id, PluginState::Paused, PluginState::Active).is_some()
    }

    /// Mark the first instance of `plugin_id` as failed with `error`, adding a
    /// Crashed event for its sandbox.
    pub fn mark_plugin_failed(&mut self, plugin_id: &str, error: &str)
        ensures
            final(self)@ == failed_result(old(self)@, plugin_id@, error@),
            old(self).wf() ==> final(self).wf(),
            old(self).wf() ==> mark_failed_outcome(old(self)@, plugin_id@, error@, final(self)@),
    {
        proof {
            if self.wf() {
                law_mark_failed_unloads(self@, plugin_id@, error@);
                law_plugin_ids_unique(self@, plugin_id@, error@, PluginState::Loaded, PluginState::Loaded, None);
            }
        }
        proof {
            lemma_first_match_spec(self@.plugins, key_is::<Plugin>(plugin_id@));
        }
        match find_key(&self.plugins, plugin_id) {
            Some(k) => {
                let ghost before = self.plugins@;
                let p = self.plugins.remove(k);
                let sid = p.sandbox_id;
                let q = Plugin {
                    metadata: p.metadata,
                    state: PluginState::Failed,
                    sandbox_id: p.sandbox_id,
                    load_time_ms: p.load_time_ms,
                    error: Some(copy_str(error)),
                };
                self.plugins.insert(k, q);
                assert(self.plugins@ =~= before.update(k as int, self.plugins@[k as int]));
                proof {
                    lemma_views_update(before, k as int, self.plugins@[k as int]);
                }
                self.events.push(PluginEvent::Crashed(sid));
            },
            None => {},
        }
    }

    /// Whether the first instance of `plugin_id` has `capability`.
    pub fn check_capability(&self, plugin_id: &str, capability: PluginCapability) -> (r: bool)
        ensures
            ({
                let k = plugin_index(self@, plugin_id@);
                r == (k >= 0 && (self@.plugins[k].metadata.capabilities & capability_bit(capability))
                    != 0)
            }),
    {
        match self.get_plugin(plugin_id) {
            Some(plugin) => (plugin.metadata.capabilities & capability.bit()) != 0,
            None => false,
        }
    }

    /// Record a capability request of the first instance of `plugin_id`.
    pub fn request_capability(&mut self, plugin_id: &str, capability: PluginCapability) -> (r: bool)
        ensures
            ({
                let k = plugin_index(old(self)@, plugin_id@);
                &&& r == (k >= 0)
                &&& final(self)@ == if k >= 0 {
                    PluginModel {
                        events: old(self)@.events.push(
                            PluginEvent::CapabilityRequested(
                                old(self)@.plugins[k].sandbox_id,
                                capability_bit(capability),
                            ),
                        ),
                        ..old(self)@
                    }
                } else {
                    old(self)@
                }
            }),
            old(self).wf() ==> final(self).wf(),
    {
        match self.get_plugin(plugin_id) {
            Some(plugin) => {
                let sid = plugin.sandbox_id;
                self.events.push(PluginEvent::CapabilityRequested(sid, capability.bit()));
                true
            },
            None => false,
        }
    }

    /// Get all plugin instances that are not failed.
    pub fn loaded_plugins(&self) -> (r: Vec<&Plugin>)
        ensures
            plugin_ref_views(r@) == keep_all(self@.plugins, not_failed()),
    {
        let ghost vs = views(self.plugins@);
        let mut r: Vec<&Plugin> = Vec::new();
        let mut i: usize = 0;
        while i < self.plugins.len()
            invariant
                vs == views(self.plugins@),
                i <= self.plugins@.len(),
                plugin_ref_views(r@) == keep(vs, not_failed(), i as int),
            decreases self.plugins@.len() - i,
        {
            let p = &self.plugins[i];
            if p.state != PluginState::Failed {
                let ghost before = r@;
                r.push(p);
                assert(plugin_ref_views(r@) =~= plugin_ref_views(before).push(vs[i as int]));
            }
            i = i + 1;
        }
        r
    }

    /// Get active plugins
    pub fn active_plugins(&self) -> (r: Vec<&Plugin>)
        ensures
            plugin_ref_views(r@) == keep_all(self@.plugins, is_active()),
    {
        let ghost vs = views(self.plugins@);
        let mut r: Vec<&Plugin> = Vec::new();
        let mut i: usize = 0;
        while i < self.plugins.len()
            invariant
                vs == views(self.plugins@),
                i <= self.plugins@.len(),
                plugin_ref_views(r@) == keep(vs, is_active(), i as int),
            decreases self.plugins@.len() - i,
        {
            let p = &self.plugins[i];
            if p.state == PluginState::Active {
                let ghost before = r@;
                r.push(p);
                assert(plugin_ref_views(r@) =~= plugin_ref_views(before).push(vs[i as int]));
            }
            i = i + 1;
        }
        r
    }

    /// Hand out the pending events, oldest first, and forget them.
    pub fn drain_events(&mut self) -> (r: Vec<PluginEvent>)
        ensures
            r@ == old(self)@.events,
            final(self)@ == (PluginModel { events: Seq::empty(), ..old(self)@ }),
            old(self).wf() ==> final(self).wf(),
    {
        let mut events: Vec<PluginEvent> = Vec::new();
        core::mem::swap(&mut events, &mut self.events);
        events
    }

    /// Hot-reload a plugin: see `hot_reload_result`.
    pub fn hot_reload_plugin(&mut self, plugin_id: &str) -> (r: bool)
        requires
            ({
                let (u, m1) = unload_result(old(self)@, plugin_id@);
                u && load_reaches_sandbox(m1, plugin_id@) ==> max_sandbox_id(m1.sandboxes)
                    < u32::MAX
            }),
        ensures
            (r, final(self)@) == hot_reload_result(old(self)@, plugin_id@),
            old(self).wf() ==> final(self).wf(),
            old(self).wf() ==> hot_reload_outcome(old(self)@, plugin_id@, r, final(self)@),
    {
        proof {
            if self.wf() {
                law_hot_reload_outcome(self@, plugin_id@);
                law_plugin_ids_unique(self@, plugin_id@, Seq::empty(), PluginState::Loaded, PluginState::Loaded, None);
            }
        }
        let was_active = match self.get_plugin(plugin_id) {
            Some(p) => p.state == PluginState::Active,
            None => false,
        };
        if self.unload_plugin(plugin_id) && self.load_plugin(plugin_id) {
            if was_active {
                self.activate_plugin(plugin_id)
            } else {
                true
            }
        } else {
            false
        }
    }
}

proof fn lemma_index_after_push(s: Seq<PluginRecord>, rec: PluginRecord, id: Seq<char>)
    requires
        first_match(s, key_is::<Plugin>(id)) < 0,
        rec.metadata.id == id,
    ensures
        first_match(s.push(rec), key_is::<Plugin>(id)) == s.len(),
{
    lemma_first_match_spec(s, key_is::<Plugin>(id));
    assert forall|k: int| 0 <= k < s.len() implies !key_is::<Plugin>(id)(#[trigger] s.push(rec)[k]) by {
        assert(s.push(rec)[k] == s[k]);
    }
    lemma_first_match(s.push(rec), key_is::<Plugin>(id), s.len() as int);
}

proof fn lemma_index_after_update(s: Seq<PluginRecord>, k: int, rec: PluginRecord, id: Seq<char>)
    requires
        first_match(s, key_is::<Plugin>(id)) == k,
        0 <= k < s.len(),
        rec.metadata.id == s[k].metadata.id,
    ensures
        first_match(s.update(k, rec), key_is::<Plugin>(id)) == k,
{
    lemma_first_match_spec(s, key_is::<Plugin>(id));
    assert forall|j: int| 0 <= j < k implies !key_is::<Plugin>(id)(#[trigger] s.update(k, rec)[j]) by {
        assert(s.update(k, rec)[j] == s[j]);
    }
    lemma_first_match(s.update(k, rec), key_is::<Plugin>(id), k);
}

/// A plugin that loads is Loaded and counts as loaded; it can then be
/// activated, deactivated back to Loaded, and unloaded, each step succeeding.
pub proof fn law_plugin_lifecycle(m: PluginModel, id: Seq<char>)
    requires
        load_result(m, id).0,
    ensures
        ({
            let m1 = load_result(m, id).1;
            let (a, m2) = activate_result(m1, id);
            let (d, m3) = deactivate_result(m2, id);
            let (u, m4) = unload_result(m3, id);
            &&& m1.plugins[plugin_index(m1, id)].state == PluginState::Loaded
            &&& is_loaded(m1, id)
            &&& a
            &&& m2.plugins[plugin_index(m2, id)].state == PluginState::Active
            &&& d
            &&& m3.plugins[plugin_index(m3, id)].state == PluginState::Loaded
            &&& u
            &&& m4.plugins.len() == m.plugins.len()
        }),
{
    let a = first_match(m.available, key_is::<PluginMetadata>(id));
    lemma_first_match_spec(m.available, key_is::<PluginMetadata>(id));
    let m1 = load_result(m, id).1;
    let k = m.plugins.len() as int;
    lemma_index_after_push(m.plugins, m1.plugins[k], id);
    assert(m1.plugins[k].metadata.id == id);
    assert(is_loaded(m1, id));
    let p1 = m1.plugins[k];
    let m2 = activate_result(m1, id).1;
    lemma_index_after_update(m1.plugins, k, PluginRecord { state: PluginState::Active, ..p1 }, id);
    let p2 = m2.plugins[k];
    let m3 = deactivate_result(m2, id).1;
    lemma_index_after_update(m2.plugins, k, PluginRecord { state: PluginState::Loaded, ..p2 }, id);
}

/// Sandbox ids stay distinct: a new sandbox takes an id past every existing
/// one, and unloading only removes sandboxes.
pub proof fn law_sandbox_ids_unique(m: PluginModel, id: Seq<char>)
    requires
        unique_sandbox_ids(m.sandboxes),
        max_sandbox_id(m.sandboxes) < u32::MAX,
    ensures
        unique_sandbox_ids(load_result(m, id).1.sandboxes),
        unique_sandbox_ids(unload_result(m, id).1.sandboxes),
{
    lemma_max_sandbox_bounds(m.sandboxes);
    let k = plugin_index(m, id);
    if k >= 0 {
        let sid = m.plugins[k].sandbox_id;
        lemma_keep_unique(m.sandboxes, other_sandbox(sid), m.sandboxes.len() as int);
    }
}

proof fn lemma_max_sandbox_bounds(s: Seq<SandboxConfig>)
    ensures
        forall|i: int| 0 <= i < s.len() ==> #[trigger] s[i].id <= max_sandbox_id(s),
    decreases s.len(),
{
    if s.len() > 0 {
        lemma_max_sandbox_bounds(s.drop_last());
        assert forall|i: int| 0 <= i < s.len() implies #[trigger] s[i].id <= max_sandbox_id(s) by {
            if i < s.len() - 1 {
                assert(s[i] == s.drop_last()[i]);
            }
        }
    }
}

/// Keeping some of the sandboxes of a list with distinct ids keeps the ids
/// distinct, and every kept sandbox comes from the list.
proof fn lemma_keep_unique(s: Seq<SandboxConfig>, p: spec_fn(SandboxConfig) -> bool, n: int)
    requires
        unique_sandbox_ids(s),
        0 <= n <= s.len(),
    ensures
        unique_sandbox_ids(keep(s, p, n)),
        forall|i: int|
            0 <= i < keep(s, p, n).len() ==> exists|j: int| 0 <= j < n && s[j] == #[trigger] keep(s, p, n)[i],
    decreases n,
{
    if n > 0 {
        lemma_keep_unique(s, p, n - 1);
        let k = keep(s, p, n - 1);
        if p(s[n - 1]) {
            assert forall|i: int| 0 <= i < k.len() implies #[trigger] k[i].id != s[n - 1].id by {
                let j = choose|j: int| 0 <= j < n - 1 && s[j] == k[i];
            }
            assert forall|i: int|
                0 <= i < keep(s, p, n).len() implies exists|j: int| 0 <= j < n && s[j] == #[trigger] keep(s, p, n)[i] by {
                if i < k.len() {
                    let j = choose|j: int| 0 <= j < n - 1 && s[j] == k[i];
                    assert(s[j] == keep(s, p, n)[i]);
                } else {
                    assert(s[n - 1] == keep(s, p, n)[i]);
                }
            }
        }
    }
}

/// Hot reload of an active plugin that succeeds leaves it active again.
pub proof fn law_hot_reload_keeps_active(m: PluginModel, id: Seq<char>)
    requires
        plugin_index(m, id) >= 0,
        m.plugins[plugin_index(m, id)].state == PluginState::Active,
        hot_reload_result(m, id).0,
    ensures
        ({
            let m2 = hot_reload_result(m, id).1;
            m2.plugins[plugin_index(m2, id)].state == PluginState::Active
        }),
{
    lemma_first_match_spec(m.plugins, key_is::<Plugin>(id));
    let m1 = unload_result(m, id).1;
    let lm = load_result(m1, id).1;
    lemma_first_match_spec(m1.available, key_is::<PluginMetadata>(id));
    let k = m1.plugins.len() as int;
    lemma_index_after_push(m1.plugins, lm.plugins[k], id);
    let p = lm.plugins[k];
    lemma_index_after_update(lm.plugins, k, PluginRecord { state: PluginState::Active, ..p }, id);
}

/// Discovering plugins never makes two available entries share an id.
pub proof fn law_discover_unique(available: Seq<MetadataRecord>, list: Seq<MetadataRecord>)
    requires
        unique_available(available),
    ensures
        unique_available(discover_result(available, list)),
    decreases list.len(),
{
    if list.len() > 0 {
        law_discover_unique(available, list.drop_last());
        let a = discover_result(available, list.drop_last());
        lemma_first_match_spec(a, key_is::<PluginMetadata>(list.last().id));
        if first_match(a, key_is::<PluginMetadata>(list.last().id)) < 0 {
            assert forall|i: int, j: int| 0 <= i < j < a.push(list.last()).len() implies a.push(
                list.last(),
            )[i].id != a.push(list.last())[j].id by {
                if j == a.len() {
                    assert(!key_is::<PluginMetadata>(list.last().id)(a[i]));
                }
            }
        }
    }
}

/// Taking an instance out of a list with distinct ids keeps them distinct.
proof fn lemma_unique_remove(s: Seq<PluginRecord>, k: int)
    requires
        unique_plugin_ids(s),
        0 <= k < s.len(),
    ensures
        unique_plugin_ids(s.remove(k)),
{
    let t = s.remove(k);
    assert forall|i: int, j: int| 0 <= i < j < t.len() implies #[trigger] t[i].metadata.id
        != #[trigger] t[j].metadata.id by {
        let i0 = if i < k { i } else { i + 1 };
        let j0 = if j < k { j } else { j + 1 };
        assert(t[i] == s[i0] && t[j] == s[j0]);
    }
}

/// Replacing an instance by one with the same id keeps the ids distinct.
proof fn lemma_unique_update(s: Seq<PluginRecord>, k: int, rec: PluginRecord)
    requires
        unique_plugin_ids(s),
        0 <= k < s.len(),
        rec.metadata.id == s[k].metadata.id,
    ensures
        unique_plugin_ids(s.update(k, rec)),
{
    let t = s.update(k, rec);
    assert forall|i: int, j: int| 0 <= i < j < t.len() implies #[trigger] t[i].metadata.id
        != #[trigger] t[j].metadata.id by {
        assert(t[i].metadata.id == s[i].metadata.id && t[j].metadata.id == s[j].metadata.id);
    }
}

/// Appending an instance whose id no instance has keeps the ids distinct.
proof fn lemma_unique_push(s: Seq<PluginRecord>, rec: PluginRecord)
    requires
        unique_plugin_ids(s),
        first_match(s, key_is::<Plugin>(rec.metadata.id)) < 0,
    ensures
        unique_plugin_ids(s.push(rec)),
{
    lemma_first_match_spec(s, key_is::<Plugin>(rec.metadata.id));
    let t = s.push(rec);
    assert forall|i: int, j: int| 0 <= i < j < t.len() implies #[trigger] t[i].metadata.id
        != #[trigger] t[j].metadata.id by {
        assert(t[i] == s[i]);
        if j < s.len() {
            assert(t[j] == s[j]);
        } else {
            assert(!key_is::<Plugin>(rec.metadata.id)(s[i]));
        }
    }
}

/// With distinct ids, no instance with `id` is left once the one found under
/// `id` is taken out.
proof fn lemma_unique_gone_after_remove(s: Seq<PluginRecord>, id: Seq<char>)
    requires
        unique_plugin_ids(s),
        first_match(s, key_is::<Plugin>(id)) >= 0,
    ensures
        first_match(s.remove(first_match(s, key_is::<Plugin>(id))), key_is::<Plugin>(id)) < 0,
        forall|j: int|
            0 <= j < s.remove(first_match(s, key_is::<Plugin>(id))).len() ==> #[trigger] s.remove(
                first_match(s, key_is::<Plugin>(id)),
            )[j].metadata.id != id,
{
    lemma_first_match_spec(s, key_is::<Plugin>(id));
    let k = first_match(s, key_is::<Plugin>(id));
    let t = s.remove(k);
    assert forall|j: int| 0 <= j < t.len() implies #[trigger] t[j].metadata.id != id by {
        if j < k {
            assert(t[j] == s[j]);
            assert(!key_is::<Plugin>(id)(s[j]));
        } else {
            assert(t[j] == s[j + 1]);
            assert(s[k].metadata.id != s[j + 1].metadata.id);
        }
    }
    lemma_first_match_spec(t, key_is::<Plugin>(id));
}

/// No two plugin instances share an id: a new manager has none, and loading,
/// unloading, every state change, marking failed and hot reload all keep the
/// ids of the instances distinct.
pub proof fn law_plugin_ids_unique(
    m: PluginModel,
    id: Seq<char>,
    error: Seq<char>,
    from: PluginState,
    to: PluginState,
    event: Option<spec_fn(u32) -> PluginEvent>,
)
    requires
        unique_plugin_ids(m.plugins),
    ensures
        unique_plugin_ids(Seq::<PluginRecord>::empty()),
        unique_plugin_ids(load_result(m, id).1.plugins),
        unique_plugin_ids(unload_result(m, id).1.plugins),
        unique_plugin_ids(transition_result(m, id, from, to, event).1.plugins),
        unique_plugin_ids(failed_result(m, id, error).plugins),
        unique_plugin_ids(hot_reload_result(m, id).1.plugins),
{
    lemma_load_unique(m, id);
    lemma_unload_unique(m, id);
    lemma_transition_unique(m, id, from, to, event);
    lemma_first_match_spec(m.plugins, key_is::<Plugin>(id));
    let k = plugin_index(m, id);
    if k >= 0 {
        lemma_unique_update(
            m.plugins,
            k,
            PluginRecord { state: PluginState::Failed, error: Some(error), ..m.plugins[k] },
        );
    }
    let m1 = unload_result(m, id).1;
    lemma_load_unique(m1, id);
    let m2 = load_result(m1, id).1;
    lemma_transition_unique(m2, id, PluginState::Loaded, PluginState::Active, Some(activated_event()));
}

proof fn lemma_load_unique(m: PluginModel, id: Seq<char>)
    requires
        unique_plugin_ids(m.plugins),
    ensures
        unique_plugin_ids(load_result(m, id).1.plugins),
{
    if load_result(m, id).0 {
        let a = first_match(m.available, key_is::<PluginMetadata>(id));
        lemma_first_match_spec(m.available, key_is::<PluginMetadata>(id));
        let rec = load_result(m, id).1.plugins.last();
        assert(load_result(m, id).1.plugins == m.plugins.push(rec));
        assert(rec.metadata.id == id);
        lemma_unique_push(m.plugins, rec);
    }
}

proof fn lemma_unload_unique(m: PluginModel, id: Seq<char>)
    requires
        unique_plugin_ids(m.plugins),
    ensures
        unique_plugin_ids(unload_result(m, id).1.plugins),
{
    lemma_first_match_spec(m.plugins, key_is::<Plugin>(id));
    let k = plugin_index(m, id);
    if k >= 0 {
        lemma_unique_remove(m.plugins, k);
    }
}

proof fn lemma_transition_unique(
    m: PluginModel,
    id: Seq<char>,
    from: PluginState,
    to: PluginState,
    event: Option<spec_fn(u32) -> PluginEvent>,
)
    requires
        unique_plugin_ids(m.plugins),
    ensures
        unique_plugin_ids(transition_result(m, id, from, to, event).1.plugins),
{
    lemma_first_match_spec(m.plugins, key_is::<Plugin>(id));
    let k = plugin_index(m, id);
    if k >= 0 && m.plugins[k].state == from {
        lemma_unique_update(m.plugins, k, PluginRecord { state: to, ..m.plugins[k] });
    }
}

/// With distinct ids, marking a plugin failed leaves it found under its id,
/// Failed, with the error recorded, no longer loaded and not among the loaded
/// plugins, with a Crashed event for its sandbox; marking an id no instance
/// has changes nothing.
pub proof fn law_mark_failed_unloads(m: PluginModel, id: Seq<char>, error: Seq<char>)
    requires
        unique_plugin_ids(m.plugins),
    ensures
        mark_failed_outcome(m, id, error, failed_result(m, id, error)),
{
    lemma_first_match_spec(m.plugins, key_is::<Plugin>(id));
    let k = plugin_index(m, id);
    if k >= 0 {
        let rec = PluginRecord { state: PluginState::Failed, error: Some(error), ..m.plugins[k] };
        let t = m.plugins.update(k, rec);
        lemma_index_after_update(m.plugins, k, rec, id);
        assert forall|j: int| 0 <= j < t.len() && #[trigger] t[j].metadata.id == id implies t[j].state
            == PluginState::Failed by {
            if j != k {
                assert(t[j] == m.plugins[j]);
                if j < k {
                    assert(m.plugins[j].metadata.id != m.plugins[k].metadata.id);
                } else {
                    assert(m.plugins[k].metadata.id != m.plugins[j].metadata.id);
                }
            }
        }
        let kept = keep_all(t, not_failed());
        crate::search::lemma_keep(t, not_failed(), t.len() as int);
        lemma_keep_from(t, not_failed(), t.len() as int);
        assert forall|j: int| 0 <= j < kept.len() implies (#[trigger] kept[j]).metadata.id != id by {
            let i = choose|i: int| 0 <= i < t.len() && t[i] == kept[j];
            assert(not_failed()(kept[j]));
        }
    }
}

/// Every element kept comes from the list.
proof fn lemma_keep_from(s: Seq<PluginRecord>, p: spec_fn(PluginRecord) -> bool, n: int)
    requires
        0 <= n <= s.len(),
    ensures
        forall|i: int|
            0 <= i < keep(s, p, n).len() ==> exists|j: int| 0 <= j < n && s[j] == #[trigger] keep(s, p, n)[i],
    decreases n,
{
    if n > 0 {
        lemma_keep_from(s, p, n - 1);
        let k = keep(s, p, n - 1);
        assert forall|i: int| 0 <= i < keep(s, p, n).len() implies exists|j: int|
            0 <= j < n && s[j] == #[trigger] keep(s, p, n)[i] by {
            if i < k.len() {
                let j = choose|j: int| 0 <= j < n - 1 && s[j] == k[i];
                assert(s[j] == keep(s, p, n)[i]);
            } else {
                assert(s[n - 1] == keep(s, p, n)[i]);
            }
        }
    }
}

/// With distinct ids, hot reload of an id no instance has fails and changes
/// nothing. Otherwise the instance is unloaded and loaded again from the
/// available list: the reload succeeds exactly when that load gets as far as
/// a sandbox (the id is available and its dependencies are loaded). On
/// success the instance is found under its id with no error, Active when it
/// was active before and Loaded otherwise; on failure no instance has the id
/// (the unload is not undone).
pub proof fn law_hot_reload_outcome(m: PluginModel, id: Seq<char>)
    requires
        unique_plugin_ids(m.plugins),
    ensures
        hot_reload_outcome(m, id, hot_reload_result(m, id).0, hot_reload_result(m, id).1),
{
    lemma_first_match_spec(m.plugins, key_is::<Plugin>(id));
    let k = plugin_index(m, id);
    if k >= 0 {
        let m1 = unload_result(m, id).1;
        lemma_unique_gone_after_remove(m.plugins, id);
        assert(plugin_index(m1, id) < 0);
        lemma_first_match_spec(m1.available, key_is::<PluginMetadata>(id));
        let lm = load_result(m1, id).1;
        if load_reaches_sandbox(m1, id) {
            let n = m1.plugins.len() as int;
            lemma_index_after_push(m1.plugins, lm.plugins[n], id);
            if m.plugins[k].state == PluginState::Active {
                let p = lm.plugins[n];
                lemma_index_after_update(lm.plugins, n, PluginRecord { state: PluginState::Active, ..p }, id);
            }
        }
    }
}

/// Discovery keeps every entry that was available, in place, and afterwards
/// every discovered id is available: a new id is added, and an id already
/// available keeps its old entry.
pub proof fn law_discover_keeps(available: Seq<MetadataRecord>, list: Seq<MetadataRecord>)
    ensures
        discover_result(available, list).len() >= available.len(),
        discover_result(available, list).subrange(0, available.len() as int) == available,
        forall|i: int|
            0 <= i < list.len() ==> first_match(
                discover_result(available, list),
                key_is::<PluginMetadata>(#[trigger] list[i].id),
            ) >= 0,
    decreases list.len(),
{
    if list.len() > 0 {
        let pre = list.drop_last();
        law_discover_keeps(available, pre);
        let a = discover_result(available, pre);
        let x = list.last();
        lemma_first_match_spec(a, key_is::<PluginMetadata>(x.id));
        let r = discover_result(available, list);
        if first_match(a, key_is::<PluginMetadata>(x.id)) < 0 {
            assert(r == a.push(x));
            assert(r.subrange(0, available.len() as int) =~= a.subrange(0, available.len() as int));
        }
        assert forall|i: int| 0 <= i < list.len() implies first_match(
            r,
            key_is::<PluginMetadata>(#[trigger] list[i].id),
        ) >= 0 by {
            let id = list[i].id;
            if i < list.len() - 1 {
                assert(pre[i] == list[i]);
                lemma_first_match_spec(a, key_is::<PluginMetadata>(id));
            }
            lemma_first_match_spec(a, key_is::<PluginMetadata>(id));
            lemma_first_match_spec(r, key_is::<PluginMetadata>(id));
            if first_match(a, key_is::<PluginMetadata>(id)) >= 0 {
                let k = first_match(a, key_is::<PluginMetadata>(id));
                if r != a {
                    assert(r[k] == a[k]);
                }
            } else {
                assert(i == list.len() - 1);
                assert(r == a.push(x));
                assert(r[a.len() as int] == x);
            }
        }
    }
}

} // verus!
