//! Values that pass between the manager and its platform.

use crate::domain::ManagerState;
use crate::text_map::TextMap;
use crate::config;
use crate::text;
use crate::text_map;
use vstd::prelude::*;

verus! {

/// A platform facility that a backend can provide.
#[derive(Debug, Clone, Copy, PartialEq, Eq, PartialOrd, Ord, Hash, Structural)]
pub enum Capability {
    Layout,
    Install,
    Identity,
    Service,
    Firewall,
    PolicyRouting,
    Tun,
    AppRunner,
    MountIsolation,
    DesktopProxy,
    PackageAdvice,
}

/// The public name of a capability.
pub open spec fn capability_name(c: Capability) -> Seq<char> {
    match c {
        Capability::Layout => "layout"@,
        Capability::Install => "installer"@,
        Capability::Identity => "identity"@,
        Capability::Service => "service"@,
        Capability::Firewall => "firewall"@,
        Capability::PolicyRouting => "policy_routing"@,
        Capability::Tun => "tun"@,
        Capability::AppRunner => "app_runner"@,
        Capability::MountIsolation => "mount_isolation"@,
        Capability::DesktopProxy => "desktop_proxy"@,
        Capability::PackageAdvice => "package_advisor"@,
    }
}

/// The capability that a name stands for; `install` and `package_advice` are
/// accepted beside the public names.
pub open spec fn named_capability(name: Seq<char>) -> Option<Capability> {
    if name == "layout"@ {
        Some(Capability::Layout)
    } else if name == "installer"@ || name == "install"@ {
        Some(Capability::Install)
    } else if name == "identity"@ {
        Some(Capability::Identity)
    } else if name == "service"@ {
        Some(Capability::Service)
    } else if name == "firewall"@ {
        Some(Capability::Firewall)
    } else if name == "policy_routing"@ {
        Some(Capability::PolicyRouting)
    } else if name == "tun"@ {
        Some(Capability::Tun)
    } else if name == "app_runner"@ {
        Some(Capability::AppRunner)
    } else if name == "mount_isolation"@ {
        Some(Capability::MountIsolation)
    } else if name == "desktop_proxy"@ {
        Some(Capability::DesktopProxy)
    } else if name == "package_advisor"@ || name == "package_advice"@ {
        Some(Capability::PackageAdvice)
    } else {
        None
    }
}

impl Capability {
    /// The public name.
    pub fn name(&self) -> (r: &'static str)
        ensures
            r@ == capability_name(*self),
    {
        match self {
            Capability::Layout => "layout",
            Capability::Install => "installer",
            Capability::Identity => "identity",
            Capability::Service => "service",
            Capability::Firewall => "firewall",
            Capability::PolicyRouting => "policy_routing",
            Capability::Tun => "tun",
            Capability::AppRunner => "app_runner",
            Capability::MountIsolation => "mount_isolation",
            Capability::DesktopProxy => "desktop_proxy",
            Capability::PackageAdvice => "package_advisor",
        }
    }

    /// The capability of a name.
    pub fn from_name(name: &str) -> (r: Option<Capability>)
        ensures
            r == named_capability(name@),
    {
        if text::same(name, "layout") {
            Some(Capability::Layout)
        } else if text::same(name, "installer") || text::same(name, "install") {
            Some(Capability::Install)
        } else if text::same(name, "identity") {
            Some(Capability::Identity)
        } else if text::same(name, "service") {
            Some(Capability::Service)
        } else if text::same(name, "firewall") {
            Some(Capability::Firewall)
        } else if text::same(name, "policy_routing") {
            Some(Capability::PolicyRouting)
        } else if text::same(name, "tun") {
            Some(Capability::Tun)
        } else if text::same(name, "app_runner") {
            Some(Capability::AppRunner)
        } else if text::same(name, "mount_isolation") {
            Some(Capability::MountIsolation)
        } else if text::same(name, "desktop_proxy") {
            Some(Capability::DesktopProxy)
        } else if text::same(name, "package_advisor") || text::same(name, "package_advice") {
            Some(Capability::PackageAdvice)
        } else {
            None
        }
    }
}

/// The public name of a capability leads back to it.
pub proof fn law_capability_name_round_trip(c: Capability)
    ensures
        named_capability(capability_name(c)) == Some(c),
{
    reveal_strlit("layout");
    reveal_strlit("installer");
    reveal_strlit("install");
    reveal_strlit("identity");
    reveal_strlit("service");
    reveal_strlit("firewall");
    reveal_strlit("policy_routing");
    reveal_strlit("tun");
    reveal_strlit("app_runner");
    reveal_strlit("mount_isolation");
    reveal_strlit("desktop_proxy");
    reveal_strlit("package_advisor");
    reveal_strlit("package_advice");
    assert("layout"@.len() == 6);
    assert("installer"@.len() == 9);
    assert("install"@.len() == 7);
    assert("identity"@.len() == 8);
    assert("service"@.len() == 7);
    assert("firewall"@.len() == 8);
    assert("policy_routing"@.len() == 14);
    assert("tun"@.len() == 3);
    assert("app_runner"@.len() == 10);
    assert("mount_isolation"@.len() == 15);
    assert("desktop_proxy"@.len() == 13);
    assert("package_advisor"@.len() == 15);
    assert("package_advice"@.len() == 14);
    assert("install"@[0] != "service"@[0]);
    assert("identity"@[0] != "firewall"@[0]);
    assert("policy_routing"@[1] != "package_advice"@[1]);
    assert("mount_isolation"@[0] != "package_advisor"@[0]);
}

pub open spec fn assigned(v: Seq<(Capability, String)>) -> Map<Capability, Seq<char>>
    decreases v.len(),
{
    if v.len() == 0 {
        Map::empty()
    } else {
        assigned(v.drop_last()).insert(v.last().0, v.last().1@)
    }
}

/// A backend ID for each of some capabilities.
#[derive(Debug)]
pub struct CapabilityMap {
    pub entries: Vec<(Capability, String)>,
}

impl View for CapabilityMap {
    type V = Map<Capability, Seq<char>>;

    open spec fn view(&self) -> Map<Capability, Seq<char>> {
        assigned(self.entries@)
    }
}

proof fn lemma_assigned_set(v: Seq<(Capability, String)>, i: int, s: String)
    requires
        0 <= i < v.len(),
        forall|j: int| i < j < v.len() ==> (#[trigger] v[j]).0 != v[i].0,
    ensures
        assigned(v.update(i, (v[i].0, s))) == assigned(v).insert(v[i].0, s@),
    decreases v.len(),
{
    let u = v.update(i, (v[i].0, s));
    if i == v.len() - 1 {
        assert(u.drop_last() =~= v.drop_last());
        assert(assigned(u) =~= assigned(v).insert(v[i].0, s@));
    } else {
        let w = v.drop_last();
        assert(u.drop_last() =~= w.update(i, (w[i].0, s)));
        assert forall|j: int| i < j < w.len() implies (#[trigger] w[j]).0 != w[i].0 by {
            assert(w[j] == v[j]);
        }
        lemma_assigned_set(w, i, s);
        assert(v[v.len() - 1].0 != v[i].0);
        assert(assigned(u) =~= assigned(v).insert(v[i].0, s@));
    }
}

proof fn lemma_assigned_lookup(v: Seq<(Capability, String)>, i: int)
    requires
        0 <= i < v.len(),
        forall|j: int| i < j < v.len() ==> (#[trigger] v[j]).0 != v[i].0,
    ensures
        assigned(v).contains_key(v[i].0),
        assigned(v)[v[i].0] == v[i].1@,
    decreases v.len(),
{
    if i < v.len() - 1 {
        let w = v.drop_last();
        assert forall|j: int| i < j < w.len() implies (#[trigger] w[j]).0 != w[i].0 by {
            assert(w[j] == v[j]);
        }
        lemma_assigned_lookup(w, i);
        assert(v[v.len() - 1].0 != v[i].0);
    }
}

proof fn lemma_assigned_missing(v: Seq<(Capability, String)>, c: Capability)
    requires
        forall|j: int| 0 <= j < v.len() ==> (#[trigger] v[j]).0 != c,
    ensures
        !assigned(v).contains_key(c),
    decreases v.len(),
{
    if v.len() > 0 {
        let w = v.drop_last();
        assert forall|j: int| 0 <= j < w.len() implies (#[trigger] w[j]).0 != c by {
            assert(w[j] == v[j]);
        }
        lemma_assigned_missing(w, c);
        assert(v[v.len() - 1].0 != c);
    }
}

impl CapabilityMap {
    /// The map without an entry.
    pub fn new() -> (r: CapabilityMap)
        ensures
            r@ == Map::<Capability, Seq<char>>::empty(),
    {
        CapabilityMap { entries: Vec::new() }
    }

    fn position(&self, c: Capability) -> (r: Option<usize>)
        ensures
            match r {
                Some(i) => i < self.entries@.len() && self.entries@[i as int].0 == c && forall|j: int|
                    i < j < self.entries@.len() ==> (#[trigger] self.entries@[j]).0 != c,
                None => forall|j: int|
                    0 <= j < self.entries@.len() ==> (#[trigger] self.entries@[j]).0 != c,
            },
    {
        let mut i: usize = self.entries.len();
        while i > 0
            invariant
                i <= self.entries@.len(),
                forall|j: int|
                    i <= j < self.entries@.len() ==> (#[trigger] self.entries@[j]).0 != c,
            decreases i,
        {
            i -= 1;
            if self.entries[i].0 == c {
                return Some(i);
            }
        }
        None
    }

    /// The backend ID of `c`.
    pub fn get(&self, c: Capability) -> (r: Option<&String>)
        ensures
            match r {
                Some(s) => self@.contains_key(c) && s@ == self@[c],
                None => !self@.contains_key(c),
            },
    {
        match self.position(c) {
            Some(i) => {
                proof {
                    lemma_assigned_lookup(self.entries@, i as int);
                }
                Some(&self.entries[i].1)
            },
            None => {
                proof {
                    lemma_assigned_missing(self.entries@, c);
                }
                None
            },
        }
    }

    /// Gives `c` a backend ID, in place of an earlier one.
    pub fn insert(&mut self, c: Capability, id: String)
        ensures
            final(self)@ == old(self)@.insert(c, id@),
    {
        match self.position(c) {
            Some(i) => {
                proof {
                    lemma_assigned_set(self.entries@, i as int, id);
                }
                self.entries.set(i, (c, id));
            },
            None => {
                let ghost before = self.entries@;
                self.entries.push((c, id));
                assert(self.entries@.drop_last() =~= before);
            },
        }
    }
}

impl Clone for CapabilityMap {
    fn clone(&self) -> (r: Self)
        ensures
            r@ == self@,
    {
        let mut entries: Vec<(Capability, String)> = Vec::new();
        let mut i: usize = 0;
        assert(self.entries@.take(0).len() == 0);
        while i < self.entries.len()
            invariant
                i <= self.entries@.len(),
                assigned(entries@) == assigned(self.entries@.take(i as int)),
            decreases self.entries@.len() - i,
        {
            let e = &self.entries[i];
            let id = e.1.clone();
            proof {
                assert(self.entries@.take(i + 1).drop_last() =~= self.entries@.take(i as int));
                assert(entries@.push((e.0, id)).drop_last() =~= entries@);
            }
            entries.push((e.0, id));
            i += 1;
        }
        assert(self.entries@.take(self.entries@.len() as int) =~= self.entries@);
        CapabilityMap { entries }
    }
}

/// Where the choice of a backend came from.
#[derive(Debug, Clone, Copy, PartialEq, Eq, Structural)]
pub enum SelectionSource {
    Cli,
    Config,
    InstalledState,
    Automatic,
}

/// The backend chosen for a capability.
#[derive(Debug)]
pub struct BackendSelection {
    pub capability: Capability,
    pub backend_id: String,
    pub source: SelectionSource,
}

/// The mathematical value of a [`BackendSelection`].
#[verifier::ext_equal]
pub struct BackendSelectionView {
    pub capability: Capability,
    pub backend_id: Seq<char>,
    pub source: SelectionSource,
}

impl View for BackendSelection {
    type V = BackendSelectionView;

    open spec fn view(&self) -> BackendSelectionView {
        BackendSelectionView {
            capability: self.capability,
            backend_id: self.backend_id@,
            source: self.source,
        }
    }
}

impl Clone for BackendSelection {
    fn clone(&self) -> (r: Self)
        ensures
            r@ == self@,
    {
        BackendSelection {
            capability: self.capability,
            backend_id: self.backend_id.clone(),
            source: self.source,
        }
    }
}

pub open spec fn backend_selection_views(v: Seq<BackendSelection>) -> Seq<BackendSelectionView> {
    v.map_values(|x: BackendSelection| x@)
}

pub broadcast proof fn lemma_backend_selection_views_push(v: Seq<BackendSelection>, x: BackendSelection)
    ensures
        #[trigger] backend_selection_views(v.push(x)) == backend_selection_views(v).push(x@),
{
    assert(backend_selection_views(v.push(x)) =~= backend_selection_views(v).push(x@));
}

/// A copy of a list of [`BackendSelection`].
pub fn copy_backend_selections(v: &Vec<BackendSelection>) -> (r: Vec<BackendSelection>)
    ensures
        backend_selection_views(r@) == backend_selection_views(v@),
{
    let mut r: Vec<BackendSelection> = Vec::new();
    let mut i: usize = 0;
    while i < v.len()
        invariant
            i <= v@.len(),
            backend_selection_views(r@) == backend_selection_views(v@).take(i as int),
        decreases v@.len() - i,
    {
        let x = v[i].clone();
        proof {
            lemma_backend_selection_views_push(r@, x);
            assert(backend_selection_views(v@).take(i + 1) =~= backend_selection_views(v@).take(i as int).push(x@));
        }
        r.push(x);
        i += 1;
    }
    assert(backend_selection_views(v@).take(v@.len() as int) =~= backend_selection_views(v@));
    r
}

/// Whether a capability can be used, and why not.
#[derive(Debug)]
pub struct CapabilityStatus {
    pub capability: Capability,
    pub supported: bool,
    pub backend_id: Option<String>,
    pub reason: Option<String>,
}

/// The mathematical value of a [`CapabilityStatus`].
#[verifier::ext_equal]
pub struct CapabilityStatusView {
    pub capability: Capability,
    pub supported: bool,
    pub backend_id: Option<Seq<char>>,
    pub reason: Option<Seq<char>>,
}

impl View for CapabilityStatus {
    type V = CapabilityStatusView;

    open spec fn view(&self) -> CapabilityStatusView {
        CapabilityStatusView {
            capability: self.capability,
            supported: self.supported,
            backend_id: text::opt_text(self.backend_id),
            reason: text::opt_text(self.reason),
        }
    }
}

impl Clone for CapabilityStatus {
    fn clone(&self) -> (r: Self)
        ensures
            r@ == self@,
    {
        CapabilityStatus {
            capability: self.capability,
            supported: self.supported,
            backend_id: text::copy_opt(&self.backend_id),
            reason: text::copy_opt(&self.reason),
        }
    }
}

pub open spec fn capability_status_views(v: Seq<CapabilityStatus>) -> Seq<CapabilityStatusView> {
    v.map_values(|x: CapabilityStatus| x@)
}

pub broadcast proof fn lemma_capability_status_views_push(v: Seq<CapabilityStatus>, x: CapabilityStatus)
    ensures
        #[trigger] capability_status_views(v.push(x)) == capability_status_views(v).push(x@),
{
    assert(capability_status_views(v.push(x)) =~= capability_status_views(v).push(x@));
}

/// A copy of a list of [`CapabilityStatus`].
pub fn copy_capability_statuses(v: &Vec<CapabilityStatus>) -> (r: Vec<CapabilityStatus>)
    ensures
        capability_status_views(r@) == capability_status_views(v@),
{
    let mut r: Vec<CapabilityStatus> = Vec::new();
    let mut i: usize = 0;
    while i < v.len()
        invariant
            i <= v@.len(),
            capability_status_views(r@) == capability_status_views(v@).take(i as int),
        decreases v@.len() - i,
    {
        let x = v[i].clone();
        proof {
            lemma_capability_status_views_push(r@, x);
            assert(capability_status_views(v@).take(i + 1) =~= capability_status_views(v@).take(i as int).push(x@));
        }
        r.push(x);
        i += 1;
    }
    assert(capability_status_views(v@).take(v@.len() as int) =~= capability_status_views(v@));
    r
}

/// What a backend says of itself.
#[derive(Debug)]
pub struct BackendDescriptor {
    pub id: String,
    pub contract_version: u32,
    pub capabilities: Vec<Capability>,
    pub platform: String,
    pub requirements: Vec<String>,
}

/// The mathematical value of a [`BackendDescriptor`].
#[verifier::ext_equal]
pub struct BackendDescriptorView {
    pub id: Seq<char>,
    pub contract_version: u32,
    pub capabilities: Seq<Capability>,
    pub platform: Seq<char>,
    pub requirements: Seq<Seq<char>>,
}

impl View for BackendDescriptor {
    type V = BackendDescriptorView;

    open spec fn view(&self) -> BackendDescriptorView {
        BackendDescriptorView {
            id: self.id@,
            contract_version: self.contract_version,
            capabilities: self.capabilities@,
            platform: self.platform@,
            requirements: text::texts(self.requirements@),
        }
    }
}

impl Clone for BackendDescriptor {
    fn clone(&self) -> (r: Self)
        ensures
            r@ == self@,
    {
        let mut capabilities: Vec<Capability> = Vec::new();
        let mut i: usize = 0;
        while i < self.capabilities.len()
            invariant
                i <= self.capabilities@.len(),
                capabilities@ == self.capabilities@.take(i as int),
            decreases self.capabilities@.len() - i,
        {
            capabilities.push(self.capabilities[i]);
            assert(self.capabilities@.take(i + 1) =~= self.capabilities@.take(i as int).push(
                self.capabilities@[i as int],
            ));
            i += 1;
        }
        assert(self.capabilities@.take(self.capabilities@.len() as int) =~= self.capabilities@);
        BackendDescriptor {
            id: self.id.clone(),
            contract_version: self.contract_version,
            capabilities,
            platform: self.platform.clone(),
            requirements: text::copy_texts(&self.requirements),
        }
    }
}

/// Whether a backend can be used on this host.
#[derive(Debug)]
pub struct BackendProbe {
    pub available: bool,
    pub reason: Option<String>,
}

/// The mathematical value of a [`BackendProbe`].
#[verifier::ext_equal]
pub struct BackendProbeView {
    pub available: bool,
    pub reason: Option<Seq<char>>,
}

impl View for BackendProbe {
    type V = BackendProbeView;

    open spec fn view(&self) -> BackendProbeView {
        BackendProbeView {
            available: self.available,
            reason: text::opt_text(self.reason),
        }
    }
}

impl Clone for BackendProbe {
    fn clone(&self) -> (r: Self)
        ensures
            r@ == self@,
    {
        BackendProbe {
            available: self.available,
            reason: text::copy_opt(&self.reason),
        }
    }
}

pub open spec fn backend_probe_views(v: Seq<BackendProbe>) -> Seq<BackendProbeView> {
    v.map_values(|x: BackendProbe| x@)
}

/// The backend IDs asked for, by source.
#[derive(Debug)]
pub struct BackendPreferences {
    pub cli: CapabilityMap,
    pub config: CapabilityMap,
    pub installed: CapabilityMap,
}

/// The mathematical value of a [`BackendPreferences`].
#[verifier::ext_equal]
pub struct BackendPreferencesView {
    pub cli: Map<Capability, Seq<char>>,
    pub config: Map<Capability, Seq<char>>,
    pub installed: Map<Capability, Seq<char>>,
}

impl View for BackendPreferences {
    type V = BackendPreferencesView;

    open spec fn view(&self) -> BackendPreferencesView {
        BackendPreferencesView {
            cli: self.cli@,
            config: self.config@,
            installed: self.installed@,
        }
    }
}

impl Clone for BackendPreferences {
    fn clone(&self) -> (r: Self)
        ensures
            r@ == self@,
    {
        BackendPreferences {
            cli: self.cli.clone(),
            config: self.config.clone(),
            installed: self.installed.clone(),
        }
    }
}

/// One step of a plan.
#[derive(Debug)]
pub enum PlanAction {
    EnsureIdentity { name: String, system: bool },
    EnsureGroup { name: String },
    AddIdentityToGroup { identity: String, group: String },
    EnsureDirectory { path: String, mode: u32 },
    WriteFile { path: String, mode: u32, description: String },
    DownloadArtifact { id: String, destination: String },
    RequirePackages { packages: Vec<String> },
    InstallService { name: String },
    EnableService { name: String },
    StartService { name: String },
    RestartService { name: String },
    StopService { name: String },
    RemoveService { name: String },
    ConfigureFirewall { backend: String },
    ConfigureRoute { backend: String, table: u32 },
    ApplyConfiguration { description: String },
    ConfigureDesktopProxy { backend: String, user: String, enabled: bool },
    LaunchApplication { executable: String, routed: bool },
    RunHealthcheck { url: String },
    RemoveOwnedPath { path: String },
}

/// The mathematical value of a [`PlanAction`].
#[verifier::ext_equal]
pub enum PlanActionView {
    EnsureIdentity { name: Seq<char>, system: bool },
    EnsureGroup { name: Seq<char> },
    AddIdentityToGroup { identity: Seq<char>, group: Seq<char> },
    EnsureDirectory { path: Seq<char>, mode: u32 },
    WriteFile { path: Seq<char>, mode: u32, description: Seq<char> },
    DownloadArtifact { id: Seq<char>, destination: Seq<char> },
    RequirePackages { packages: Seq<Seq<char>> },
    InstallService { name: Seq<char> },
    EnableService { name: Seq<char> },
    StartService { name: Seq<char> },
    RestartService { name: Seq<char> },
    StopService { name: Seq<char> },
    RemoveService { name: Seq<char> },
    ConfigureFirewall { backend: Seq<char> },
    ConfigureRoute { backend: Seq<char>, table: u32 },
    ApplyConfiguration { description: Seq<char> },
    ConfigureDesktopProxy { backend: Seq<char>, user: Seq<char>, enabled: bool },
    LaunchApplication { executable: Seq<char>, routed: bool },
    RunHealthcheck { url: Seq<char> },
    RemoveOwnedPath { path: Seq<char> },
}

impl View for PlanAction {
    type V = PlanActionView;

    open spec fn view(&self) -> PlanActionView {
        match *self {
            PlanAction::EnsureIdentity { name, system } => PlanActionView::EnsureIdentity { name: name@, system },
            PlanAction::EnsureGroup { name } => PlanActionView::EnsureGroup { name: name@ },
            PlanAction::AddIdentityToGroup { identity, group } => PlanActionView::AddIdentityToGroup { identity: identity@, group: group@ },
            PlanAction::EnsureDirectory { path, mode } => PlanActionView::EnsureDirectory { path: path@, mode },
            PlanAction::WriteFile { path, mode, description } => PlanActionView::WriteFile { path: path@, mode, description: description@ },
            PlanAction::DownloadArtifact { id, destination } => PlanActionView::DownloadArtifact { id: id@, destination: destination@ },
            PlanAction::RequirePackages { packages } => PlanActionView::RequirePackages { packages: text::texts(packages@) },
            PlanAction::InstallService { name } => PlanActionView::InstallService { name: name@ },
            PlanAction::EnableService { name } => PlanActionView::EnableService { name: name@ },
            PlanAction::StartService { name } => PlanActionView::StartService { name: name@ },
            PlanAction::RestartService { name } => PlanActionView::RestartService { name: name@ },
            PlanAction::StopService { name } => PlanActionView::StopService { name: name@ },
            PlanAction::RemoveService { name } => PlanActionView::RemoveService { name: name@ },
            PlanAction::ConfigureFirewall { backend } => PlanActionView::ConfigureFirewall { backend: backend@ },
            PlanAction::ConfigureRoute { backend, table } => PlanActionView::ConfigureRoute { backend: backend@, table },
            PlanAction::ApplyConfiguration { description } => PlanActionView::ApplyConfiguration { description: description@ },
            PlanAction::ConfigureDesktopProxy { backend, user, enabled } => PlanActionView::ConfigureDesktopProxy { backend: backend@, user: user@, enabled },
            PlanAction::LaunchApplication { executable, routed } => PlanActionView::LaunchApplication { executable: executable@, routed },
            PlanAction::RunHealthcheck { url } => PlanActionView::RunHealthcheck { url: url@ },
            PlanAction::RemoveOwnedPath { path } => PlanActionView::RemoveOwnedPath { path: path@ },
        }
    }
}

impl Clone for PlanAction {
    fn clone(&self) -> (r: Self)
        ensures
            r@ == self@,
    {
        match self {
            PlanAction::EnsureIdentity { name, system } => PlanAction::EnsureIdentity { name: name.clone(), system: *system },
            PlanAction::EnsureGroup { name } => PlanAction::EnsureGroup { name: name.clone() },
            PlanAction::AddIdentityToGroup { identity, group } => PlanAction::AddIdentityToGroup { identity: identity.clone(), group: group.clone() },
            PlanAction::EnsureDirectory { path, mode } => PlanAction::EnsureDirectory { path: path.clone(), mode: *mode },
            PlanAction::WriteFile { path, mode, description } => PlanAction::WriteFile { path: path.clone(), mode: *mode, description: description.clone() },
            PlanAction::DownloadArtifact { id, destination } => PlanAction::DownloadArtifact { id: id.clone(), destination: destination.clone() },
            PlanAction::RequirePackages { packages } => PlanAction::RequirePackages { packages: text::copy_texts(packages) },
            PlanAction::InstallService { name } => PlanAction::InstallService { name: name.clone() },
            PlanAction::EnableService { name } => PlanAction::EnableService { name: name.clone() },
            PlanAction::StartService { name } => PlanAction::StartService { name: name.clone() },
            PlanAction::RestartService { name } => PlanAction::RestartService { name: name.clone() },
            PlanAction::StopService { name } => PlanAction::StopService { name: name.clone() },
            PlanAction::RemoveService { name } => PlanAction::RemoveService { name: name.clone() },
            PlanAction::ConfigureFirewall { backend } => PlanAction::ConfigureFirewall { backend: backend.clone() },
            PlanAction::ConfigureRoute { backend, table } => PlanAction::ConfigureRoute { backend: backend.clone(), table: *table },
            PlanAction::ApplyConfiguration { description } => PlanAction::ApplyConfiguration { description: description.clone() },
            PlanAction::ConfigureDesktopProxy { backend, user, enabled } => PlanAction::ConfigureDesktopProxy { backend: backend.clone(), user: user.clone(), enabled: *enabled },
            PlanAction::LaunchApplication { executable, routed } => PlanAction::LaunchApplication { executable: executable.clone(), routed: *routed },
            PlanAction::RunHealthcheck { url } => PlanAction::RunHealthcheck { url: url.clone() },
            PlanAction::RemoveOwnedPath { path } => PlanAction::RemoveOwnedPath { path: path.clone() },
        }
    }
}

pub open spec fn plan_action_views(v: Seq<PlanAction>) -> Seq<PlanActionView> {
    v.map_values(|x: PlanAction| x@)
}

pub broadcast proof fn lemma_plan_action_views_push(v: Seq<PlanAction>, x: PlanAction)
    ensures
        #[trigger] plan_action_views(v.push(x)) == plan_action_views(v).push(x@),
{
    assert(plan_action_views(v.push(x)) =~= plan_action_views(v).push(x@));
}

/// A copy of a list of [`PlanAction`].
pub fn copy_plan_actions(v: &Vec<PlanAction>) -> (r: Vec<PlanAction>)
    ensures
        plan_action_views(r@) == plan_action_views(v@),
{
    let mut r: Vec<PlanAction> = Vec::new();
    let mut i: usize = 0;
    while i < v.len()
        invariant
            i <= v@.len(),
            plan_action_views(r@) == plan_action_views(v@).take(i as int),
        decreases v@.len() - i,
    {
        let x = v[i].clone();
        proof {
            lemma_plan_action_views_push(r@, x);
            assert(plan_action_views(v@).take(i + 1) =~= plan_action_views(v@).take(i as int).push(x@));
        }
        r.push(x);
        i += 1;
    }
    assert(plan_action_views(v@).take(v@.len() as int) =~= plan_action_views(v@));
    r
}

/// What an operation would do, step by step.
#[derive(Debug)]
pub struct ExecutionPlan {
    pub operation: String,
    pub backend_ids: CapabilityMap,
    pub actions: Vec<PlanAction>,
}

/// The mathematical value of a [`ExecutionPlan`].
#[verifier::ext_equal]
pub struct ExecutionPlanView {
    pub operation: Seq<char>,
    pub backend_ids: Map<Capability, Seq<char>>,
    pub actions: Seq<PlanActionView>,
}

impl View for ExecutionPlan {
    type V = ExecutionPlanView;

    open spec fn view(&self) -> ExecutionPlanView {
        ExecutionPlanView {
            operation: self.operation@,
            backend_ids: self.backend_ids@,
            actions: plan_action_views(self.actions@),
        }
    }
}

impl Clone for ExecutionPlan {
    fn clone(&self) -> (r: Self)
        ensures
            r@ == self@,
    {
        ExecutionPlan {
            operation: self.operation.clone(),
            backend_ids: self.backend_ids.clone(),
            actions: copy_plan_actions(&self.actions),
        }
    }
}

pub open spec fn opt_execution_plan(o: Option<ExecutionPlan>) -> Option<ExecutionPlanView> {
    match o {
        Some(x) => Some(x@),
        None => None,
    }
}

/// A copy of an optional [`ExecutionPlan`].
pub fn copy_opt_execution_plan(o: &Option<ExecutionPlan>) -> (r: Option<ExecutionPlan>)
    ensures
        opt_execution_plan(r) == opt_execution_plan(*o),
{
    match o {
        Some(x) => Some(x.clone()),
        None => None,
    }
}

/// What an upgrade replaces.
#[derive(Debug, Clone, Copy, PartialEq, Eq, Structural)]
pub enum UpgradeTarget {
    All,
    Core,
    Assets,
    Manager,
}

/// A bounded download.
#[derive(Debug)]
pub struct DownloadRequest {
    pub url: String,
    pub max_bytes: u64,
    pub timeout_seconds: u64,
    pub max_redirects: usize,
}

/// The mathematical value of a [`DownloadRequest`].
#[verifier::ext_equal]
pub struct DownloadRequestView {
    pub url: Seq<char>,
    pub max_bytes: u64,
    pub timeout_seconds: u64,
    pub max_redirects: usize,
}

impl View for DownloadRequest {
    type V = DownloadRequestView;

    open spec fn view(&self) -> DownloadRequestView {
        DownloadRequestView {
            url: self.url@,
            max_bytes: self.max_bytes,
            timeout_seconds: self.timeout_seconds,
            max_redirects: self.max_redirects,
        }
    }
}

impl Clone for DownloadRequest {
    fn clone(&self) -> (r: Self)
        ensures
            r@ == self@,
    {
        DownloadRequest {
            url: self.url.clone(),
            max_bytes: self.max_bytes,
            timeout_seconds: self.timeout_seconds,
            max_redirects: self.max_redirects,
        }
    }
}

/// What a download brought.
#[derive(Debug)]
pub struct DownloadedArtifact {
    pub bytes: Vec<u8>,
    pub final_url: String,
    pub content_type: Option<String>,
}

/// The mathematical value of a [`DownloadedArtifact`].
#[verifier::ext_equal]
pub struct DownloadedArtifactView {
    pub bytes: Seq<u8>,
    pub final_url: Seq<char>,
    pub content_type: Option<Seq<char>>,
}

impl View for DownloadedArtifact {
    type V = DownloadedArtifactView;

    open spec fn view(&self) -> DownloadedArtifactView {
        DownloadedArtifactView {
            bytes: self.bytes@,
            final_url: self.final_url@,
            content_type: text::opt_text(self.content_type),
        }
    }
}

impl Clone for DownloadedArtifact {
    fn clone(&self) -> (r: Self)
        ensures
            r@ == self@,
    {
        DownloadedArtifact {
            bytes: text::copy_bytes(&self.bytes),
            final_url: self.final_url.clone(),
            content_type: text::copy_opt(&self.content_type),
        }
    }
}

/// A file of a release.
#[derive(Debug)]
pub struct ReleaseAsset {
    pub name: String,
    pub download_url: String,
    pub size: u64,
}

/// The mathematical value of a [`ReleaseAsset`].
#[verifier::ext_equal]
pub struct ReleaseAssetView {
    pub name: Seq<char>,
    pub download_url: Seq<char>,
    pub size: u64,
}

impl View for ReleaseAsset {
    type V = ReleaseAssetView;

    open spec fn view(&self) -> ReleaseAssetView {
        ReleaseAssetView {
            name: self.name@,
            download_url: self.download_url@,
            size: self.size,
        }
    }
}

impl Clone for ReleaseAsset {
    fn clone(&self) -> (r: Self)
        ensures
            r@ == self@,
    {
        ReleaseAsset {
            name: self.name.clone(),
            download_url: self.download_url.clone(),
            size: self.size,
        }
    }
}

pub open spec fn release_asset_views(v: Seq<ReleaseAsset>) -> Seq<ReleaseAssetView> {
    v.map_values(|x: ReleaseAsset| x@)
}

pub broadcast proof fn lemma_release_asset_views_push(v: Seq<ReleaseAsset>, x: ReleaseAsset)
    ensures
        #[trigger] release_asset_views(v.push(x)) == release_asset_views(v).push(x@),
{
    assert(release_asset_views(v.push(x)) =~= release_asset_views(v).push(x@));
}

/// A copy of a list of [`ReleaseAsset`].
pub fn copy_release_assets(v: &Vec<ReleaseAsset>) -> (r: Vec<ReleaseAsset>)
    ensures
        release_asset_views(r@) == release_asset_views(v@),
{
    let mut r: Vec<ReleaseAsset> = Vec::new();
    let mut i: usize = 0;
    while i < v.len()
        invariant
            i <= v@.len(),
            release_asset_views(r@) == release_asset_views(v@).take(i as int),
        decreases v@.len() - i,
    {
        let x = v[i].clone();
        proof {
            lemma_release_asset_views_push(r@, x);
            assert(release_asset_views(v@).take(i + 1) =~= release_asset_views(v@).take(i as int).push(x@));
        }
        r.push(x);
        i += 1;
    }
    assert(release_asset_views(v@).take(v@.len() as int) =~= release_asset_views(v@));
    r
}

/// A release of a repository.
#[derive(Debug)]
pub struct Release {
    pub tag: String,
    pub prerelease: bool,
    pub assets: Vec<ReleaseAsset>,
}

/// The mathematical value of a [`Release`].
#[verifier::ext_equal]
pub struct ReleaseView {
    pub tag: Seq<char>,
    pub prerelease: bool,
    pub assets: Seq<ReleaseAssetView>,
}

impl View for Release {
    type V = ReleaseView;

    open spec fn view(&self) -> ReleaseView {
        ReleaseView {
            tag: self.tag@,
            prerelease: self.prerelease,
            assets: release_asset_views(self.assets@),
        }
    }
}

impl Clone for Release {
    fn clone(&self) -> (r: Self)
        ensures
            r@ == self@,
    {
        Release {
            tag: self.tag.clone(),
            prerelease: self.prerelease,
            assets: copy_release_assets(&self.assets),
        }
    }
}

/// What a configuration test needs.
#[derive(Debug)]
pub struct XrayTestRequest {
    pub executable: String,
    pub config_dir: String,
    pub asset_dir: String,
}

/// The mathematical value of a [`XrayTestRequest`].
#[verifier::ext_equal]
pub struct XrayTestRequestView {
    pub executable: Seq<char>,
    pub config_dir: Seq<char>,
    pub asset_dir: Seq<char>,
}

impl View for XrayTestRequest {
    type V = XrayTestRequestView;

    open spec fn view(&self) -> XrayTestRequestView {
        XrayTestRequestView {
            executable: self.executable@,
            config_dir: self.config_dir@,
            asset_dir: self.asset_dir@,
        }
    }
}

impl Clone for XrayTestRequest {
    fn clone(&self) -> (r: Self)
        ensures
            r@ == self@,
    {
        XrayTestRequest {
            executable: self.executable.clone(),
            config_dir: self.config_dir.clone(),
            asset_dir: self.asset_dir.clone(),
        }
    }
}

/// The outcome of one probe.
#[derive(Debug)]
pub struct ProbeResult {
    pub latency_ms: Option<u64>,
    pub error: Option<String>,
}

/// The mathematical value of a [`ProbeResult`].
#[verifier::ext_equal]
pub struct ProbeResultView {
    pub latency_ms: Option<u64>,
    pub error: Option<Seq<char>>,
}

impl View for ProbeResult {
    type V = ProbeResultView;

    open spec fn view(&self) -> ProbeResultView {
        ProbeResultView {
            latency_ms: self.latency_ms,
            error: text::opt_text(self.error),
        }
    }
}

impl Clone for ProbeResult {
    fn clone(&self) -> (r: Self)
        ensures
            r@ == self@,
    {
        ProbeResult {
            latency_ms: self.latency_ms,
            error: text::copy_opt(&self.error),
        }
    }
}

/// What is known of the host.
#[derive(Debug)]
pub struct PlatformInfo {
    pub os: String,
    pub distribution: Option<String>,
    pub init_system: Option<String>,
    pub desktop: Option<String>,
}

/// The mathematical value of a [`PlatformInfo`].
#[verifier::ext_equal]
pub struct PlatformInfoView {
    pub os: Seq<char>,
    pub distribution: Option<Seq<char>>,
    pub init_system: Option<Seq<char>>,
    pub desktop: Option<Seq<char>>,
}

impl View for PlatformInfo {
    type V = PlatformInfoView;

    open spec fn view(&self) -> PlatformInfoView {
        PlatformInfoView {
            os: self.os@,
            distribution: text::opt_text(self.distribution),
            init_system: text::opt_text(self.init_system),
            desktop: text::opt_text(self.desktop),
        }
    }
}

impl Clone for PlatformInfo {
    fn clone(&self) -> (r: Self)
        ensures
            r@ == self@,
    {
        PlatformInfo {
            os: self.os.clone(),
            distribution: text::copy_opt(&self.distribution),
            init_system: text::copy_opt(&self.init_system),
            desktop: text::copy_opt(&self.desktop),
        }
    }
}

/// An application to start on the TUN route.
#[derive(Debug)]
pub struct AppLaunchRequest {
    pub command: Vec<String>,
    pub user: String,
    pub override_dns: bool,
    pub clear_proxy_environment: bool,
    pub working_directory: Option<String>,
    pub environment: TextMap,
}

/// The mathematical value of a [`AppLaunchRequest`].
#[verifier::ext_equal]
pub struct AppLaunchRequestView {
    pub command: Seq<Seq<char>>,
    pub user: Seq<char>,
    pub override_dns: bool,
    pub clear_proxy_environment: bool,
    pub working_directory: Option<Seq<char>>,
    pub environment: Map<Seq<char>, Seq<char>>,
}

impl View for AppLaunchRequest {
    type V = AppLaunchRequestView;

    open spec fn view(&self) -> AppLaunchRequestView {
        AppLaunchRequestView {
            command: text::texts(self.command@),
            user: self.user@,
            override_dns: self.override_dns,
            clear_proxy_environment: self.clear_proxy_environment,
            working_directory: text::opt_text(self.working_directory),
            environment: self.environment@,
        }
    }
}

impl Clone for AppLaunchRequest {
    fn clone(&self) -> (r: Self)
        ensures
            r@ == self@,
    {
        AppLaunchRequest {
            command: text::copy_texts(&self.command),
            user: self.user.clone(),
            override_dns: self.override_dns,
            clear_proxy_environment: self.clear_proxy_environment,
            working_directory: text::copy_opt(&self.working_directory),
            environment: self.environment.clone(),
        }
    }
}

/// A check of the TUN route of a profile.
#[derive(Debug)]
pub struct AppRouteTestRequest {
    pub user: String,
    pub override_dns: bool,
    pub url: String,
    pub timeout_seconds: u64,
}

/// The mathematical value of a [`AppRouteTestRequest`].
#[verifier::ext_equal]
pub struct AppRouteTestRequestView {
    pub user: Seq<char>,
    pub override_dns: bool,
    pub url: Seq<char>,
    pub timeout_seconds: u64,
}

impl View for AppRouteTestRequest {
    type V = AppRouteTestRequestView;

    open spec fn view(&self) -> AppRouteTestRequestView {
        AppRouteTestRequestView {
            user: self.user@,
            override_dns: self.override_dns,
            url: self.url@,
            timeout_seconds: self.timeout_seconds,
        }
    }
}

impl Clone for AppRouteTestRequest {
    fn clone(&self) -> (r: Self)
        ensures
            r@ == self@,
    {
        AppRouteTestRequest {
            user: self.user.clone(),
            override_dns: self.override_dns,
            url: self.url.clone(),
            timeout_seconds: self.timeout_seconds,
        }
    }
}

/// The addresses seen outside and inside the TUN route.
#[derive(Debug)]
pub struct AppRouteTestResult {
    pub direct_ip: String,
    pub routed_ip: String,
    pub routes_differ: bool,
}

/// The mathematical value of a [`AppRouteTestResult`].
#[verifier::ext_equal]
pub struct AppRouteTestResultView {
    pub direct_ip: Seq<char>,
    pub routed_ip: Seq<char>,
    pub routes_differ: bool,
}

impl View for AppRouteTestResult {
    type V = AppRouteTestResultView;

    open spec fn view(&self) -> AppRouteTestResultView {
        AppRouteTestResultView {
            direct_ip: self.direct_ip@,
            routed_ip: self.routed_ip@,
            routes_differ: self.routes_differ,
        }
    }
}

impl Clone for AppRouteTestResult {
    fn clone(&self) -> (r: Self)
        ensures
            r@ == self@,
    {
        AppRouteTestResult {
            direct_ip: self.direct_ip.clone(),
            routed_ip: self.routed_ip.clone(),
            routes_differ: self.routes_differ,
        }
    }
}

/// What a finished command left.
#[derive(Debug)]
pub struct CommandOutput {
    pub status: i32,
    pub stdout: String,
    pub stderr: String,
}

/// The mathematical value of a [`CommandOutput`].
#[verifier::ext_equal]
pub struct CommandOutputView {
    pub status: i32,
    pub stdout: Seq<char>,
    pub stderr: Seq<char>,
}

impl View for CommandOutput {
    type V = CommandOutputView;

    open spec fn view(&self) -> CommandOutputView {
        CommandOutputView {
            status: self.status,
            stdout: self.stdout@,
            stderr: self.stderr@,
        }
    }
}

impl Clone for CommandOutput {
    fn clone(&self) -> (r: Self)
        ensures
            r@ == self@,
    {
        CommandOutput {
            status: self.status,
            stdout: self.stdout.clone(),
            stderr: self.stderr.clone(),
        }
    }
}

/// Where the manager keeps its files.
#[derive(Debug)]
pub struct ManagerPaths {
    pub config_dir: String,
    pub state_dir: String,
    pub cache_dir: String,
    pub runtime_dir: String,
    pub install_dir: String,
    pub executable: String,
    /// Whether they are paths of Windows.
    pub windows: bool,
}

/// The mathematical value of a [`ManagerPaths`].
#[verifier::ext_equal]
pub struct ManagerPathsView {
    pub config_dir: Seq<char>,
    pub state_dir: Seq<char>,
    pub cache_dir: Seq<char>,
    pub runtime_dir: Seq<char>,
    pub install_dir: Seq<char>,
    pub executable: Seq<char>,
    pub windows: bool,
}

impl View for ManagerPaths {
    type V = ManagerPathsView;

    open spec fn view(&self) -> ManagerPathsView {
        ManagerPathsView {
            config_dir: self.config_dir@,
            state_dir: self.state_dir@,
            cache_dir: self.cache_dir@,
            runtime_dir: self.runtime_dir@,
            install_dir: self.install_dir@,
            executable: self.executable@,
            windows: self.windows,
        }
    }
}

impl Clone for ManagerPaths {
    fn clone(&self) -> (r: Self)
        ensures
            r@ == self@,
    {
        ManagerPaths {
            config_dir: self.config_dir.clone(),
            state_dir: self.state_dir.clone(),
            cache_dir: self.cache_dir.clone(),
            runtime_dir: self.runtime_dir.clone(),
            install_dir: self.install_dir.clone(),
            executable: self.executable.clone(),
            windows: self.windows,
        }
    }
}

/// The proxy variables, in both casings.
pub open spec fn proxy_variables() -> Set<Seq<char>> {
    set![
        "HTTP_PROXY"@,
        "HTTPS_PROXY"@,
        "ALL_PROXY"@,
        "NO_PROXY"@,
        "http_proxy"@,
        "https_proxy"@,
        "all_proxy"@,
        "no_proxy"@,
    ]
}

/// The proxy variables, in both casings.
pub fn proxy_variable_names() -> (r: Vec<String>)
    ensures
        text::texts(r@).to_set() == proxy_variables(),
        r@.len() == 8,
{
    let r = text::own_all(
        vec![
            "HTTP_PROXY",
            "HTTPS_PROXY",
            "ALL_PROXY",
            "NO_PROXY",
            "http_proxy",
            "https_proxy",
            "all_proxy",
            "no_proxy",
        ],
    );
    proof {
        let t = text::texts(r@);
        assert(t =~= seq![
            "HTTP_PROXY"@,
            "HTTPS_PROXY"@,
            "ALL_PROXY"@,
            "NO_PROXY"@,
            "http_proxy"@,
            "https_proxy"@,
            "all_proxy"@,
            "no_proxy"@,
        ]);
        assert(t.contains(t[0]) && t.contains(t[1]) && t.contains(t[2]) && t.contains(t[3])
            && t.contains(t[4]) && t.contains(t[5]) && t.contains(t[6]) && t.contains(t[7]));
        assert(t.to_set() =~= proxy_variables());
    }
    r
}

/// The environment of a launched application.
pub open spec fn launch_environment(
    inherited: Map<Seq<char>, Seq<char>>,
    clear: bool,
    own: Map<Seq<char>, Seq<char>>,
) -> Map<Seq<char>, Seq<char>> {
    (if clear {
        inherited.remove_keys(proxy_variables())
    } else {
        inherited
    }).union_prefer_right(own)
}

impl AppLaunchRequest {
    /// The inherited environment, without proxy variables where they are to be
    /// cleared, and with the request's own variables on top.
    pub fn sanitized_environment(&self, inherited: TextMap) -> (r: TextMap)
        ensures
            r@ == launch_environment(
                inherited@,
                self.clear_proxy_environment,
                self.environment@,
            ),
    {
        let mut r = inherited;
        if self.clear_proxy_environment {
            r.remove("HTTP_PROXY");
            r.remove("HTTPS_PROXY");
            r.remove("ALL_PROXY");
            r.remove("NO_PROXY");
            r.remove("http_proxy");
            r.remove("https_proxy");
            r.remove("all_proxy");
            r.remove("no_proxy");
            assert(r@ =~= inherited@.remove_keys(proxy_variables()));
        }
        r.extend(&self.environment);
        r
    }
}

/// A cleared environment holds a proxy variable only where the request sets it
/// itself, and keeps every other inherited variable that it does not set.
pub proof fn law_cleared_environment(
    inherited: Map<Seq<char>, Seq<char>>,
    own: Map<Seq<char>, Seq<char>>,
    key: Seq<char>,
)
    ensures
        ({
            let r = launch_environment(inherited, true, own);
            &&& proxy_variables().contains(key) && !own.contains_key(key) ==> !r.contains_key(key)
            &&& own.contains_key(key) ==> r.contains_key(key) && r[key] == own[key]
            &&& !proxy_variables().contains(key) && !own.contains_key(key)
                && inherited.contains_key(key) ==> r.contains_key(key) && r[key] == inherited[key]
        }),
{
}

/// The backend IDs of a saved state whose keys name a capability.
pub open spec fn named_backends(
    m: Map<Seq<char>, Seq<char>>,
    keys: Seq<Seq<char>>,
) -> Map<Capability, Seq<char>>
    decreases keys.len(),
{
    if keys.len() == 0 {
        Map::empty()
    } else {
        let rest = named_backends(m, keys.drop_last());
        match named_capability(keys.last()) {
            Some(c) => rest.insert(c, m[keys.last()]),
            None => rest,
        }
    }
}

/// The backend IDs of named capabilities; a key that names no capability is
/// passed over, and of two names of one capability the later in key order wins.
pub fn backends_of(m: &TextMap) -> (r: CapabilityMap)
    ensures
        r@ == named_backends(m@, text_map::sorted_keys(m@)),
{
    let ghost keys = text_map::sorted_keys(m@);
    let n = m.len();
    let mut r = CapabilityMap::new();
    let mut i: usize = 0;
    assert(keys.take(0).len() == 0);
    while i < n
        invariant
            n == keys.len(),
            keys == text_map::sorted_keys(m@),
            i <= n,
            r@ == named_backends(m@, keys.take(i as int)),
        decreases n - i,
    {
        let (key, value) = m.entry(i);
        proof {
            assert(keys.take(i + 1).drop_last() =~= keys.take(i as int));
            assert(keys.take(i + 1).last() == key@);
        }
        match Capability::from_name(key.as_str()) {
            Some(c) => r.insert(c, value),
            None => {},
        }
        i += 1;
    }
    assert(keys.take(n as int) =~= keys);
    r
}

/// The saved backend preferences.
pub fn state_backend_preferences(state: &ManagerState) -> (r: CapabilityMap)
    ensures
        r@ == named_backends(state.installed_backends@, text_map::sorted_keys(state.installed_backends@)),
{
    backends_of(&state.installed_backends)
}

/// A character that parts a path. On Windows there are two.
pub open spec fn parts_path(windows: bool, c: char) -> bool {
    c == '/' || windows && c == '\\'
}

/// The drive that a path on Windows begins with, where it does.
pub open spec fn drive_of(path: Seq<char>) -> Seq<char> {
    if config::has_drive(path) {
        path.take(2)
    } else {
        Seq::empty()
    }
}

/// `name` below the directory `base`, as the system writes it; a `name` with a
/// root or a drive of its own stands alone, but that on Windows one with a root
/// alone stays on the drive of `base`. One that begins with two separators, as
/// that of a network share does, counts as one with a root.
pub open spec fn path_join(windows: bool, base: Seq<char>, name: Seq<char>) -> Seq<char> {
    if name.len() > 0 && parts_path(windows, name[0]) {
        if windows {
            drive_of(base) + name
        } else {
            name
        }
    } else if windows && config::has_drive(name) {
        name
    } else if base.len() == 0 || parts_path(windows, base.last()) || windows && drive_of(base)
        == base {
        base + name
    } else if windows {
        base + "\\"@ + name
    } else {
        base + "/"@ + name
    }
}

fn is_parting(windows: bool, c: char) -> (r: bool)
    ensures
        r == parts_path(windows, c),
{
    c == '/' || windows && c == '\\'
}

/// Joins a name to a directory.
pub fn join_path(windows: bool, base: &str, name: &str) -> (r: String)
    ensures
        r@ == path_join(windows, base@, name@),
{
    let b = text::chars_of(base);
    let n = text::chars_of(name);
    let drive = windows && config::begins_with_drive(base);
    if n.len() > 0 && is_parting(windows, n[0]) {
        if drive {
            let mut r = text::text_between(&b, 0, 2);
            assert(r@ =~= base@.take(2));
            r.append(name);
            return r;
        }
        assert(Seq::<char>::empty() + name@ =~= name@);
        return text::owned(name);
    }
    if windows && config::begins_with_drive(name) {
        return text::owned(name);
    }
    let mut r = text::owned(base);
    if drive && b.len() == 2 {
        assert(base@.take(2) =~= base@);
    } else {
        assert(windows ==> drive_of(base@) =~= base@ ==> base@.len() == 0 || base@.len() == 2);
        if b.len() > 0 && !is_parting(windows, b[b.len() - 1]) {
            if windows {
                r.append("\\");
            } else {
                r.append("/");
            }
        }
    }
    r.append(name);
    r
}

} // verus!
