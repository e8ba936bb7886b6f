//! The backend that works everywhere: files below the working directory.

use crate::error::{ManagerError, ManagerErrorView};
use crate::ports::{
    BackendDescriptor, BackendDescriptorView, BackendProbe, BackendProbeView, Capability,
    ManagerPaths, ManagerPathsView,
};
use crate::registry::{BackendRegistry, CandidateView};
use crate::ports;
use crate::registry;
use crate::text;
use vstd::prelude::*;

verus! {

/// The layout below a root directory.
pub open spec fn layout_below(windows: bool, root: Seq<char>) -> ManagerPathsView {
    ManagerPathsView {
        config_dir: ports::path_join(windows, root, "config"@),
        state_dir: ports::path_join(windows, root, "state"@),
        cache_dir: ports::path_join(windows, root, "cache"@),
        runtime_dir: ports::path_join(windows, root, "run"@),
        install_dir: ports::path_join(windows, root, "opt"@),
        executable: ports::path_join(windows, root, "bin/xrayctl"@),
        windows,
    }
}

/// The directories below the working directory.
#[derive(Debug, Clone, Copy)]
pub struct PortableLocalLayout;

impl PortableLocalLayout {
    /// The layout below the working directory, with the paths of the system.
    pub fn paths(&self, cwd: &str, windows: bool) -> (r: ManagerPaths)
        ensures
            r@ == layout_below(windows, ports::path_join(windows, cwd@, ".xray-manager"@)),
    {
        let root = ports::join_path(windows, cwd, ".xray-manager");
        ManagerPaths {
            config_dir: ports::join_path(windows, root.as_str(), "config"),
            state_dir: ports::join_path(windows, root.as_str(), "state"),
            cache_dir: ports::join_path(windows, root.as_str(), "cache"),
            runtime_dir: ports::join_path(windows, root.as_str(), "run"),
            install_dir: ports::join_path(windows, root.as_str(), "opt"),
            executable: ports::join_path(windows, root.as_str(), "bin/xrayctl"),
            windows,
        }
    }
}

/// The portable backend provides only the layout.
pub open spec fn portable_descriptor(os: Seq<char>) -> BackendDescriptorView {
    BackendDescriptorView {
        id: "portable-local"@,
        contract_version: 1,
        capabilities: seq![Capability::Layout],
        platform: os,
        requirements: Seq::empty(),
    }
}

/// The backend of every host: it provides only the layout.
#[derive(Debug, Clone, Copy)]
pub struct PortableBackendFactory;

impl PortableBackendFactory {
    /// What the portable backend provides.
    pub fn descriptor(&self, os: &str) -> (r: BackendDescriptor)
        ensures
            r@ == portable_descriptor(os@),
    {
        let requirements: Vec<String> = Vec::new();
        assert(text::texts(requirements@) =~= Seq::<Seq<char>>::empty());
        let capabilities: Vec<Capability> = vec![Capability::Layout];
        assert(capabilities@ =~= seq![Capability::Layout]);
        BackendDescriptor {
            id: text::owned("portable-local"),
            contract_version: 1,
            capabilities,
            platform: text::owned(os),
            requirements,
        }
    }

    /// Checks that the portable backend provides a capability.
    pub fn check_adapter(&self, capability: Capability, os: &str) -> (r: Result<(), ManagerError>)
        ensures
            match r {
                Ok(_) => capability == Capability::Layout,
                Err(e) => capability != Capability::Layout && e@
                    == (ManagerErrorView::PlatformUnsupported {
                    capability,
                    platform: os@,
                    backend: Some("portable-local"@),
                    reason: "portable-local provides only filesystem layout"@,
                    recommendation: Some("select a backend that provides this capability"@),
                }),
            },
    {
        if capability == Capability::Layout {
            Ok(())
        } else {
            Err(
                ManagerError::PlatformUnsupported {
                    capability,
                    platform: text::owned(os),
                    backend: Some(text::owned("portable-local")),
                    reason: text::owned("portable-local provides only filesystem layout"),
                    recommendation: Some(text::owned("select a backend that provides this capability")),
                },
            )
        }
    }
}

/// Adds the portable backend, which is always available.
pub fn register_portable(registry: &mut BackendRegistry, os: &str)
    ensures
        final(registry)@ == old(registry)@.push(
            CandidateView {
                descriptor: portable_descriptor(os@),
                probe: BackendProbeView { available: true, reason: None },
            },
        ),
{
    registry.register(PortableBackendFactory.descriptor(os), BackendProbe { available: true, reason: None })
}

} // verus!
