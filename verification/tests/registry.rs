use xray_manager::error::ManagerError;
use xray_manager::ports::{
    BackendDescriptor, BackendPreferences, BackendProbe, Capability, CapabilityMap,
    SelectionSource,
};
use xray_manager::registry::BackendRegistry;

fn descriptor(id: &str) -> BackendDescriptor {
    BackendDescriptor {
        id: id.into(),
        contract_version: 1,
        capabilities: vec![Capability::Service],
        platform: "test".into(),
        requirements: Vec::new(),
    }
}

fn probe(available: bool) -> BackendProbe {
    BackendProbe {
        available,
        reason: if available { None } else { Some("missing binary".into()) },
    }
}

fn register(registry: &mut BackendRegistry, id: &str, available: bool) {
    registry.register(descriptor(id), probe(available));
}

fn service(id: &str) -> CapabilityMap {
    wish(Capability::Service, id)
}

fn wish(capability: Capability, id: &str) -> CapabilityMap {
    let mut map = CapabilityMap::new();
    map.insert(capability, id.into());
    map
}

fn preferences(
    cli: Option<CapabilityMap>,
    config: Option<CapabilityMap>,
    installed: Option<CapabilityMap>,
) -> BackendPreferences {
    BackendPreferences {
        cli: cli.unwrap_or_else(CapabilityMap::new),
        config: config.unwrap_or_else(CapabilityMap::new),
        installed: installed.unwrap_or_else(CapabilityMap::new),
    }
}

#[test]
fn cli_precedes_config_and_state() {
    let mut registry = BackendRegistry::default();
    register(&mut registry, "a", true);
    register(&mut registry, "b", true);
    let preferences =
        preferences(Some(service("b")), Some(service("a")), Some(service("a")));
    let (selected, _) = registry
        .resolve(&preferences, &vec![Capability::Service], "test")
        .expect("registry should resolve");
    assert_eq!(selected[0].backend_id, "b");
    assert_eq!(selected[0].source, SelectionSource::Cli);
}

#[test]
fn unavailable_explicit_backend_is_an_error() {
    let mut registry = BackendRegistry::default();
    register(&mut registry, "a", false);
    let result = registry.resolve(
        &preferences(Some(service("a")), None, None),
        &vec![Capability::Service],
        "test",
    );
    assert!(matches!(result, Err(ManagerError::PlatformUnsupported { .. })));
}

#[test]
fn unavailable_saved_backend_is_retained_for_recovery_operations() {
    let mut registry = BackendRegistry::default();
    register(&mut registry, "saved", false);
    let (selected, statuses) = registry
        .resolve(
            &preferences(None, None, Some(service("saved"))),
            &vec![Capability::Service],
            "test",
        )
        .expect("saved backend must remain addressable");
    assert_eq!(selected[0].backend_id, "saved");
    assert!(!statuses[0].supported);
    assert_eq!(statuses[0].backend_id.as_deref(), Some("saved"));
}

#[test]
fn config_precedes_saved_selection_and_saved_precedes_auto() {
    let mut registry = BackendRegistry::default();
    register(&mut registry, "auto-first", true);
    register(&mut registry, "configured", true);
    register(&mut registry, "saved", true);
    let required = vec![Capability::Service];
    let configured = registry
        .resolve(
            &preferences(None, Some(service("configured")), Some(service("saved"))),
            &required,
            "test",
        )
        .expect("configured selection");
    assert_eq!(configured.0[0].backend_id, "configured");
    assert_eq!(configured.0[0].source, SelectionSource::Config);

    let saved = registry
        .resolve(&preferences(None, None, Some(service("saved"))), &required, "test")
        .expect("saved selection");
    assert_eq!(saved.0[0].backend_id, "saved");
    assert_eq!(saved.0[0].source, SelectionSource::InstalledState);
}

#[test]
fn missing_capability_is_reported_without_false_success() {
    let registry = BackendRegistry::default();
    let (selected, statuses) = registry
        .resolve(&preferences(None, None, None), &vec![Capability::Tun], "test")
        .expect("missing capability is a status");
    assert!(selected.is_empty());
    assert_eq!(statuses.len(), 1);
    assert!(!statuses[0].supported);
    assert!(statuses[0].backend_id.is_none());
}

#[test]
fn unavailable_automatic_backend_remains_instantiable_for_bootstrap() {
    let mut registry = BackendRegistry::default();
    register(&mut registry, "bootstrap", false);
    let (selected, statuses) = registry
        .resolve(&preferences(None, None, None), &vec![Capability::Service], "test")
        .expect("compiled backend remains selectable for package bootstrap");
    assert_eq!(selected[0].backend_id, "bootstrap");
    assert_eq!(selected[0].source, SelectionSource::Automatic);
    assert!(!statuses[0].supported);
    assert_eq!(statuses[0].backend_id.as_deref(), Some("bootstrap"));
    assert!(registry.instantiate(&selected[0], "test").is_ok());
}

#[test]
fn incompatible_explicit_backend_is_rejected() {
    let mut registry = BackendRegistry::default();
    register(&mut registry, "service-only", true);
    let result = registry.resolve(
        &preferences(Some(wish(Capability::Tun, "service-only")), None, None),
        &vec![Capability::Tun],
        "test",
    );
    assert!(matches!(result, Err(ManagerError::PlatformUnsupported { .. })));
}

#[test]
fn incompatible_contract_is_unavailable_before_instantiation() {
    let mut registry = BackendRegistry::default();
    let mut future = descriptor("future");
    future.contract_version = 2;
    registry.register(future, probe(true));
    let result = registry.resolve(
        &preferences(Some(service("future")), None, None),
        &vec![Capability::Service],
        "test",
    );
    assert!(matches!(result, Err(ManagerError::PlatformUnsupported { .. })));
}

#[test]
fn repeated_backend_is_listed_and_refused_on_resolution() {
    let mut registry = BackendRegistry::default();
    register(&mut registry, "twice", true);
    register(&mut registry, "other", true);
    register(&mut registry, "twice", false);
    let listed: Vec<String> = registry.descriptors().into_iter().map(|d| d.id).collect();
    assert_eq!(listed, ["twice", "other", "twice"]);
    match registry.resolve(&preferences(None, None, None), &vec![], "test") {
        Err(ManagerError::Other(message)) => {
            assert_eq!(message, "duplicate backend ID 'twice'");
        }
        _ => panic!("a repeated ID must be refused"),
    }
}
