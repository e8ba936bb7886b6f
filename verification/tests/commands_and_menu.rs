use xray_manager::cli::{
    parse_backend_overrides, to_operation, AppCommand, Command, UpgradeCommand,
};
use xray_manager::events::ManagerEvent;
use xray_manager::operation::Operation;
use xray_manager::ports::Capability;
use xray_manager::tui::{NodeRow, ProbeState, TuiModel};

#[test]
fn upgrade_without_target_means_all() {
    let operation = to_operation(&Command::Upgrade { target: None });
    assert!(matches!(operation, Ok(Operation::UpgradeAll)));
    let operation = to_operation(&Command::Upgrade { target: Some(UpgradeCommand::All) });
    assert!(matches!(operation, Ok(Operation::UpgradeAll)));
}

#[test]
fn backend_override_is_repeatable() {
    let overrides =
        parse_backend_overrides(&vec!["service=systemd".into(), "firewall=nftables".into()])
            .expect("overrides should parse");
    assert_eq!(overrides.entries.len(), 2);
    assert_eq!(overrides.get(Capability::Service).map(String::as_str), Some("systemd"));
    assert_eq!(overrides.get(Capability::Firewall).map(String::as_str), Some("nftables"));
}

#[test]
fn app_test_dispatches_a_route_test_without_launching_the_profile() {
    let operation =
        to_operation(&Command::App { command: AppCommand::Test { name: "discord".into() } });
    assert!(matches!(
        operation,
        Ok(Operation::AppTest { profile }) if profile == "discord"
    ));
}

#[test]
fn async_results_update_rows_without_moving_cursor() {
    let mut model = TuiModel {
        nodes: vec![NodeRow {
            id: "abc".into(),
            subscription: "main".into(),
            protocol: "VLESS".into(),
            name: "Frankfurt".into(),
            unsupported: false,
            state: ProbeState::Pending,
        }],
        selected: 0,
        filter: String::new(),
    };
    model.apply(&ManagerEvent::NodeProbeSucceeded { node_id: "abc".into(), latency_ms: 84 });
    assert_eq!(model.nodes[0].state, ProbeState::Succeeded(84));
    assert_eq!(model.selected, 0);
}

#[test]
fn manual_sort_preserves_selected_node() {
    let row = |id: &str, latency| NodeRow {
        id: id.into(),
        subscription: "main".into(),
        protocol: "VLESS".into(),
        name: id.into(),
        unsupported: false,
        state: ProbeState::Succeeded(latency),
    };
    let mut model = TuiModel {
        nodes: vec![row("slow", 500), row("fast", 20)],
        selected: 0,
        filter: String::new(),
    };
    model.sort_by_latency();
    assert_eq!(model.nodes[model.selected].id, "slow");
    assert_eq!(model.nodes[0].id, "fast");
}

#[test]
fn filtering_does_not_reorder_rows() {
    let mut model = TuiModel {
        nodes: vec![
            NodeRow {
                id: "one".into(),
                subscription: "main".into(),
                protocol: "VLESS".into(),
                name: "Berlin".into(),
                unsupported: false,
                state: ProbeState::Pending,
            },
            NodeRow {
                id: "two".into(),
                subscription: "main".into(),
                protocol: "Trojan".into(),
                name: "Tokyo".into(),
                unsupported: false,
                state: ProbeState::Pending,
            },
        ],
        selected: 0,
        filter: "tok".into(),
    };
    assert_eq!(model.visible_indices(), vec![1]);
    model.move_selection(1);
    assert_eq!(model.selected, 1);
    assert_eq!(model.nodes[0].id, "one");
}
