use memocap::hosts::{official_hosts, OPENCODE_INSTALL};
use memocap::install::global_agents_path;
use memocap::paths::Paths;
use memocap::server::Route;
use memocap::store::lower_minor_plan;
use memocap::store::visible::{PlacementCount, VisibleStackStatus};
use memocap::tui::{
    format_tui_status, handle_key, remote_inventory_step, InventoryAction, InventoryEvent,
    InventoryPage, Key, UiCommand, UiState, UiView, ACTIONS,
};
use memocap::{agents_block, AGENTS_BEGIN, AGENTS_END};

#[test]
fn opencode_is_the_only_official_host() {
    assert_eq!(official_hosts(), [OPENCODE_INSTALL]);
    assert_eq!(OPENCODE_INSTALL, "opencode plugin @lyy-gh/memocap");
}

#[test]
fn global_config_is_under_codex_home() {
    let paths = Paths {
        home: "/home/test".to_owned(),
        codex_home: "/home/test/.codex".to_owned(),
        data_dir: "/home/test/.memocap".to_owned(),
        database: "/home/test/.memocap/memocap.db".to_owned(),
        installed_binary: "/home/test/.codex/bin/memocap".to_owned(),
    };
    assert_eq!(global_agents_path(&paths), "/home/test/.codex/AGENTS.md".to_owned());
}

#[test]
fn agents_block_encodes_recall_first_and_value_store() {
    let block = agents_block("memocap");
    assert!(block.contains(AGENTS_BEGIN));
    assert!(block.contains(AGENTS_END));
    assert!(block.contains("Recall-first"));
    assert!(block.contains("言必检"));
    assert!(block.contains("recall on every utterance"));
    assert!(block.contains("Value-store"));
    assert!(block.contains("值必存"));
    assert!(block.contains("decision, preference, task, agreement, or context"));
    assert!(block.contains("similar-check, then store, then tell the user"));
    assert!(block.contains("When stuck, search memory first"));
    assert!(block.contains("untrusted local reference"));
    assert!(!block.to_lowercase().contains("explicitly asks"));
    assert!(!block.contains("Do not automatically store"));
}

#[test]
fn remote_inventory_rejects_partial_list_response_after_reading_status() {
    // The remote reports one addressable memory, then lists none.
    let mut requests: Vec<String> = Vec::new();
    let first = remote_inventory_step(InventoryEvent::Start);
    requests.push(first.route().expect("a status request").path().to_owned());
    let second = remote_inventory_step(InventoryEvent::StatusRead { addressable_total: 1 });
    let limit = match second {
        InventoryAction::FetchList { limit } => limit,
        other => panic!("expected a list request, got {other:?}"),
    };
    requests.push(second.route().expect("a list request").path().to_owned());
    let last = remote_inventory_step(InventoryEvent::ListRead { limit, inventory: Vec::new() });
    let error = match last {
        InventoryAction::Finish(Err(error)) => error,
        other => panic!("partial remote list response should fail, got {other:?}"),
    };

    assert_eq!(requests, vec!["/v1/status".to_owned(), "/v1/memories/list".to_owned()]);
    assert!(error.message().contains("remote inventory response count does not match status"));
    assert_eq!(Route::Status.path(), "/v1/status");
}

#[test]
fn menu_exposes_only_status_visible_list_and_exit() {
    assert_eq!(ACTIONS, ["Status", "List visible memories", "Exit"]);
}

#[test]
fn compact_status_labels_sources_and_totals() {
    let status = VisibleStackStatus {
        schema_version: "1.0".to_owned(),
        placements: vec![
            PlacementCount {
                placement: "repository:fixture".to_owned(),
                source_order: 0,
                addressable_count: 3,
                effective_count: 3,
            },
            PlacementCount {
                placement: "domain:team/beta".to_owned(),
                source_order: 1,
                addressable_count: 2,
                effective_count: 1,
            },
            PlacementCount {
                placement: "universal".to_owned(),
                source_order: 2,
                addressable_count: 4,
                effective_count: 2,
            },
        ],
        addressable_total: 9,
        effective_total: 6,
    };

    assert_eq!(
        format_tui_status(&status),
        "schema: 1.0\n0 repository 3/3\n1 domain:team/beta 2/1\n2 universal 4/2\ntotal addressable/effective: 9/6"
    );
}

#[test]
fn lower_minor_dispatcher_runs_registered_migrations_in_order() {
    let applied = lower_minor_plan(0, 2, 2).expect("both migrations are registered");
    assert_eq!(applied, [0, 1]);
    assert!(lower_minor_plan(0, 1, 0).is_err());
}

#[test]
fn inventory_escape_returns_to_menu_and_exit_remains_available() {
    let mut state = UiState::new();
    state.selected = 1;
    state.view = UiView::Inventory(InventoryPage::new(Vec::new()));

    assert_eq!(handle_key(&mut state, Key::Char('x')), UiCommand::Continue);
    assert_eq!(handle_key(&mut state, Key::Esc), UiCommand::Continue);
    assert_eq!(handle_key(&mut state, Key::Down), UiCommand::Continue);
    assert_eq!(handle_key(&mut state, Key::Enter), UiCommand::Exit);
}
