use memocap::cli::format_memories;
use memocap::scope::{DomainId, RepositoryId};
use memocap::store::visible::{source_inventory, visible_sources};
use memocap::tui::{
    check_inventory_count, handle_key, inventory_limit, remote_inventory_step, InventoryAction,
    InventoryError, InventoryEvent, InventoryPage, Key, UiCommand, UiState, UiView,
    INVENTORY_PAGE_STEP, WELCOME_MESSAGE,
};
use memocap::store::visible::{InventoryMemory, Visibility};
use memocap::store::Memory;

fn entries(n: i64) -> Vec<InventoryMemory> {
    (0..n)
        .map(|i| InventoryMemory {
            memory: Memory {
                id: i,
                content: format!("inventory record {i}"),
                kind: "context".to_owned(),
                tags: String::new(),
                created_at: String::new(),
                updated_at: String::new(),
                scope: "global".to_owned(),
                topic_key: String::new(),
                placement: "universal".to_owned(),
            },
            source_order: 0,
            visibility: Visibility::Visible,
        })
        .collect()
}

fn shown(state: &UiState) -> Option<i64> {
    match &state.view {
        UiView::Inventory(page) => page.current().first().map(|e| e.memory.id),
        UiView::Message(_) => None,
    }
}

#[test]
fn paging_stops_at_both_ends() {
    let mut page = InventoryPage::new(entries(21));
    assert_eq!(page.position(), 1);
    for _ in 0..10 {
        page.forward(INVENTORY_PAGE_STEP);
    }
    assert_eq!(page.position(), 21);
    assert_eq!(page.current()[0].memory.id, 20);
    page.backward(5);
    assert_eq!(page.position(), 16);
    page.backward(100);
    assert_eq!(page.position(), 1);
    let empty = InventoryPage::new(Vec::new());
    assert_eq!(empty.position(), 0);
    assert!(empty.current().is_empty());
}

#[test]
fn keys_move_within_the_inventory() {
    let mut state = UiState::new();
    state.view = UiView::Inventory(InventoryPage::new(entries(5)));
    assert_eq!(handle_key(&mut state, Key::PageDown), UiCommand::Continue);
    assert_eq!(shown(&state), Some(3));
    assert_eq!(handle_key(&mut state, Key::Char('j')), UiCommand::Continue);
    assert_eq!(shown(&state), Some(4));
    assert_eq!(handle_key(&mut state, Key::Down), UiCommand::Continue);
    assert_eq!(shown(&state), Some(4));
    assert_eq!(handle_key(&mut state, Key::Up), UiCommand::Continue);
    assert_eq!(shown(&state), Some(3));
    assert_eq!(handle_key(&mut state, Key::PageUp), UiCommand::Continue);
    assert_eq!(shown(&state), Some(0));
    assert_eq!(handle_key(&mut state, Key::Left), UiCommand::Continue);
    assert!(matches!(&state.view, UiView::Message(m) if m == WELCOME_MESSAGE));
}

#[test]
fn the_menu_runs_its_three_entries() {
    let mut state = UiState::new();
    assert_eq!(handle_key(&mut state, Key::Enter), UiCommand::ShowStatus);
    assert_eq!(handle_key(&mut state, Key::Down), UiCommand::Continue);
    assert_eq!(handle_key(&mut state, Key::Enter), UiCommand::ShowInventory);
    assert_eq!(handle_key(&mut state, Key::Down), UiCommand::Continue);
    assert_eq!(handle_key(&mut state, Key::Down), UiCommand::Continue);
    assert_eq!(state.selected, 2);
    assert_eq!(handle_key(&mut state, Key::Up), UiCommand::Continue);
    assert_eq!(state.selected, 1);
    assert_eq!(handle_key(&mut state, Key::Char('q')), UiCommand::Exit);
    assert_eq!(handle_key(&mut state, Key::Esc), UiCommand::Exit);
    let message = UiState::message(2, "status");
    assert!(matches!(&message.view, UiView::Message(m) if m == "status"));
}

#[test]
fn remote_inventory_counts_must_match_the_status() {
    assert_eq!(inventory_limit(3), Ok(3));
    assert_eq!(inventory_limit(-1), Err(InventoryError::CountOutOfRange));
    assert!(check_inventory_count(2, entries(2)).is_ok());
    assert_eq!(check_inventory_count(2, entries(1)).err(), Some(InventoryError::CountMismatch));
    assert!(matches!(remote_inventory_step(InventoryEvent::StatusRead { addressable_total: -5 }), InventoryAction::Finish(Err(InventoryError::CountOutOfRange))));
    match remote_inventory_step(InventoryEvent::ListRead { limit: 2, inventory: entries(2) }) {
        InventoryAction::Finish(Ok(list)) => assert_eq!(list.len(), 2),
        other => panic!("expected the inventory, got {other:?}"),
    }
    assert_eq!(
        InventoryError::CountOutOfRange.message(),
        "远程 addressable inventory count 超出本地范围"
    );
}

fn memory(id: i64, content: &str, topic: &str, placement: &str) -> Memory {
    Memory {
        id,
        content: content.to_owned(),
        kind: "context".to_owned(),
        tags: String::new(),
        created_at: format!("2024-01-01T00:00:{id:02}+00:00"),
        updated_at: String::new(),
        scope: "global".to_owned(),
        topic_key: topic.to_owned(),
        placement: placement.to_owned(),
    }
}

#[test]
fn inventory_page_down_reaches_universal_shadow_at_80x24() {
    let repository = RepositoryId::parse("repository:0123456789abcdef0123456789abcdef0123456789abcdef0123456789abcdef")
        .expect("valid");
    let beta = DomainId::parse("team/beta").expect("domain should parse");
    let alpha = DomainId::parse("team/alpha").expect("domain should parse");
    let sources = visible_sources(&repository, &vec![beta, alpha]);
    let repo = repository.as_str();
    // Each source newest first, as the store lists it.
    let memories = vec![
        vec![memory(3, "repository third", "", repo), memory(2, "repository second", "", repo), memory(1, "repository release", "release", repo)],
        vec![memory(6, "beta third", "", "domain:team/beta"), memory(5, "beta second", "", "domain:team/beta"), memory(4, "beta release", "release", "domain:team/beta")],
        vec![memory(9, "alpha third", "", "domain:team/alpha"), memory(8, "alpha second", "", "domain:team/alpha"), memory(7, "alpha release", "release", "domain:team/alpha")],
        vec![
            memory(13, "universal fourth", "", "universal"),
            memory(12, "universal third", "", "universal"),
            memory(11, "universal second", "", "universal"),
            memory(10, "universal release", "release", "universal"),
        ],
    ];
    let topics = vec![vec!["release".to_owned()]; 4];
    let inventory = source_inventory(&sources, &topics, &memories);
    let mut state = UiState::new();
    state.selected = 1;
    state.view = UiView::Inventory(InventoryPage::new(inventory));
    for _ in 0..4 {
        assert_eq!(handle_key(&mut state, Key::PageDown), UiCommand::Continue);
    }
    let UiView::Inventory(page) = &state.view else { panic!("inventory should stay open") };
    let screen = format_memories(&page.current());
    assert!(screen.contains("universal release"));
    assert!(screen.contains("source_order: 3"));
    assert!(screen.contains("visibility: shadowed"));
    assert!(screen.contains("shadowed_by: source 0"));
}

#[test]
fn inventory_paging_reaches_records_past_twenty() {
    // Newest first, as the store lists one placement.
    let memories: Vec<InventoryMemory> = entries(21).into_iter().rev().collect();
    assert_eq!(memories.len(), 21);
    let mut state = UiState::new();
    state.selected = 1;
    state.view = UiView::Inventory(InventoryPage::new(memories));
    let screen = |state: &UiState| match &state.view {
        UiView::Inventory(page) => format_memories(&page.current()),
        UiView::Message(message) => message.clone(),
    };
    for _ in 0..7 {
        assert_eq!(handle_key(&mut state, Key::PageDown), UiCommand::Continue);
    }
    assert!(screen(&state).contains("inventory record 0"));
    assert_eq!(handle_key(&mut state, Key::PageUp), UiCommand::Continue);
    assert!(screen(&state).contains("inventory record 3"));
    assert_eq!(handle_key(&mut state, Key::Down), UiCommand::Continue);
    assert!(screen(&state).contains("inventory record 2"));
    assert_eq!(handle_key(&mut state, Key::Up), UiCommand::Continue);
    assert!(screen(&state).contains("inventory record 3"));
}
