use memocap::cli::{
    confirm_transfer, format_forget, format_local_status, format_remote_status, format_saved,
    ConfirmError,
};
use memocap::cli::{
    exact_placement, format_copy_move, format_domain_change, format_domains, format_memories,
    format_operation_status, format_scope_show, format_visible_status, local_database,
    needs_repository, placement_selector, read_sources, remote_placement,
    remote_selected_placement, DomainChange, PlacementSelector, SelectionError,
};
use memocap::config::{remote_target, require_serve_token, resolve_target, ConfigError, Target};
use memocap::remote::OperationStatus;
use memocap::scope::{resolved_repository, DomainId, OperationId, PlacementId, RepositoryId, ResolutionSource};
use memocap::store::transfers::{CopyMoveAction, CopyMoveResult};
use memocap::store::visible::{InventoryMemory, PlacementCount, ShadowCause, Visibility, VisibleStackStatus};
use memocap::store::Memory;

const REPO: &str = "repository:0123456789abcdef0123456789abcdef0123456789abcdef0123456789abcdef";

fn repo() -> RepositoryId {
    RepositoryId::parse(REPO).expect("valid")
}

fn domain(text: &str) -> DomainId {
    DomainId::parse(text).expect("valid")
}

fn entry(id: i64, tags: &str, topic: &str, source_order: usize, visibility: Visibility) -> InventoryMemory {
    InventoryMemory {
        memory: Memory {
            id,
            content: "ship on friday".to_owned(),
            kind: "decision".to_owned(),
            tags: tags.to_owned(),
            created_at: "2024-05-01T10:00:00+00:00".to_owned(),
            updated_at: "2024-05-01T10:00:00+00:00".to_owned(),
            scope: "global".to_owned(),
            topic_key: topic.to_owned(),
            placement: "universal".to_owned(),
        },
        source_order,
        visibility,
    }
}

#[test]
fn memories_are_listed_with_placement_and_shadow_annotations() {
    assert_eq!(format_memories(&Vec::new()), "No local memories found.\n");
    let shadowed = Visibility::Shadowed(ShadowCause {
        source_order: 0,
        placement: REPO.to_owned(),
        topic_key: "release".to_owned(),
    });
    let text = format_memories(&vec![entry(4, "a,b", "release", 3, shadowed), entry(5, "", "", 3, Visibility::Visible)]);
    let expected = format!(
        "#4 [decision] ship on friday\n  tags: a,b\n  placement: universal\n  topic: release\n  source_order: 3\n  visibility: shadowed\n  shadowed_by: source 0 {REPO} topic release\n  time: 2024-05-01T10:00:00+00:00\n\
#5 [decision] ship on friday\n  placement: universal\n  source_order: 3\n  visibility: visible\n  shadowed_by: none\n  time: 2024-05-01T10:00:00+00:00\n"
    );
    assert_eq!(text, expected);
}

#[test]
fn visible_status_lists_each_source_and_the_totals() {
    let status = VisibleStackStatus {
        schema_version: "1.0".to_owned(),
        placements: vec![
            PlacementCount { placement: REPO.to_owned(), source_order: 0, addressable_count: 2, effective_count: 2 },
            PlacementCount { placement: "universal".to_owned(), source_order: 1, addressable_count: 3, effective_count: 1 },
        ],
        addressable_total: 5,
        effective_total: 3,
    };
    assert_eq!(
        format_visible_status(&status),
        format!(
            "schema_version: 1.0\nsource 0 placement: {REPO} addressable_count: 2 effective_count: 2\nsource 1 placement: universal addressable_count: 3 effective_count: 1\naddressable_total: 5\neffective_total: 3\n"
        )
    );
}

#[test]
fn domains_and_scopes_are_listed_in_order() {
    assert_eq!(format_domains(&Vec::new()), "No domains found.\n");
    assert_eq!(format_domains(&vec![domain("team/beta"), domain("eng/rust")]), "team/beta\neng/rust\n");
    let scope = resolved_repository(repo(), ResolutionSource::Remote);
    assert_eq!(
        format_scope_show(&scope, &vec![domain("team/beta")]),
        format!("active_scope: {REPO}\nrepository_id: {REPO}\nsource: remote\nattached_domains:\n- team/beta\n")
    );
}

#[test]
fn domain_changes_report_what_happened() {
    let d = domain("team/beta");
    assert_eq!(format_domain_change(DomainChange::Create, true, &d), "created domain team/beta\n");
    assert_eq!(format_domain_change(DomainChange::Create, false, &d), "domain already exists team/beta\n");
    assert_eq!(format_domain_change(DomainChange::Attach, false, &d), "domain already attached team/beta\n");
    assert_eq!(format_domain_change(DomainChange::Detach, true, &d), "detached domain team/beta\n");
    assert_eq!(format_domain_change(DomainChange::Delete, false, &d), "domain not found team/beta\n");
}

fn result() -> CopyMoveResult {
    CopyMoveResult {
        action: CopyMoveAction::Move,
        memory_id: 7,
        from: PlacementId::Universal,
        to: PlacementId::Domain(domain("team/beta")),
        operation_id: OperationId::parse("01234567-89ab-cdef-0123-456789abcdef").expect("valid"),
    }
}

#[test]
fn transfers_and_their_status_are_reported() {
    let text = "moved #7 from universal to domain:team/beta\noperation_id: 01234567-89ab-cdef-0123-456789abcdef\n";
    assert_eq!(format_copy_move(&result()), text);
    assert_eq!(format_operation_status(&OperationStatus::Committed(result())), text);
    assert_eq!(format_operation_status(&OperationStatus::NotFound), "not_found\n");
    assert_eq!(format_operation_status(&OperationStatus::Unknown), "outcome unknown\n");
}

#[test]
fn selectors_are_exclusive() {
    assert!(matches!(placement_selector(Some(domain("team/beta")), true), Err(SelectionError::DomainConflictsWithUniversal)));
    assert!(matches!(placement_selector(Some(domain("team/beta")), false), Ok(Some(PlacementSelector::Domain(_)))));
    assert!(matches!(placement_selector(None, true), Ok(Some(PlacementSelector::Universal))));
    assert!(matches!(placement_selector(None, false), Ok(None)));
    assert!(!needs_repository(Some(&PlacementSelector::Universal)));
    assert!(needs_repository(None));
    assert!(needs_repository(Some(&PlacementSelector::Domain(domain("x")))));
    assert_eq!(SelectionError::DomainConflictsWithUniversal.message(), "--domain conflicts with --universal");
}

#[test]
fn exact_placements_need_a_registered_attached_domain() {
    let registered = vec![domain("team/beta"), domain("eng/rust")];
    let attached = vec![domain("team/beta")];
    let beta = PlacementSelector::Domain(domain("team/beta"));
    let rust = PlacementSelector::Domain(domain("eng/rust"));
    let ops = PlacementSelector::Domain(domain("ops/none"));
    assert!(matches!(exact_placement(Some(&beta), Some(&repo()), &registered, &attached), Ok(PlacementId::Domain(_))));
    match exact_placement(Some(&rust), Some(&repo()), &registered, &attached) {
        Err(error) => assert_eq!(error.message(), "domain eng/rust is not attached to this repository"),
        Ok(p) => panic!("unexpected {p:?}"),
    }
    match exact_placement(Some(&ops), Some(&repo()), &registered, &attached) {
        Err(error) => assert_eq!(error.message(), "domain ops/none does not exist"),
        Ok(p) => panic!("unexpected {p:?}"),
    }
    match exact_placement(Some(&beta), None, &registered, &attached) {
        Err(error) => {
            assert_eq!(error, SelectionError::DomainNeedsRepository);
            assert_eq!(error.message(), "domain placement requires a current repository");
        }
        Ok(p) => panic!("unexpected {p:?}"),
    }
    assert!(matches!(exact_placement(Some(&PlacementSelector::Universal), None, &registered, &attached), Ok(PlacementId::Universal)));
    assert!(matches!(exact_placement(None, Some(&repo()), &registered, &attached), Ok(PlacementId::Repository(_))));
    assert!(matches!(exact_placement(None, None, &registered, &attached), Err(SelectionError::RepositoryRequired)));
}

#[test]
fn reads_use_the_whole_stack_unless_a_placement_is_selected() {
    let registered = vec![domain("team/beta")];
    let attached = vec![domain("team/beta")];
    let stack = read_sources(None, Some(&repo()), &registered, &attached).ok().expect("stack");
    let texts: Vec<String> = stack.iter().map(|s| s.placement().to_string()).collect();
    assert_eq!(texts, vec![REPO.to_owned(), "domain:team/beta".to_owned(), "universal".to_owned()]);
    let one = read_sources(Some(&PlacementSelector::Universal), None, &registered, &attached).ok().expect("one");
    assert_eq!(one.len(), 1);
    assert!(read_sources(None, None, &registered, &attached).is_err());
}

#[test]
fn remote_commands_name_their_placement() {
    assert_eq!(remote_placement(None, &repo()).to_string(), REPO);
    assert_eq!(remote_placement(Some(PlacementSelector::Universal), &repo()).to_string(), "universal");
    assert_eq!(
        remote_placement(Some(PlacementSelector::Domain(domain("team/beta"))), &repo()).to_string(),
        "domain:team/beta"
    );
    assert!(remote_selected_placement(None, &repo()).is_none());
    assert!(matches!(remote_selected_placement(Some(PlacementSelector::Universal), &repo()), Some(PlacementId::Universal)));
}

#[test]
fn remote_mode_needs_a_token_and_never_falls_back() {
    let db = "/home/test/.memocap/memocap.db".to_owned();
    assert!(matches!(resolve_target(None, None, db.clone()), Ok(Target::Local { database }) if database == db));
    assert!(matches!(resolve_target(Some(String::new()), Some("t".to_owned()), db.clone()), Ok(Target::Local { .. })));
    assert!(matches!(resolve_target(Some("https://m.example".to_owned()), None, db.clone()), Err(ConfigError::TokenRequired)));
    assert!(matches!(resolve_target(Some("https://m.example".to_owned()), Some(String::new()), db.clone()), Err(ConfigError::TokenRequired)));
    match resolve_target(Some("https://m.example".to_owned()), Some("t".to_owned()), db.clone()) {
        Ok(Target::Remote { address, token }) => {
            assert_eq!(address, "https://m.example");
            assert_eq!(token, "t");
        }
        _ => panic!("expected the remote target"),
    }
    assert_eq!(local_database(None, None, db.clone()), Ok(db.clone()));
    assert_eq!(local_database(Some("https://m.example".to_owned()), None, db.clone()), Err(ConfigError::LocalModeOnly));
    assert_eq!(ConfigError::LocalModeOnly.message(), "scope commands are only available in local mode");
    assert_eq!(require_serve_token(Some("  s3cret ".to_owned())), Ok("  s3cret ".to_owned()));
    assert_eq!(require_serve_token(Some(" \t ".to_owned())), Err(ConfigError::ServeTokenRequired));
    assert_eq!(require_serve_token(None), Err(ConfigError::ServeTokenRequired));
    assert_eq!(ConfigError::ServeTokenRequired.message(), "MEMOCAP_TOKEN is required to serve");
}

#[test]
fn saved_and_forgotten_memories_are_reported_by_id() {
    assert_eq!(format_saved(42), "saved #42");
    assert_eq!(format_forget(7, true), "deleted #7");
    assert_eq!(format_forget(7, false), "not found #7");
}

#[test]
fn status_reports_name_the_store_and_the_repository() {
    let status = VisibleStackStatus {
        schema_version: "1.0".to_owned(),
        placements: vec![PlacementCount { placement: "universal".to_owned(), source_order: 0, addressable_count: 1, effective_count: 1 }],
        addressable_total: 1,
        effective_total: 1,
    };
    let body = format_visible_status(&status);
    assert_eq!(
        format_local_status("/tmp/memocap.db", &repo(), &status),
        format!("database: /tmp/memocap.db\nrepository_id: {REPO}\n{body}")
    );
    assert_eq!(
        format_remote_status("https://m.example", &repo(), &status),
        format!("remote: https://m.example\nrepository_id: {REPO}\n{body}")
    );
    assert!(format_local_status("d", &repo(), &status).ends_with("addressable_total: 1\neffective_total: 1\n"));
}

#[test]
fn a_move_needs_confirmation_and_a_copy_does_not() {
    assert_eq!(confirm_transfer(CopyMoveAction::Move, false), Err(ConfirmError::MoveNotConfirmed));
    assert_eq!(ConfirmError::MoveNotConfirmed.message(), "scope move requires --yes");
    assert_eq!(confirm_transfer(CopyMoveAction::Move, true), Ok(()));
    assert_eq!(confirm_transfer(CopyMoveAction::Copy, false), Ok(()));
    assert_eq!(confirm_transfer(CopyMoveAction::Copy, true), Ok(()));
}

#[test]
fn operation_status_needs_a_remote_target() {
    let local = Target::Local { database: "memocap.db".to_owned() };
    assert_eq!(remote_target(local), Err(ConfigError::RemoteRequired));
    assert_eq!(ConfigError::RemoteRequired.message(), "operation status requires a remote address");
    let remote = Target::Remote { address: "https://m.example".to_owned(), token: "t".to_owned() };
    assert_eq!(remote_target(remote), Ok(("https://m.example".to_owned(), "t".to_owned())));
}
