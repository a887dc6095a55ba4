use memocap::scope::{DomainId, OperationId, PlacementId, RepositoryId, ScopeId};
use memocap::store::domains::{
    attach_domain, delete_domain, detach_domain, domain_rows, next_position,
};
use memocap::store::transfers::{
    begin_transfer, check_source_row, ledger_result, transfer_result, CopyMoveAction,
    CopyMoveInput, CopyMoveRequest, LedgerRow, StoredResult, TransferStep,
};
use memocap::store::visible::{
    list_inventory, recall_inventory, recall_visible, schema_version_text, source_inventory,
    visibility_for, visible_sources, visible_status, Visibility, VisibleSource,
};
use memocap::store::{
    budget_prefix, fts_query, kind_filter, legacy_scope, normalize_topic_key, open_schema_v1,
    overwrite_result, placement_from_scope, placement_parts, prepare_memory, remember_write,
    row_placement, schema_action, schema_version, similar_check, sqlite_limit, take_char_budget,
    Memory, RememberOptions, RememberWrite, SchemaAction, SchemaVersion, StoreError,
};
use sha2::{Digest, Sha256};

const REPO: &str = "repository:0123456789abcdef0123456789abcdef0123456789abcdef0123456789abcdef";

fn repo() -> RepositoryId {
    RepositoryId::parse(REPO).expect("fixture repository ID is valid")
}

fn domain(text: &str) -> DomainId {
    DomainId::parse(text).expect("fixture domain is valid")
}

fn memory(id: i64, content: &str, topic: &str, placement: &str) -> Memory {
    Memory {
        id,
        content: content.to_owned(),
        kind: "context".to_owned(),
        tags: String::new(),
        created_at: "2024-01-01T00:00:00+00:00".to_owned(),
        updated_at: "2024-01-01T00:00:00+00:00".to_owned(),
        scope: "global".to_owned(),
        topic_key: topic.to_owned(),
        placement: placement.to_owned(),
    }
}

fn stack() -> Vec<VisibleSource> {
    visible_sources(&repo(), &vec![domain("team/beta"), domain("team/alpha")])
}

fn topics(lists: &[&[&str]]) -> Vec<Vec<String>> {
    lists.iter().map(|list| list.iter().map(|t| (*t).to_owned()).collect()).collect()
}

#[test]
fn visible_stack_is_repository_then_attached_domains_then_universal() {
    let sources = stack();
    let texts: Vec<String> = sources.iter().map(|s| s.placement().to_string()).collect();
    assert_eq!(
        texts,
        vec![REPO.to_owned(), "domain:team/beta".to_owned(), "domain:team/alpha".to_owned(), "universal".to_owned()]
    );
    assert_eq!(visible_sources(&repo(), &Vec::new()).len(), 2);
}

#[test]
fn repository_topics_shadow_domains_and_universal() {
    let sources = stack();
    let used = topics(&[&["release"], &["release"], &["release"], &["release"]]);
    assert_eq!(visibility_for(&sources, &used, 0, "release"), Visibility::Visible);
    for order in 1..4 {
        match visibility_for(&sources, &used, order, "release") {
            Visibility::Shadowed(cause) => {
                assert_eq!(cause.source_order, 0);
                assert_eq!(cause.placement, REPO);
                assert_eq!(cause.topic_key, "release");
            }
            Visibility::Visible => panic!("source {order} should be shadowed"),
        }
    }
}

#[test]
fn domains_shadow_universal_but_not_each_other() {
    let sources = stack();
    let used = topics(&[&[], &["release"], &["release"], &["release"]]);
    assert_eq!(visibility_for(&sources, &used, 1, "release"), Visibility::Visible);
    assert_eq!(visibility_for(&sources, &used, 2, "release"), Visibility::Visible);
    match visibility_for(&sources, &used, 3, "release") {
        Visibility::Shadowed(cause) => {
            assert_eq!(cause.source_order, 1);
            assert_eq!(cause.placement, "domain:team/beta");
        }
        Visibility::Visible => panic!("universal should be shadowed by the first domain"),
    }
    assert_eq!(visibility_for(&sources, &used, 3, ""), Visibility::Visible);
    assert_eq!(visibility_for(&sources, &used, 3, "other"), Visibility::Visible);
}

fn fixture_inventory() -> (Vec<VisibleSource>, Vec<memocap::store::visible::InventoryMemory>) {
    let sources = stack();
    let used = topics(&[&["topic"], &["topic"], &[], &["topic"]]);
    let memories = vec![
        vec![memory(1, "repository fixture", "topic", REPO)],
        vec![memory(2, "domain fixture", "topic", "domain:team/beta"), memory(3, "domain other", "", "domain:team/beta")],
        vec![],
        vec![memory(4, "universal fixture", "topic", "universal"), memory(5, "universal free", "", "universal")],
    ];
    let inventory = source_inventory(&sources, &used, &memories);
    (sources, inventory)
}

#[test]
fn inventory_lists_every_source_in_order_with_its_visibility() {
    let (_, inventory) = fixture_inventory();
    let ids: Vec<i64> = inventory.iter().map(|e| e.memory.id).collect();
    assert_eq!(ids, vec![1, 2, 3, 4, 5]);
    let orders: Vec<usize> = inventory.iter().map(|e| e.source_order).collect();
    assert_eq!(orders, vec![0, 1, 1, 3, 3]);
    let visible: Vec<bool> = inventory.iter().map(|e| e.visibility.is_visible()).collect();
    assert_eq!(visible, vec![true, false, true, false, true]);
}

#[test]
fn status_counts_add_up_to_the_totals() {
    let (sources, inventory) = fixture_inventory();
    let status = visible_status(&sources, &inventory, schema_version_text(1, 0)).expect("counts fit");
    assert_eq!(status.schema_version, "1.0");
    let counts: Vec<(usize, i64, i64)> = status
        .placements
        .iter()
        .map(|c| (c.source_order, c.addressable_count, c.effective_count))
        .collect();
    assert_eq!(counts, vec![(0, 1, 1), (1, 2, 1), (2, 0, 0), (3, 2, 1)]);
    assert_eq!(status.addressable_total, 5);
    assert_eq!(status.effective_total, 3);
    assert_eq!(status.placements[1].placement, "domain:team/beta");
    let sum: i64 = status.placements.iter().map(|c| c.addressable_count).sum();
    assert_eq!(sum, status.addressable_total);
    let effective: i64 = status.placements.iter().map(|c| c.effective_count).sum();
    assert_eq!(effective, status.effective_total);
    assert!(status.placements.iter().all(|c| c.effective_count <= c.addressable_count));
}

#[test]
fn recall_keeps_visible_entries_within_limit_and_budget() {
    let (sources, inventory) = fixture_inventory();
    let recalled = recall_visible(&inventory, 10, None).expect("limit fits");
    let ids: Vec<i64> = recalled.iter().map(|e| e.memory.id).collect();
    assert_eq!(ids, vec![1, 3, 5]);
    let limited = recall_visible(&inventory, 2, None).expect("limit fits");
    assert_eq!(limited.len(), 2);
    // The first entry is always kept; later ones only while the total fits.
    let budget = recall_visible(&inventory, 10, Some(20)).expect("limit fits");
    let ids: Vec<i64> = budget.iter().map(|e| e.memory.id).collect();
    assert_eq!(ids, vec![1]);
    let tiny = recall_visible(&inventory, 10, Some(1)).expect("limit fits");
    assert_eq!(tiny.len(), 1);
    assert_eq!(recall_visible(&inventory, usize::MAX, None).err(), Some(StoreError::LimitOutOfRange));
    let used = topics(&[&[], &[], &[], &[]]);
    let none = vec![vec![], vec![], vec![], vec![]];
    assert!(recall_inventory("", &sources, &used, &none).is_empty());
}

#[test]
fn list_takes_the_first_entries() {
    let (_, inventory) = fixture_inventory();
    let listed = list_inventory(inventory.clone(), 3).expect("limit fits");
    let ids: Vec<i64> = listed.iter().map(|e| e.memory.id).collect();
    assert_eq!(ids, vec![1, 2, 3]);
    assert_eq!(list_inventory(inventory.clone(), 99).expect("limit fits").len(), 5);
    assert_eq!(list_inventory(inventory, usize::MAX).err(), Some(StoreError::LimitOutOfRange));
}

#[test]
fn char_budget_keeps_a_prefix_that_fits() {
    assert_eq!(budget_prefix(&vec![5, 5, 5], 10), 2);
    assert_eq!(budget_prefix(&vec![50, 5], 10), 1);
    assert_eq!(budget_prefix(&vec![], 10), 0);
    assert_eq!(budget_prefix(&vec![3, 3, 3, 3], 12), 4);
    let memories = vec![memory(1, "aaaa", "", "universal"), memory(2, "bbbb", "", "universal"), memory(3, "c", "", "universal")];
    assert_eq!(take_char_budget(memories.clone(), None).len(), 3);
    let kept: Vec<i64> = take_char_budget(memories.clone(), Some(8)).iter().map(|m| m.id).collect();
    assert_eq!(kept, vec![1, 2]);
    let kept: Vec<i64> = take_char_budget(memories, Some(0)).iter().map(|m| m.id).collect();
    assert_eq!(kept, vec![1]);
}

#[test]
fn topic_keys_collapse_whitespace_and_lowercase() {
    assert_eq!(normalize_topic_key(Some("  Release   Plan\tQ3 ")), Some("release plan q3".to_owned()));
    assert_eq!(normalize_topic_key(Some("   ")), Some(String::new()));
    assert_eq!(normalize_topic_key(None), None);
    assert_eq!(normalize_topic_key(Some("ÄBC")), Some("äbc".to_owned()));
}

#[test]
fn full_text_queries_quote_each_word() {
    assert_eq!(fts_query("release plan"), "\"release\" AND \"plan\"");
    assert_eq!(fts_query("  say \"hi\"  "), "\"say\" AND \"hi\"");
    assert_eq!(fts_query("   "), "");
}

#[test]
fn prepared_memories_are_trimmed_with_a_default_kind() {
    let prepared = prepare_memory("  hello  ", "  ", " a,b ", Some(" Topic  Key ")).expect("content is present");
    assert_eq!(prepared.content, "hello");
    assert_eq!(prepared.kind, "context");
    assert_eq!(prepared.tags, "a,b");
    assert_eq!(prepared.topic_key, Some("topic key".to_owned()));
    let kept = prepare_memory("x", " decision ", "", None).expect("content is present");
    assert_eq!(kept.kind, "decision");
    assert_eq!(kept.topic_key, None);
    assert!(matches!(prepare_memory(" \n ", "context", "", None), Err(StoreError::EmptyContent)));
}

#[test]
fn writes_overwrite_or_insert_after_a_similarity_check() {
    let options = |overwrite_id, force| RememberOptions { topic_key: None, force, overwrite_id };
    assert_eq!(remember_write(&options(Some(7), false)), RememberWrite::Overwrite(7));
    assert_eq!(remember_write(&options(None, false)), RememberWrite::Insert { check_similar: true });
    assert_eq!(remember_write(&options(None, true)), RememberWrite::Insert { check_similar: false });
    assert_eq!(overwrite_result(7, 0), Err(StoreError::MemoryNotFound(7)));
    assert_eq!(overwrite_result(7, 1), Ok(7));
    assert!(similar_check(Vec::new()).is_ok());
    let refused = similar_check(vec![memory(3, "ship it", "", "universal")]).expect_err("similar memory found");
    assert_eq!(refused.candidates.len(), 1);
    assert_eq!(
        refused.message(),
        "similar memories found; pass --force to insert anyway\n#3 [context] ship it\n"
    );
    assert_eq!(kind_filter(Some("  decision ")), Some("decision".to_owned()));
    assert_eq!(kind_filter(Some("   ")), None);
    assert_eq!(kind_filter(None), None);
}

#[test]
fn limits_and_positions_fit_sqlite() {
    assert_eq!(sqlite_limit(5), Ok(5));
    assert_eq!(sqlite_limit(usize::MAX), Err(StoreError::LimitOutOfRange));
    assert_eq!(next_position(4), Ok(5));
    assert_eq!(next_position(i64::MAX), Err(StoreError::PositionOutOfRange));
}

#[test]
fn placements_map_to_columns_and_back() {
    let repository = PlacementId::Repository(repo());
    assert_eq!(placement_parts(&repository), ("repository", Some(REPO), None));
    let team = PlacementId::Domain(domain("team/beta"));
    assert_eq!(placement_parts(&team), ("domain", None, Some("team/beta")));
    assert_eq!(placement_parts(&PlacementId::Universal), ("universal", None, None));
    assert_eq!(legacy_scope(&repository), REPO);
    assert_eq!(legacy_scope(&team), "domain:team/beta");
    assert_eq!(legacy_scope(&PlacementId::Universal), "global");
    assert_eq!(row_placement("repository", Some(REPO.to_owned()), None), Ok(REPO.to_owned()));
    assert_eq!(row_placement("domain", None, Some("team/beta".to_owned())), Ok("domain:team/beta".to_owned()));
    assert_eq!(row_placement("universal", None, None), Ok("universal".to_owned()));
    assert_eq!(row_placement("universal", Some(REPO.to_owned()), None), Err(StoreError::InvalidPlacementRow));
    assert_eq!(row_placement("domain", None, None), Err(StoreError::InvalidPlacementRow));
    assert_eq!(row_placement("other", None, None), Err(StoreError::InvalidPlacementRow));
    assert!(matches!(placement_from_scope(&ScopeId::global()), Ok(PlacementId::Universal)));
    match placement_from_scope(&ScopeId::from_repository(repo())) {
        Ok(PlacementId::Repository(r)) => assert_eq!(r.as_str(), REPO),
        other => panic!("unexpected placement {other:?}"),
    }
}

#[test]
fn schema_versions_are_created_opened_reset_or_refused() {
    assert_eq!(schema_action(true, false, false), Ok(SchemaAction::CreateV1));
    assert_eq!(schema_action(false, true, false), Ok(SchemaAction::OpenV1));
    assert_eq!(schema_action(false, false, true), Ok(SchemaAction::ResetPreVersioned));
    assert_eq!(schema_action(false, false, false), Err(StoreError::UnrecognizedSchema));
    assert_eq!(schema_version(&vec![(1, 0)]), Ok(SchemaVersion { major: 1, minor: 0 }));
    assert_eq!(schema_version(&vec![]), Err(StoreError::MalformedMetadata));
    assert_eq!(schema_version(&vec![(1, 0), (1, 0)]), Err(StoreError::MalformedMetadata));
    assert_eq!(schema_version(&vec![(0, 0)]), Err(StoreError::MalformedMetadata));
    assert_eq!(open_schema_v1(SchemaVersion { major: 1, minor: 0 }), Ok(None));
    assert_eq!(open_schema_v1(SchemaVersion { major: 2, minor: 0 }), Err(StoreError::UnsupportedMajor));
    assert_eq!(open_schema_v1(SchemaVersion { major: 1, minor: 1 }), Err(StoreError::NewerMinor));
    assert_eq!(schema_version_text(12, 3), "12.3");
}

#[test]
fn store_errors_read_as_text() {
    assert_eq!(StoreError::MemoryNotFound(-4).message(), "memory #-4 not found");
    assert_eq!(
        StoreError::DomainHasAttachments("team/beta".to_owned(), 2).message(),
        "domain team/beta still has 2 attachment(s)"
    );
    assert_eq!(StoreError::NotInSource(9).message(), "memory #9 not found in source placement");
    assert_eq!(StoreError::SamePlacement.message(), "source and destination placements must differ");
}

fn names(domains: &[DomainId]) -> Vec<&str> {
    domains.iter().map(DomainId::as_str).collect()
}

#[test]
fn attaching_appends_or_inserts_before_a_reference() {
    let attached = vec![domain("team/beta"), domain("team/alpha")];
    let appended = attach_domain(true, &attached, &domain("eng/rust"), None).expect("registered").expect("changed");
    assert_eq!(names(&appended), vec!["team/beta", "team/alpha", "eng/rust"]);
    let before = domain("team/alpha");
    let inserted = attach_domain(true, &attached, &domain("eng/rust"), Some(&before)).expect("registered").expect("changed");
    assert_eq!(names(&inserted), vec!["team/beta", "eng/rust", "team/alpha"]);
    assert!(attach_domain(true, &attached, &domain("team/beta"), None).expect("registered").is_none());
    assert_eq!(
        attach_domain(false, &attached, &domain("eng/rust"), None),
        Err(StoreError::DomainMissing("eng/rust".to_owned()))
    );
    let missing = domain("ops/none");
    assert_eq!(
        attach_domain(true, &attached, &domain("eng/rust"), Some(&missing)),
        Err(StoreError::ReferenceNotAttached("ops/none".to_owned()))
    );
}

#[test]
fn detaching_removes_only_that_domain_and_undoes_an_attach() {
    let attached = vec![domain("team/beta"), domain("team/alpha"), domain("eng/rust")];
    let detached = detach_domain(true, &attached, &domain("team/alpha")).expect("registered").expect("changed");
    assert_eq!(names(&detached), vec!["team/beta", "eng/rust"]);
    assert!(detach_domain(true, &attached, &domain("ops/none")).expect("registered").is_none());
    assert_eq!(detach_domain(false, &attached, &domain("team/beta")), Err(StoreError::DomainMissing("team/beta".to_owned())));
    let before = domain("team/alpha");
    let original = vec![domain("team/beta"), domain("team/alpha")];
    let attached_again = attach_domain(true, &original, &domain("x/y"), Some(&before)).expect("ok").expect("changed");
    let restored = detach_domain(true, &attached_again, &domain("x/y")).expect("ok").expect("changed");
    assert_eq!(names(&restored), names(&original));
}

#[test]
fn deleting_requires_no_attachments_and_no_memories() {
    let d = domain("team/beta");
    assert_eq!(delete_domain(false, &d, 3, 3), Ok(false));
    assert_eq!(delete_domain(true, &d, 2, 0), Err(StoreError::DomainHasAttachments("team/beta".to_owned(), 2)));
    assert_eq!(delete_domain(true, &d, 0, 5), Err(StoreError::DomainHasMemories("team/beta".to_owned(), 5)));
    assert_eq!(delete_domain(true, &d, 0, 0), Ok(true));
    assert_eq!(
        StoreError::DomainHasMemories("team/beta".to_owned(), 5).message(),
        "domain team/beta still has 5 memory record(s)"
    );
}

#[test]
fn domain_rows_must_all_be_valid() {
    let rows = vec!["team/beta".to_owned(), "eng/rust".to_owned()];
    assert_eq!(names(&domain_rows(&rows).expect("valid rows")), vec!["team/beta", "eng/rust"]);
    assert_eq!(domain_rows(&vec!["Bad".to_owned()]).err(), Some(StoreError::InvalidDomainRow));
}

fn input(action: CopyMoveAction, operation_id: Option<OperationId>) -> CopyMoveInput {
    CopyMoveInput {
        action,
        memory_id: 7,
        from: PlacementId::Repository(repo()),
        to: PlacementId::Universal,
        operation_id,
        applicability_note: Some("  applies everywhere  ".to_owned()),
    }
}

#[test]
fn prepared_requests_fingerprint_the_repository_and_mutation() {
    let request = CopyMoveRequest::prepare(repo(), input(CopyMoveAction::Copy, None)).expect("prepares");
    let mutation = format!(
        "{{\"action\":\"copy\",\"memory_id\":7,\"from\":\"{REPO}\",\"to\":\"universal\",\"applicability_note\":\"applies everywhere\"}}"
    );
    assert_eq!(request.mutation_json(), mutation);
    let payload = format!("{{\"repository_id\":\"{REPO}\",\"mutation\":{mutation}}}");
    let fingerprint: String = Sha256::digest(payload.as_bytes()).iter().map(|b| format!("{b:02x}")).collect();
    assert_eq!(request.request_fingerprint(), fingerprint);
    assert_eq!(request.operation_id().as_str(), OperationId::from_request_fingerprint(&fingerprint).as_str());
    assert_eq!(request.applicability_note(), Some("applies everywhere"));
    let again = CopyMoveRequest::prepare(repo(), input(CopyMoveAction::Copy, None)).expect("prepares");
    assert_eq!(again.operation_id().as_str(), request.operation_id().as_str());
    let moved = CopyMoveRequest::prepare(repo(), input(CopyMoveAction::Move, None)).expect("prepares");
    assert_ne!(moved.request_fingerprint(), request.request_fingerprint());
    let given = OperationId::parse("01234567-89ab-cdef-0123-456789abcdef").expect("valid");
    let chosen = CopyMoveRequest::prepare(repo(), input(CopyMoveAction::Move, Some(given))).expect("prepares");
    assert_eq!(chosen.operation_id().as_str(), "01234567-89ab-cdef-0123-456789abcdef");
    assert_eq!(CopyMoveAction::Move.as_str(), "move");
    assert_eq!(CopyMoveAction::Copy.past_tense(), "copied");
}

#[test]
fn the_ledger_replays_identical_requests_and_refuses_conflicts() {
    let request = CopyMoveRequest::prepare(repo(), input(CopyMoveAction::Move, None)).expect("prepares");
    assert!(matches!(begin_transfer(&request, None), Ok(TransferStep::Apply)));
    let applied = transfer_result(&request, 99);
    assert_eq!(applied.memory_id, 7);
    let stored = StoredResult::from_result(&applied);
    assert_eq!(stored.from, REPO);
    assert_eq!(stored.to, "universal");
    let row = LedgerRow { request_fingerprint: request.request_fingerprint().to_owned(), result: Some(stored) };
    match begin_transfer(&request, Some(row)) {
        Ok(TransferStep::Replayed(result)) => {
            assert_eq!(result, applied);
            assert_eq!(result.memory_id, 7);
            assert_eq!(result.operation_id.as_str(), request.operation_id().as_str());
        }
        other => panic!("expected a replay, got {other:?}"),
    }
    let other = LedgerRow { request_fingerprint: "0".repeat(64), result: None };
    assert_eq!(begin_transfer(&request, Some(other)).err(), Some(StoreError::OperationConflict));
    let unreadable = LedgerRow { request_fingerprint: request.request_fingerprint().to_owned(), result: None };
    assert_eq!(ledger_result(request.request_fingerprint(), Some(unreadable)).err(), Some(StoreError::InvalidLedgerResult));
    assert!(matches!(ledger_result(request.request_fingerprint(), None), Ok(None)));
    assert_eq!(check_source_row(&request, 1), Ok(()));
    assert_eq!(check_source_row(&request, 0), Err(StoreError::NotInSource(7)));
    let copy = CopyMoveRequest::prepare(repo(), input(CopyMoveAction::Copy, None)).expect("prepares");
    assert_eq!(transfer_result(&copy, 99).memory_id, 99);
}

#[test]
fn a_transfer_needs_two_different_placements() {
    let mut same = input(CopyMoveAction::Copy, None);
    same.to = PlacementId::Repository(repo());
    let request = CopyMoveRequest::prepare(repo(), same).expect("prepares");
    assert_eq!(begin_transfer(&request, None).err(), Some(StoreError::SamePlacement));
}

#[test]
fn recorded_results_must_parse() {
    let bad = |from: &str, to: &str, op: &str| StoredResult {
        action: CopyMoveAction::Copy,
        memory_id: 1,
        from: from.to_owned(),
        to: to.to_owned(),
        operation_id: op.to_owned(),
    };
    let op = "01234567-89ab-cdef-0123-456789abcdef";
    assert_eq!(bad("nowhere", "universal", op).into_result().err(), Some(StoreError::InvalidLedgerSource));
    assert_eq!(bad("universal", "nowhere", op).into_result().err(), Some(StoreError::InvalidLedgerDestination));
    assert_eq!(bad("universal", "domain:team/beta", "x").into_result().err(), Some(StoreError::InvalidLedgerOperation));
    let good = bad("universal", "domain:team/beta", op).into_result().expect("parses");
    assert_eq!(good.to.to_string(), "domain:team/beta");
}

#[test]
fn schema_statements_compare_by_their_words() {
    assert_eq!(memocap::store::normalize_sql("CREATE  TABLE\n  t (\n  a INTEGER\n)"), "CREATE TABLE t ( a INTEGER )");
    assert_eq!(memocap::store::normalize_sql(""), "");
}

#[test]
fn a_recorded_result_replays_as_committed() {
    let request = CopyMoveRequest::prepare(repo(), input(CopyMoveAction::Copy, None)).expect("prepares");
    let committed = transfer_result(&request, 41);
    let row = LedgerRow {
        request_fingerprint: request.request_fingerprint().to_owned(),
        result: Some(StoredResult::from_result(&committed)),
    };
    let replayed = ledger_result(request.request_fingerprint(), Some(row)).expect("readable").expect("committed");
    assert_eq!(replayed, committed);
}
