//! The command line's rules: placement selection and the texts it prints.
use vstd::prelude::*;

use crate::config::{is_present, resolve_target, ConfigError, Target};
use crate::paths::{opt_chars, present};

use crate::scope::{
    placement_text, DomainId, PlacementId, PlacementView, RepositoryId, ResolutionSource,
    ResolvedScope,
};
use crate::store::domains::{domain_views, position_of};
use crate::remote::OperationStatus;
use crate::store::transfers::{CopyMoveAction, CopyMoveResult};
use crate::store::visible::{
    single_visible_source, source_views, visible_sources, InventoryMemory, PlacementCount,
    Visibility, VisibleSource, VisibleStackStatus,
};
use crate::text::{decimal, decimal_int, push_char, push_decimal, push_decimal_i64, push_str};

verus! {

/// A memory to store, as the command line gives it.
pub struct ScopedRemember<'a> {
    pub content: &'a str,
    pub kind: &'a str,
    pub tags: &'a str,
    pub topic: Option<&'a str>,
    pub force: bool,
    pub overwrite_id: Option<i64>,
}

/// A search, as the command line gives it.
pub struct ScopedRecall<'a> {
    pub query: &'a str,
    pub limit: usize,
    pub kind: Option<&'a str>,
    pub max_chars: Option<usize>,
}

/// An explicit placement chosen with `--domain` or `--universal`.
#[derive(Debug)]
pub enum PlacementSelector {
    Domain(DomainId),
    Universal,
}

/// The failures of placement selection.
#[derive(Debug, PartialEq, Eq)]
pub enum SelectionError {
    DomainConflictsWithUniversal,
    RepositoryRequired,
    DomainNeedsRepository,
    DomainMissing(String),
    DomainNotAttached(String),
}

/// The text of each selection error.
pub open spec fn selection_error_text(e: SelectionError) -> Seq<char> {
    match e {
        SelectionError::DomainConflictsWithUniversal => "--domain conflicts with --universal"@,
        SelectionError::RepositoryRequired => "repository placement requires a current repository"@,
        SelectionError::DomainNeedsRepository => "domain placement requires a current repository"@,
        SelectionError::DomainMissing(d) => "domain "@ + d@ + " does not exist"@,
        SelectionError::DomainNotAttached(d) => "domain "@ + d@ + " is not attached to this repository"@,
    }
}

impl SelectionError {
    pub fn message(&self) -> (r: String)
        ensures
            r@ == selection_error_text(*self),
    {
        let mut out = String::new();
        match self {
            SelectionError::DomainConflictsWithUniversal => push_str(
                &mut out,
                "--domain conflicts with --universal",
            ),
            SelectionError::RepositoryRequired => push_str(
                &mut out,
                "repository placement requires a current repository",
            ),
            SelectionError::DomainNeedsRepository => push_str(
                &mut out,
                "domain placement requires a current repository",
            ),
            SelectionError::DomainMissing(d) => {
                push_str(&mut out, "domain ");
                push_str(&mut out, d.as_str());
                push_str(&mut out, " does not exist");
            },
            SelectionError::DomainNotAttached(d) => {
                push_str(&mut out, "domain ");
                push_str(&mut out, d.as_str());
                push_str(&mut out, " is not attached to this repository");
            },
        }
        assert(out@ =~= selection_error_text(*self));
        out
    }
}

/// Scope commands act on the local database alone: a configured remote
/// address refuses them, with or without a token; otherwise the local
/// database is the target.
pub fn local_database(address: Option<String>, token: Option<String>, database: String) -> (r: Result<
    String,
    ConfigError,
>)
    ensures
        present(opt_chars(address)) ==> r == Err::<String, ConfigError>(ConfigError::LocalModeOnly),
        !present(opt_chars(address)) ==> (r matches Ok(d) && d@ == database@),
{
    if is_present(&address) {
        return Err(ConfigError::LocalModeOnly);
    }
    match resolve_target(address, token, database) {
        Ok(Target::Local { database }) => Ok(database),
        Ok(Target::Remote { .. }) => Err(ConfigError::LocalModeOnly),
        Err(e) => Err(e),
    }
}

/// `--domain` and `--universal` exclude each other; either picks one exact
/// placement, and neither leaves the default.
pub fn placement_selector(domain: Option<DomainId>, universal: bool) -> (r: Result<
    Option<PlacementSelector>,
    SelectionError,
>)
    ensures
        domain is Some && universal ==> r matches Err(SelectionError::DomainConflictsWithUniversal),
        domain is Some && !universal ==> (r matches Ok(Some(PlacementSelector::Domain(d))) && d@
            == domain->0@),
        domain is None && universal ==> r matches Ok(Some(PlacementSelector::Universal)),
        domain is None && !universal ==> r matches Ok(None),
{
    match (domain, universal) {
        (Some(domain), false) => Ok(Some(PlacementSelector::Domain(domain))),
        (None, true) => Ok(Some(PlacementSelector::Universal)),
        (None, false) => Ok(None),
        (Some(_), true) => Err(SelectionError::DomainConflictsWithUniversal),
    }
}

/// Whether a command with this selector needs the current repository: only
/// an explicit universal placement does not.
pub fn needs_repository(selector: Option<&PlacementSelector>) -> (r: bool)
    ensures
        r == !(selector matches Some(PlacementSelector::Universal)),
{
    match selector {
        Some(PlacementSelector::Universal) => false,
        Some(PlacementSelector::Domain(_)) | None => true,
    }
}

/// Whether a domain is among the given ones.
pub fn contains_domain(domains: &Vec<DomainId>, domain: &DomainId) -> (r: bool)
    ensures
        r == domain_views(domains@).contains(domain@),
{
    let mut i: usize = 0;
    while i < domains.len()
        invariant
            i <= domains@.len(),
            forall|j: int| 0 <= j < i ==> #[trigger] domains@[j]@ != domain@,
        decreases domains@.len() - i,
    {
        if domains[i].same_as(domain) {
            assert(domain_views(domains@)[i as int] == domain@);
            return true;
        }
        i = i + 1;
    }
    proof {
        if domain_views(domains@).contains(domain@) {
            let k = choose|k: int| 0 <= k < domain_views(domains@).len() && domain_views(domains@)[k] == domain@;
            assert(domains@[k]@ == domain@);
        }
    }
    false
}

/// The exact placement a command works on: universal; a domain that must be
/// registered and attached to the current repository; or the current
/// repository by default.
pub fn exact_placement(
    selector: Option<&PlacementSelector>,
    repository: Option<&RepositoryId>,
    registered: &Vec<DomainId>,
    attached: &Vec<DomainId>,
) -> (r: Result<PlacementId, SelectionError>)
    ensures
        selector matches Some(PlacementSelector::Universal) ==> (r matches Ok(p) && p@
            == PlacementView::Universal),
        selector is None && repository is None ==> r matches Err(SelectionError::RepositoryRequired),
        selector is None && repository is Some ==> (r matches Ok(p) && p@ == PlacementView::Repository(
            repository->0@,
        )),
        selector matches Some(PlacementSelector::Domain(d)) ==> {
            if repository is None {
                r matches Err(SelectionError::DomainNeedsRepository)
            } else if !domain_views(registered@).contains(d@) {
                r matches Err(SelectionError::DomainMissing(x)) && x@ == d@
            } else if !domain_views(attached@).contains(d@) {
                r matches Err(SelectionError::DomainNotAttached(x)) && x@ == d@
            } else {
                r matches Ok(p) && p@ == PlacementView::Domain(d@)
            }
        },
{
    match selector {
        Some(PlacementSelector::Universal) => Ok(PlacementId::Universal),
        Some(PlacementSelector::Domain(domain)) => {
            if repository.is_none() {
                return Err(SelectionError::DomainNeedsRepository);
            }
            if !contains_domain(registered, domain) {
                return Err(SelectionError::DomainMissing(domain.to_string()));
            }
            if !contains_domain(attached, domain) {
                return Err(SelectionError::DomainNotAttached(domain.to_string()));
            }
            Ok(PlacementId::Domain(domain.clone()))
        },
        None => match repository {
            Some(repository) => Ok(PlacementId::Repository(repository.clone())),
            None => Err(SelectionError::RepositoryRequired),
        },
    }
}

/// The sources a read covers: the one exact placement when a selector is
/// given, else the repository's whole visible stack.
pub fn read_sources(
    selector: Option<&PlacementSelector>,
    repository: Option<&RepositoryId>,
    registered: &Vec<DomainId>,
    attached: &Vec<DomainId>,
) -> (r: Result<Vec<VisibleSource>, SelectionError>)
    ensures
        selector matches Some(PlacementSelector::Universal) ==> (r matches Ok(v) && v@.len() == 1
            && v@[0]@ == PlacementView::Universal),
        selector matches Some(PlacementSelector::Domain(d)) ==> {
            if repository is None {
                r matches Err(SelectionError::DomainNeedsRepository)
            } else if !domain_views(registered@).contains(d@) {
                r matches Err(SelectionError::DomainMissing(x)) && x@ == d@
            } else if !domain_views(attached@).contains(d@) {
                r matches Err(SelectionError::DomainNotAttached(x)) && x@ == d@
            } else {
                r matches Ok(v) && v@.len() == 1 && v@[0]@ == PlacementView::Domain(d@)
            }
        },
        selector is Some ==> match exact_placement_spec(selector, repository, registered@, attached@) {
            Ok(p) => r matches Ok(v) && v@.len() == 1 && v@[0]@ == p,
            Err(_) => r is Err,
        },
        selector is None && repository is None ==> r matches Err(SelectionError::RepositoryRequired),
        selector is None && repository is Some ==> (r matches Ok(v) && source_views(v@) == seq![
            PlacementView::Repository(repository->0@),
        ] + domain_views(attached@).map_values(|d: Seq<char>| PlacementView::Domain(d)) + seq![
            PlacementView::Universal,
        ]),
{
    if selector.is_some() {
        let placement = exact_placement(selector, repository, registered, attached)?;
        let mut sources: Vec<VisibleSource> = Vec::new();
        sources.push(single_visible_source(placement));
        return Ok(sources);
    }
    match repository {
        None => Err(SelectionError::RepositoryRequired),
        Some(repository) => {
            let sources = visible_sources(repository, attached);
            proof {
                let expected = seq![PlacementView::Repository(repository@)] + domain_views(
                    attached@,
                ).map_values(|d: Seq<char>| PlacementView::Domain(d)) + seq![
                    PlacementView::Universal,
                ];
                assert forall|i: int| 0 <= i < sources@.len() implies source_views(sources@)[i]
                    == expected[i] by {
                    if 1 <= i < sources@.len() - 1 {
                        assert(sources@[(i - 1) + 1]@ == PlacementView::Domain(attached@[i - 1]@));
                    }
                }
                assert(source_views(sources@) =~= expected);
            }
            Ok(sources)
        },
    }
}

/// A single selected placement is only ever a domain attached to the
/// current repository: whenever selecting a domain succeeds, there is a
/// current repository and the domain is both registered and attached to it.
pub proof fn lemma_selected_domain_is_attached(
    d: DomainId,
    repository: Option<&RepositoryId>,
    registered: Seq<DomainId>,
    attached: Seq<DomainId>,
)
    requires
        exact_placement_spec(Some(&PlacementSelector::Domain(d)), repository, registered, attached) is Ok,
    ensures
        repository is Some,
        domain_views(registered).contains(d@),
        domain_views(attached).contains(d@),
        exact_placement_spec(Some(&PlacementSelector::Domain(d)), repository, registered, attached)
            == Ok::<PlacementView, ()>(PlacementView::Domain(d@)),
{
}

/// The placement `exact_placement` gives, or its failure.
pub open spec fn exact_placement_spec(
    selector: Option<&PlacementSelector>,
    repository: Option<&RepositoryId>,
    registered: Seq<DomainId>,
    attached: Seq<DomainId>,
) -> Result<PlacementView, ()> {
    match selector {
        Some(PlacementSelector::Universal) => Ok(PlacementView::Universal),
        Some(PlacementSelector::Domain(d)) => if repository is Some && domain_views(
            registered,
        ).contains(d@) && domain_views(attached).contains(d@) {
            Ok(PlacementView::Domain(d@))
        } else {
            Err(())
        },
        None => match repository {
            Some(rep) => Ok(PlacementView::Repository(rep@)),
            None => Err(()),
        },
    }
}

// ---------------------------------------------------------------------------
// Printed texts
// ---------------------------------------------------------------------------

pub open spec fn visibility_text(v: Visibility) -> Seq<char> {
    match v {
        Visibility::Visible => "  visibility: visible\n  shadowed_by: none\n"@,
        Visibility::Shadowed(c) => "  visibility: shadowed\n  shadowed_by: source "@ + decimal(
            c.source_order as nat,
        ) + " "@ + c.placement@ + " topic "@ + c.topic_key@ + "\n"@,
    }
}

pub open spec fn header_text(m: crate::store::Memory) -> Seq<char> {
    "#"@ + decimal_int(m.id as int) + " ["@ + m.kind@ + "] "@ + m.content@ + "\n"@
}

pub open spec fn optional_line(label: Seq<char>, value: Seq<char>) -> Seq<char> {
    if value.len() > 0 {
        label + value + "\n"@
    } else {
        seq![]
    }
}

/// The lines printed for one inventory entry.
pub open spec fn memory_block(e: InventoryMemory) -> Seq<char> {
    let m = e.memory;
    header_text(m) + optional_line("  tags: "@, m.tags@) + "  placement: "@ + m.placement@ + "\n"@
        + optional_line("  topic: "@, m.topic_key@) + "  source_order: "@ + decimal(
        e.source_order as nat,
    ) + "\n"@ + visibility_text(e.visibility) + "  time: "@ + m.created_at@ + "\n"@
}

pub open spec fn memory_blocks(es: Seq<InventoryMemory>) -> Seq<char>
    decreases es.len(),
{
    if es.len() == 0 {
        seq![]
    } else {
        memory_blocks(es.drop_last()) + memory_block(es.last())
    }
}

pub open spec fn memories_text(es: Seq<InventoryMemory>) -> Seq<char> {
    if es.len() == 0 {
        "No local memories found.\n"@
    } else {
        memory_blocks(es)
    }
}

fn push_header(out: &mut String, m: &crate::store::Memory)
    ensures
        final(out)@ == old(out)@ + header_text(*m),
{
    push_str(out, "#");
    push_decimal_i64(out, m.id);
    push_str(out, " [");
    push_str(out, m.kind.as_str());
    push_str(out, "] ");
    push_str(out, m.content.as_str());
    push_str(out, "\n");
    assert(final(out)@ =~= old(out)@ + header_text(*m));
}

fn push_optional_line(out: &mut String, label: &str, value: &str)
    ensures
        final(out)@ == old(out)@ + optional_line(label@, value@),
{
    if !value.is_empty() {
        push_str(out, label);
        push_str(out, value);
        push_str(out, "\n");
        assert(final(out)@ =~= old(out)@ + optional_line(label@, value@));
    } else {
        assert(final(out)@ =~= old(out)@ + optional_line(label@, value@));
    }
}

fn push_labeled(out: &mut String, label: &str, value: &str)
    ensures
        final(out)@ == old(out)@ + label@ + value@ + "\n"@,
{
    push_str(out, label);
    push_str(out, value);
    push_str(out, "\n");
}

fn push_visibility(out: &mut String, v: &Visibility)
    ensures
        final(out)@ == old(out)@ + visibility_text(*v),
{
    match v {
        Visibility::Visible => {
            push_str(out, "  visibility: visible\n  shadowed_by: none\n");
        },
        Visibility::Shadowed(cause) => {
            push_str(out, "  visibility: shadowed\n  shadowed_by: source ");
            push_decimal(out, cause.source_order as u64);
            push_str(out, " ");
            push_str(out, cause.placement.as_str());
            push_str(out, " topic ");
            push_str(out, cause.topic_key.as_str());
            push_str(out, "\n");
            assert(final(out)@ =~= old(out)@ + visibility_text(*v));
        },
    }
}

fn push_memory_block(out: &mut String, entry: &InventoryMemory)
    ensures
        final(out)@ == old(out)@ + memory_block(*entry),
{
    let m = &entry.memory;
    let ghost s0 = out@;
    push_header(out, m);
    push_optional_line(out, "  tags: ", m.tags.as_str());
    push_labeled(out, "  placement: ", m.placement.as_str());
    push_optional_line(out, "  topic: ", m.topic_key.as_str());
    let ghost s1 = out@;
    push_str(out, "  source_order: ");
    push_decimal(out, entry.source_order as u64);
    push_str(out, "\n");
    push_visibility(out, &entry.visibility);
    push_labeled(out, "  time: ", m.created_at.as_str());
    assert(out@ =~= s0 + memory_block(*entry));
}

/// The text printed for memories: one block per entry, or a notice when
/// there are none.
pub fn format_memories(memories: &Vec<InventoryMemory>) -> (r: String)
    ensures
        r@ == memories_text(memories@),
{
    if memories.len() == 0 {
        return "No local memories found.\n".to_owned();
    }
    let mut out = String::new();
    let mut i: usize = 0;
    while i < memories.len()
        invariant
            i <= memories@.len(),
            out@ == memory_blocks(memories@.take(i as int)),
        decreases memories@.len() - i,
    {
        push_memory_block(&mut out, &memories[i]);
        proof {
            let t = memories@.take(i as int + 1);
            assert(t.drop_last() =~= memories@.take(i as int));
        }
        i = i + 1;
    }
    assert(memories@.take(memories@.len() as int) =~= memories@);
    out
}

pub open spec fn count_line(c: PlacementCount) -> Seq<char> {
    "source "@ + decimal(c.source_order as nat) + " placement: "@ + c.placement@
        + " addressable_count: "@ + decimal_int(c.addressable_count as int) + " effective_count: "@
        + decimal_int(c.effective_count as int) + "\n"@
}

pub open spec fn count_lines(cs: Seq<PlacementCount>) -> Seq<char>
    decreases cs.len(),
{
    if cs.len() == 0 {
        seq![]
    } else {
        count_lines(cs.drop_last()) + count_line(cs.last())
    }
}

/// The status text: the schema version, one line per source, then the totals.
pub open spec fn status_text(s: VisibleStackStatus) -> Seq<char> {
    "schema_version: "@ + s.schema_version@ + "\n"@ + count_lines(s.placements@)
        + "addressable_total: "@ + decimal_int(s.addressable_total as int) + "\neffective_total: "@
        + decimal_int(s.effective_total as int) + "\n"@
}

pub fn format_visible_status(status: &VisibleStackStatus) -> (r: String)
    ensures
        r@ == status_text(*status),
{
    let mut out = String::new();
    push_str(&mut out, "schema_version: ");
    push_str(&mut out, status.schema_version.as_str());
    push_str(&mut out, "\n");
    let ghost head = out@;
    let mut i: usize = 0;
    while i < status.placements.len()
        invariant
            i <= status.placements@.len(),
            out@ == head + count_lines(status.placements@.take(i as int)),
        decreases status.placements@.len() - i,
    {
        let c = &status.placements[i];
        let ghost before = out@;
        push_str(&mut out, "source ");
        push_decimal(&mut out, c.source_order as u64);
        push_str(&mut out, " placement: ");
        push_str(&mut out, c.placement.as_str());
        push_str(&mut out, " addressable_count: ");
        push_decimal_i64(&mut out, c.addressable_count);
        push_str(&mut out, " effective_count: ");
        push_decimal_i64(&mut out, c.effective_count);
        push_str(&mut out, "\n");
        proof {
            assert(out@ =~= before + count_line(*c));
            let t = status.placements@.take(i as int + 1);
            assert(t.drop_last() =~= status.placements@.take(i as int));
        }
        i = i + 1;
    }
    assert(status.placements@.take(status.placements@.len() as int) =~= status.placements@);
    push_str(&mut out, "addressable_total: ");
    push_decimal_i64(&mut out, status.addressable_total);
    push_str(&mut out, "\neffective_total: ");
    push_decimal_i64(&mut out, status.effective_total);
    push_str(&mut out, "\n");
    assert(out@ =~= status_text(*status));
    out
}

pub open spec fn domain_lines(ds: Seq<Seq<char>>, prefix: Seq<char>) -> Seq<char>
    decreases ds.len(),
{
    if ds.len() == 0 {
        seq![]
    } else {
        domain_lines(ds.drop_last(), prefix) + prefix + ds.last() + "\n"@
    }
}

fn push_domain_lines(out: &mut String, domains: &Vec<DomainId>, prefix: &str)
    ensures
        final(out)@ == old(out)@ + domain_lines(domain_views(domains@), prefix@),
{
    let ghost start = out@;
    let mut i: usize = 0;
    while i < domains.len()
        invariant
            i <= domains@.len(),
            out@ == start + domain_lines(domain_views(domains@.take(i as int)), prefix@),
        decreases domains@.len() - i,
    {
        let ghost before = out@;
        push_str(out, prefix);
        push_str(out, domains[i].as_str());
        push_str(out, "\n");
        proof {
            let t = domains@.take(i as int + 1);
            assert(t.drop_last() =~= domains@.take(i as int));
            assert(domain_views(t).drop_last() =~= domain_views(domains@.take(i as int)));
            assert(out@ =~= before + prefix@ + domains@[i as int]@ + "\n"@);
        }
        i = i + 1;
    }
    assert(domains@.take(domains@.len() as int) =~= domains@);
}

pub open spec fn domains_text(ds: Seq<Seq<char>>) -> Seq<char> {
    if ds.len() == 0 {
        "No domains found.\n"@
    } else {
        domain_lines(ds, seq![])
    }
}

/// One domain per line, or a notice when there are none.
pub fn format_domains(domains: &Vec<DomainId>) -> (r: String)
    ensures
        r@ == domains_text(domain_views(domains@)),
{
    if domains.len() == 0 {
        return "No domains found.\n".to_owned();
    }
    let mut out = String::new();
    push_domain_lines(&mut out, domains, "");
    proof {
        reveal_strlit("");
        assert(""@ =~= seq![]);
    }
    out
}

pub open spec fn source_label(s: ResolutionSource) -> Seq<char> {
    match s {
        ResolutionSource::GitConfig => "git-config"@,
        ResolutionSource::Remote => "remote"@,
        ResolutionSource::GitCommonDir => "git-common-dir"@,
        ResolutionSource::Directory => "directory"@,
    }
}

/// The active scope, repository ID, how it was found, and the attached
/// domains in order.
pub open spec fn scope_show_text(scope: ResolvedScope, domains: Seq<Seq<char>>) -> Seq<char> {
    "active_scope: "@ + scope.spec_scope() + "\nrepository_id: "@ + scope.spec_repository()
        + "\nsource: "@ + source_label(scope.spec_source()) + "\nattached_domains:\n"@ + domain_lines(
        domains,
        "- "@,
    )
}

pub fn format_scope_show(scope: &ResolvedScope, domains: &Vec<DomainId>) -> (r: String)
    ensures
        r@ == scope_show_text(*scope, domain_views(domains@)),
{
    let mut out = String::new();
    push_str(&mut out, "active_scope: ");
    push_str(&mut out, scope.scope().as_str());
    push_str(&mut out, "\nrepository_id: ");
    push_str(&mut out, scope.repository().as_str());
    push_str(&mut out, "\nsource: ");
    push_str(&mut out, scope.source().label());
    push_str(&mut out, "\nattached_domains:\n");
    push_domain_lines(&mut out, domains, "- ");
    assert(out@ =~= scope_show_text(*scope, domain_views(domains@)));
    out
}

/// What a copy or move reports: the action, memory ID, placements and
/// operation ID.
pub open spec fn copy_move_text(r: CopyMoveResult) -> Seq<char> {
    (match r.action {
        crate::store::transfers::CopyMoveAction::Copy => "copied"@,
        crate::store::transfers::CopyMoveAction::Move => "moved"@,
    }) + " #"@ + decimal_int(r.memory_id as int) + " from "@ + placement_text(r.from@) + " to "@
        + placement_text(r.to@) + "\noperation_id: "@ + r.operation_id@ + "\n"@
}

pub fn format_copy_move(result: &CopyMoveResult) -> (r: String)
    ensures
        r@ == copy_move_text(*result),
{
    let mut out = String::new();
    push_str(&mut out, result.action.past_tense());
    push_str(&mut out, " #");
    push_decimal_i64(&mut out, result.memory_id);
    push_str(&mut out, " from ");
    push_str(&mut out, result.from.to_string().as_str());
    push_str(&mut out, " to ");
    push_str(&mut out, result.to.to_string().as_str());
    push_str(&mut out, "\noperation_id: ");
    push_str(&mut out, result.operation_id.as_str());
    push_str(&mut out, "\n");
    assert(out@ =~= copy_move_text(*result));
    out
}

/// What `remember` reports: the ID the memory was saved under.
pub open spec fn saved_text(id: i64) -> Seq<char> {
    "saved #"@ + decimal_int(id as int)
}

pub fn format_saved(id: i64) -> (r: String)
    ensures
        r@ == saved_text(id),
{
    let mut out = String::new();
    push_str(&mut out, "saved #");
    push_decimal_i64(&mut out, id);
    assert(out@ =~= saved_text(id));
    out
}

/// What `forget` reports: whether the memory was deleted or not found.
pub open spec fn forget_text(id: i64, deleted: bool) -> Seq<char> {
    (if deleted {
        "deleted #"@
    } else {
        "not found #"@
    }) + decimal_int(id as int)
}

pub fn format_forget(id: i64, deleted: bool) -> (r: String)
    ensures
        r@ == forget_text(id, deleted),
{
    let mut out = String::new();
    if deleted {
        push_str(&mut out, "deleted #");
    } else {
        push_str(&mut out, "not found #");
    }
    push_decimal_i64(&mut out, id);
    assert(out@ =~= forget_text(id, deleted));
    out
}

/// What `status` reports locally: the database, the repository, then the
/// visible-stack status.
pub open spec fn local_status_text(
    database: Seq<char>,
    repository: Seq<char>,
    s: VisibleStackStatus,
) -> Seq<char> {
    "database: "@ + database + "\nrepository_id: "@ + repository + "\n"@ + status_text(s)
}

pub fn format_local_status(database: &str, repository: &RepositoryId, status: &VisibleStackStatus) -> (r:
    String)
    ensures
        r@ == local_status_text(database@, repository@, *status),
{
    let mut out = String::new();
    push_str(&mut out, "database: ");
    push_str(&mut out, database);
    push_str(&mut out, "\nrepository_id: ");
    push_str(&mut out, repository.as_str());
    push_str(&mut out, "\n");
    push_str(&mut out, format_visible_status(status).as_str());
    assert(out@ =~= local_status_text(database@, repository@, *status));
    out
}

/// What `status` reports in remote mode: the server address, the repository,
/// then the visible-stack status.
pub open spec fn remote_status_text(
    address: Seq<char>,
    repository: Seq<char>,
    s: VisibleStackStatus,
) -> Seq<char> {
    "remote: "@ + address + "\nrepository_id: "@ + repository + "\n"@ + status_text(s)
}

pub fn format_remote_status(address: &str, repository: &RepositoryId, status: &VisibleStackStatus) -> (r:
    String)
    ensures
        r@ == remote_status_text(address@, repository@, *status),
{
    let mut out = String::new();
    push_str(&mut out, "remote: ");
    push_str(&mut out, address);
    push_str(&mut out, "\nrepository_id: ");
    push_str(&mut out, repository.as_str());
    push_str(&mut out, "\n");
    push_str(&mut out, format_visible_status(status).as_str());
    assert(out@ =~= remote_status_text(address@, repository@, *status));
    out
}

/// A move is destructive and must be confirmed.
#[derive(Debug, PartialEq, Eq)]
pub enum ConfirmError {
    MoveNotConfirmed,
}

pub open spec fn confirm_error_text(e: ConfirmError) -> Seq<char> {
    match e {
        ConfirmError::MoveNotConfirmed => "scope move requires --yes"@,
    }
}

impl ConfirmError {
    pub fn message(&self) -> (r: &'static str)
        ensures
            r@ == confirm_error_text(*self),
    {
        match self {
            ConfirmError::MoveNotConfirmed => "scope move requires --yes",
        }
    }
}

/// A copy goes ahead; a move goes ahead only with `--yes`.
pub fn confirm_transfer(action: CopyMoveAction, yes: bool) -> (r: Result<(), ConfirmError>)
    ensures
        action is Move && !yes ==> r == Err::<(), ConfirmError>(ConfirmError::MoveNotConfirmed),
        !(action is Move && !yes) ==> r is Ok,
{
    match action {
        CopyMoveAction::Move => if yes {
            Ok(())
        } else {
            Err(ConfirmError::MoveNotConfirmed)
        },
        CopyMoveAction::Copy => Ok(()),
    }
}

/// The placement a remote command names: the selected domain or universal
/// memory, or the current repository by default.  The server checks the
/// domain itself.
pub fn remote_placement(selector: Option<PlacementSelector>, repository: &RepositoryId) -> (r: PlacementId)
    ensures
        selector is None ==> r@ == PlacementView::Repository(repository@),
        selector matches Some(PlacementSelector::Universal) ==> r@ == PlacementView::Universal,
        selector matches Some(PlacementSelector::Domain(d)) ==> r@ == PlacementView::Domain(d@),
{
    match selector {
        Some(PlacementSelector::Domain(domain)) => PlacementId::Domain(domain),
        Some(PlacementSelector::Universal) => PlacementId::Universal,
        None => PlacementId::Repository(repository.clone()),
    }
}

/// The placement a remote recall or list is narrowed to, if a selector asks
/// for one.
pub fn remote_selected_placement(selector: Option<PlacementSelector>, repository: &RepositoryId) -> (r:
    Option<PlacementId>)
    ensures
        selector is None ==> r is None,
        selector matches Some(PlacementSelector::Universal) ==> (r matches Some(p) && p@
            == PlacementView::Universal),
        selector matches Some(PlacementSelector::Domain(d)) ==> (r matches Some(p) && p@
            == PlacementView::Domain(d@)),
{
    match selector {
        None => None,
        Some(s) => Some(remote_placement(Some(s), repository)),
    }
}

/// A domain command that either changes the domains or finds nothing to do.
#[derive(Debug, Clone, Copy, PartialEq, Eq, Structural)]
pub enum DomainChange {
    Create,
    Attach,
    Detach,
    Delete,
}

/// What a domain command reports, with the domain and a newline.
pub open spec fn domain_change_text(change: DomainChange, changed: bool, domain: Seq<char>) -> Seq<
    char,
> {
    (match change {
        DomainChange::Create => if changed {
            "created domain "@
        } else {
            "domain already exists "@
        },
        DomainChange::Attach => if changed {
            "attached domain "@
        } else {
            "domain already attached "@
        },
        DomainChange::Detach => if changed {
            "detached domain "@
        } else {
            "domain not attached "@
        },
        DomainChange::Delete => if changed {
            "deleted domain "@
        } else {
            "domain not found "@
        },
    }) + domain + "\n"@
}

pub fn format_domain_change(change: DomainChange, changed: bool, domain: &DomainId) -> (r: String)
    ensures
        r@ == domain_change_text(change, changed, domain@),
{
    let head = match change {
        DomainChange::Create => if changed {
            "created domain "
        } else {
            "domain already exists "
        },
        DomainChange::Attach => if changed {
            "attached domain "
        } else {
            "domain already attached "
        },
        DomainChange::Detach => if changed {
            "detached domain "
        } else {
            "domain not attached "
        },
        DomainChange::Delete => if changed {
            "deleted domain "
        } else {
            "domain not found "
        },
    };
    let mut out = String::new();
    push_str(&mut out, head);
    push_str(&mut out, domain.as_str());
    push_str(&mut out, "\n");
    assert(out@ =~= domain_change_text(change, changed, domain@));
    out
}

/// What `operation status` reports: the committed result, `not_found`, or
/// that the outcome is unknown.
pub open spec fn operation_status_text(status: OperationStatus) -> Seq<char> {
    match status {
        OperationStatus::Committed(result) => copy_move_text(result),
        OperationStatus::NotFound => "not_found\n"@,
        OperationStatus::Unknown => "outcome unknown\n"@,
    }
}

pub fn format_operation_status(status: &OperationStatus) -> (r: String)
    ensures
        r@ == operation_status_text(*status),
{
    match status {
        OperationStatus::Committed(result) => format_copy_move(result),
        OperationStatus::NotFound => "not_found\n".to_owned(),
        OperationStatus::Unknown => "outcome unknown\n".to_owned(),
    }
}

} // verus!
