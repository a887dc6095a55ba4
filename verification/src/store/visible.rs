//! The visible stack: repository, attached domains in order, then universal
//! memory, with topic shadowing between the tiers.
use vstd::prelude::*;

use crate::scope::{placement_text, DomainId, PlacementId, PlacementView, RepositoryId};
use crate::store::{budget_count, budget_prefix, lemma_budget_count_bound, sqlite_limit, Memory, StoreError};
use crate::text::{decimal, push_char, push_decimal, str_eq};

verus! {

/// One source of the visible stack.
#[derive(Debug, PartialEq, Eq)]
pub struct VisibleSource {
    placement: PlacementId,
}

impl View for VisibleSource {
    type V = PlacementView;

    closed spec fn view(&self) -> PlacementView {
        self.placement@
    }
}

impl VisibleSource {
    pub fn placement(&self) -> (r: &PlacementId)
        ensures
            r@ == self@,
    {
        &self.placement
    }
}

impl Clone for VisibleSource {
    fn clone(&self) -> (r: Self)
        ensures
            r@ == self@,
    {
        VisibleSource { placement: self.placement.clone() }
    }
}

pub fn single_visible_source(placement: PlacementId) -> (r: VisibleSource)
    ensures
        r@ == placement@,
{
    VisibleSource { placement }
}

/// The visible stack of a repository: the repository, its attached domains
/// in their persisted order, then universal memory.
pub fn visible_sources(repository: &RepositoryId, attached: &Vec<DomainId>) -> (r: Vec<
    VisibleSource,
>)
    ensures
        r@.len() == attached@.len() + 2,
        r@[0]@ == PlacementView::Repository(repository@),
        forall|i: int| 0 <= i < attached@.len() ==> #[trigger] r@[i + 1]@ == PlacementView::Domain(
            attached@[i]@,
        ),
        r@[attached@.len() + 1int]@ == PlacementView::Universal,
{
    let mut sources: Vec<VisibleSource> = Vec::new();
    sources.push(single_visible_source(PlacementId::Repository(repository.clone())));
    let mut i: usize = 0;
    while i < attached.len()
        invariant
            i <= attached@.len(),
            sources@.len() == i + 1,
            sources@[0]@ == PlacementView::Repository(repository@),
            forall|j: int| 0 <= j < i ==> #[trigger] sources@[j + 1]@ == PlacementView::Domain(
                attached@[j]@,
            ),
        decreases attached@.len() - i,
    {
        sources.push(single_visible_source(PlacementId::Domain(attached[i].clone())));
        i = i + 1;
    }
    sources.push(single_visible_source(PlacementId::Universal));
    sources
}

/// Why a memory is hidden: the first source in the stack that holds a memory
/// with the same topic and sits in a tier that shadows it.
#[derive(Debug, PartialEq, Eq)]
pub struct ShadowCause {
    pub source_order: usize,
    pub placement: String,
    pub topic_key: String,
}

impl Clone for ShadowCause {
    fn clone(&self) -> (r: Self)
        ensures
            r == *self,
    {
        ShadowCause {
            source_order: self.source_order,
            placement: self.placement.clone(),
            topic_key: self.topic_key.clone(),
        }
    }
}

#[derive(Debug, PartialEq, Eq)]
pub enum Visibility {
    Visible,
    Shadowed(ShadowCause),
}

impl Clone for Visibility {
    fn clone(&self) -> (r: Self)
        ensures
            r == *self,
    {
        match self {
            Visibility::Visible => Visibility::Visible,
            Visibility::Shadowed(cause) => Visibility::Shadowed(cause.clone()),
        }
    }
}

impl Visibility {
    pub fn is_visible(&self) -> (r: bool)
        ensures
            r == (*self is Visible),
    {
        match self {
            Visibility::Visible => true,
            Visibility::Shadowed(_) => false,
        }
    }
}

/// One addressable memory of the stack, with the source it came from and
/// whether it is shadowed.
#[derive(Debug, PartialEq, Eq)]
pub struct InventoryMemory {
    pub memory: Memory,
    pub source_order: usize,
    pub visibility: Visibility,
}

impl Clone for InventoryMemory {
    fn clone(&self) -> (r: Self)
        ensures
            r == *self,
    {
        InventoryMemory {
            memory: self.memory.clone(),
            source_order: self.source_order,
            visibility: self.visibility.clone(),
        }
    }
}

/// The counts of one source.
#[derive(Debug, Clone, PartialEq, Eq)]
pub struct PlacementCount {
    pub placement: String,
    pub source_order: usize,
    pub addressable_count: i64,
    pub effective_count: i64,
}

/// The schema version and addressable/effective counts of every source and
/// in total.
#[derive(Debug, Clone, PartialEq, Eq)]
pub struct VisibleStackStatus {
    pub schema_version: String,
    pub placements: Vec<PlacementCount>,
    pub addressable_total: i64,
    pub effective_total: i64,
}

// ---------------------------------------------------------------------------
// Shadowing
// ---------------------------------------------------------------------------

pub open spec fn source_views(sources: Seq<VisibleSource>) -> Seq<PlacementView> {
    sources.map_values(|s: VisibleSource| s@)
}

pub open spec fn topic_views(topics: Seq<Vec<String>>) -> Seq<Seq<Seq<char>>> {
    topics.map_values(|t: Vec<String>| t@.map_values(|s: String| s@))
}

pub open spec fn in_tier(p: PlacementView, repository: bool) -> bool {
    if repository {
        p is Repository
    } else {
        p is Domain
    }
}

/// The first source at or after `i` in the given tier whose memories use
/// topic `t`, or -1.
pub open spec fn first_in_tier(
    kinds: Seq<PlacementView>,
    topics: Seq<Seq<Seq<char>>>,
    t: Seq<char>,
    repository: bool,
    i: int,
) -> int
    decreases kinds.len() - i,
{
    if i < 0 || i >= kinds.len() {
        -1
    } else if in_tier(kinds[i], repository) && i < topics.len() && topics[i].contains(t) {
        i
    } else {
        first_in_tier(kinds, topics, t, repository, i + 1)
    }
}

/// The source that shadows a memory with topic `t` from source `k`, or -1
/// when it is visible: an empty topic never shadows; repository memories are
/// never shadowed; a domain memory is shadowed by the first repository source
/// with its topic; a universal memory by the first repository source with its
/// topic, else the first domain source with it.
pub open spec fn shadowing_source(
    kinds: Seq<PlacementView>,
    topics: Seq<Seq<Seq<char>>>,
    k: int,
    t: Seq<char>,
) -> int {
    if t.len() == 0 {
        -1
    } else {
        match kinds[k] {
            PlacementView::Repository(_) => -1,
            PlacementView::Domain(_) => first_in_tier(kinds, topics, t, true, 0),
            PlacementView::Universal => {
                let r = first_in_tier(kinds, topics, t, true, 0);
                if r >= 0 {
                    r
                } else {
                    first_in_tier(kinds, topics, t, false, 0)
                }
            },
        }
    }
}

/// `v` says what `shadowing_source` says of a memory with topic `t` from
/// source `k`.
pub open spec fn visibility_matches(
    v: Visibility,
    kinds: Seq<PlacementView>,
    topics: Seq<Seq<Seq<char>>>,
    k: int,
    t: Seq<char>,
) -> bool {
    let j = shadowing_source(kinds, topics, k, t);
    if j < 0 {
        v is Visible
    } else {
        v matches Visibility::Shadowed(c) && c.source_order == j && c.placement@ == placement_text(
            kinds[j],
        ) && c.topic_key@ == t
    }
}

pub proof fn lemma_first_in_tier(
    kinds: Seq<PlacementView>,
    topics: Seq<Seq<Seq<char>>>,
    t: Seq<char>,
    repository: bool,
    i: int,
)
    requires
        i >= 0,
    ensures
        ({
            let j = first_in_tier(kinds, topics, t, repository, i);
            &&& j == -1 || (i <= j < kinds.len() && in_tier(kinds[j], repository) && j
                < topics.len() && topics[j].contains(t))
            &&& forall|m: int|
                i <= m < kinds.len() && (j == -1 || m < j) ==> !(in_tier(kinds[m], repository) && m
                    < topics.len() && #[trigger] topics[m].contains(t))
        }),
    decreases kinds.len() - i,
{
    if i < kinds.len() && !(in_tier(kinds[i], repository) && i < topics.len() && topics[i].contains(
        t,
    )) {
        lemma_first_in_tier(kinds, topics, t, repository, i + 1);
    }
}

/// A repository memory with a non-empty topic shadows every memory of a lower
/// tier with the same topic; a domain memory shadows universal memories with
/// its topic; domains never shadow one another, and nothing shadows a
/// repository memory or a memory without a topic.
pub proof fn lemma_shadowing_tiers(
    kinds: Seq<PlacementView>,
    topics: Seq<Seq<Seq<char>>>,
    k: int,
    t: Seq<char>,
)
    requires
        0 <= k < kinds.len(),
    ensures
        t.len() == 0 ==> shadowing_source(kinds, topics, k, t) == -1,
        kinds[k] is Repository ==> shadowing_source(kinds, topics, k, t) == -1,
        kinds[k] is Domain && t.len() > 0 ==> (shadowing_source(kinds, topics, k, t) >= 0 <==> exists|j: int|
            0 <= j < kinds.len() && j < topics.len() && kinds[j] is Repository && #[trigger] topics[j].contains(t)),
        kinds[k] is Domain && shadowing_source(kinds, topics, k, t) >= 0 ==> kinds[shadowing_source(
            kinds,
            topics,
            k,
            t,
        )] is Repository,
        kinds[k] is Universal && t.len() > 0 ==> (shadowing_source(kinds, topics, k, t) >= 0 <==> exists|j: int|
            0 <= j < kinds.len() && j < topics.len() && (kinds[j] is Repository || kinds[j] is Domain)
                && #[trigger] topics[j].contains(t)),
        kinds[k] is Universal && shadowing_source(kinds, topics, k, t) >= 0 && (exists|j: int|
            0 <= j < kinds.len() && j < topics.len() && kinds[j] is Repository && #[trigger] topics[j].contains(t))
            ==> kinds[shadowing_source(kinds, topics, k, t)] is Repository,
        shadowing_source(kinds, topics, k, t) >= 0 ==> ({
            let j = shadowing_source(kinds, topics, k, t);
            0 <= j < kinds.len() && j < topics.len() && topics[j].contains(t)
        }),
{
    lemma_first_in_tier(kinds, topics, t, true, 0);
    lemma_first_in_tier(kinds, topics, t, false, 0);
    let r = first_in_tier(kinds, topics, t, true, 0);
    let d = first_in_tier(kinds, topics, t, false, 0);
    if kinds[k] is Domain && t.len() > 0 {
        if exists|j: int|
            0 <= j < kinds.len() && j < topics.len() && kinds[j] is Repository && #[trigger] topics[j].contains(t) {
            let j = choose|j: int|
                0 <= j < kinds.len() && j < topics.len() && kinds[j] is Repository && #[trigger] topics[j].contains(t);
            assert(in_tier(kinds[j], true));
        }
    }
    if kinds[k] is Universal && t.len() > 0 {
        if exists|j: int|
            0 <= j < kinds.len() && j < topics.len() && (kinds[j] is Repository || kinds[j] is Domain)
                && #[trigger] topics[j].contains(t) {
            let j = choose|j: int|
                0 <= j < kinds.len() && j < topics.len() && (kinds[j] is Repository || kinds[j] is Domain)
                    && #[trigger] topics[j].contains(t);
            if kinds[j] is Repository {
                assert(in_tier(kinds[j], true));
            } else {
                assert(in_tier(kinds[j], false));
            }
        }
        if exists|j: int|
            0 <= j < kinds.len() && j < topics.len() && kinds[j] is Repository && #[trigger] topics[j].contains(t) {
            let j = choose|j: int|
                0 <= j < kinds.len() && j < topics.len() && kinds[j] is Repository && #[trigger] topics[j].contains(t);
            assert(in_tier(kinds[j], true));
        }
    }
}

/// Removing a topic from every repository source exposes the next tier: a
/// domain memory with that topic becomes visible, and a universal memory with
/// it is shadowed by the first domain that holds it, if any.
pub proof fn lemma_removing_repository_topic_exposes_next_tier(
    kinds: Seq<PlacementView>,
    topics: Seq<Seq<Seq<char>>>,
    k: int,
    t: Seq<char>,
)
    requires
        0 <= k < kinds.len(),
        t.len() > 0,
        forall|j: int| 0 <= j < kinds.len() && j < topics.len() && kinds[j] is Repository
            ==> !(#[trigger] topics[j].contains(t)),
    ensures
        kinds[k] is Domain ==> shadowing_source(kinds, topics, k, t) == -1,
        kinds[k] is Universal ==> shadowing_source(kinds, topics, k, t) == first_in_tier(
            kinds,
            topics,
            t,
            false,
            0,
        ),
{
    lemma_first_in_tier(kinds, topics, t, true, 0);
    let r = first_in_tier(kinds, topics, t, true, 0);
    if r >= 0 {
        assert(kinds[r] is Repository);
    }
}

fn topics_contain(topics: &Vec<String>, t: &str) -> (r: bool)
    ensures
        r == topics@.map_values(|s: String| s@).contains(t@),
{
    let ghost views = topics@.map_values(|s: String| s@);
    let mut i: usize = 0;
    while i < topics.len()
        invariant
            i <= topics@.len(),
            views == topics@.map_values(|s: String| s@),
            forall|j: int| 0 <= j < i ==> views[j] != t@,
        decreases topics@.len() - i,
    {
        if str_eq(topics[i].as_str(), t) {
            assert(views[i as int] == t@);
            return true;
        }
        i = i + 1;
    }
    false
}

fn first_source_in_tier(
    sources: &Vec<VisibleSource>,
    topics: &Vec<Vec<String>>,
    t: &str,
    repository: bool,
) -> (r: Option<usize>)
    ensures
        match r {
            Some(j) => j as int == first_in_tier(
                source_views(sources@),
                topic_views(topics@),
                t@,
                repository,
                0,
            ),
            None => first_in_tier(source_views(sources@), topic_views(topics@), t@, repository, 0)
                == -1,
        },
{
    let ghost kinds = source_views(sources@);
    let ghost tv = topic_views(topics@);
    let mut i: usize = 0;
    while i < sources.len()
        invariant
            i <= sources@.len(),
            kinds == source_views(sources@),
            tv == topic_views(topics@),
            first_in_tier(kinds, tv, t@, repository, 0) == first_in_tier(
                kinds,
                tv,
                t@,
                repository,
                i as int,
            ),
        decreases sources@.len() - i,
    {
        let in_tier_now = match sources[i].placement() {
            PlacementId::Repository(_) => repository,
            PlacementId::Domain(_) => !repository,
            PlacementId::Universal => false,
        };
        assert(in_tier_now == in_tier(kinds[i as int], repository));
        if in_tier_now && i < topics.len() && topics_contain(&topics[i], t) {
            assert(tv[i as int] == topics@[i as int]@.map_values(|s: String| s@));
            return Some(i);
        }
        proof {
            if i < topics@.len() {
                assert(tv[i as int] == topics@[i as int]@.map_values(|s: String| s@));
            }
        }
        i = i + 1;
    }
    None
}

/// The visibility of a memory with topic `topic_key` from source
/// `source_order`, given the topics used in each source.
pub fn visibility_for(
    sources: &Vec<VisibleSource>,
    topics: &Vec<Vec<String>>,
    source_order: usize,
    topic_key: &str,
) -> (r: Visibility)
    requires
        source_order < sources@.len(),
    ensures
        visibility_matches(
            r,
            source_views(sources@),
            topic_views(topics@),
            source_order as int,
            topic_key@,
        ),
{
    let ghost kinds = source_views(sources@);
    let ghost tv = topic_views(topics@);
    if topic_key.is_empty() {
        return Visibility::Visible;
    }
    let found = match sources[source_order].placement() {
        PlacementId::Repository(_) => None,
        PlacementId::Domain(_) => first_source_in_tier(sources, topics, topic_key, true),
        PlacementId::Universal => match first_source_in_tier(sources, topics, topic_key, true) {
            Some(j) => Some(j),
            None => first_source_in_tier(sources, topics, topic_key, false),
        },
    };
    match found {
        None => Visibility::Visible,
        Some(j) => {
            proof {
                lemma_first_in_tier(kinds, tv, topic_key@, true, 0);
                lemma_first_in_tier(kinds, tv, topic_key@, false, 0);
            }
            Visibility::Shadowed(
                ShadowCause {
                    source_order: j,
                    placement: sources[j].placement().to_string(),
                    topic_key: topic_key.to_owned(),
                },
            )
        },
    }
}

// ---------------------------------------------------------------------------
// Inventories
// ---------------------------------------------------------------------------

/// Each memory paired with the index of the source it came from, source by
/// source in stack order.
pub open spec fn tagged(ms: Seq<Vec<Memory>>) -> Seq<(int, Memory)>
    decreases ms.len(),
{
    if ms.len() == 0 {
        seq![]
    } else {
        tagged(ms.drop_last()) + ms.last()@.map_values(|m: Memory| ((ms.len() - 1) as int, m))
    }
}

pub open spec fn entry_matches(
    e: InventoryMemory,
    tag: (int, Memory),
    kinds: Seq<PlacementView>,
    topics: Seq<Seq<Seq<char>>>,
) -> bool {
    &&& e.source_order == tag.0
    &&& e.memory == tag.1
    &&& visibility_matches(e.visibility, kinds, topics, tag.0, tag.1.topic_key@)
}

/// The inventory of the stack: every memory of every source, source by
/// source, each annotated with its source and visibility.
pub open spec fn inventory_matches(
    r: Seq<InventoryMemory>,
    sources: Seq<VisibleSource>,
    topics: Seq<Vec<String>>,
    memories: Seq<Vec<Memory>>,
) -> bool {
    &&& r.len() == tagged(memories).len()
    &&& forall|i: int|
        0 <= i < r.len() ==> entry_matches(
            #[trigger] r[i],
            tagged(memories)[i],
            source_views(sources),
            topic_views(topics),
        )
}

/// Builds the annotated inventory from the memories of each source and the
/// topics used in each source.
pub fn source_inventory(
    sources: &Vec<VisibleSource>,
    topics: &Vec<Vec<String>>,
    memories: &Vec<Vec<Memory>>,
) -> (r: Vec<InventoryMemory>)
    requires
        memories@.len() == sources@.len(),
    ensures
        inventory_matches(r@, sources@, topics@, memories@),
{
    let ghost kinds = source_views(sources@);
    let ghost tv = topic_views(topics@);
    let mut out: Vec<InventoryMemory> = Vec::new();
    let mut k: usize = 0;
    assert(memories@.take(0) =~= seq![]);
    while k < sources.len()
        invariant
            k <= sources@.len(),
            memories@.len() == sources@.len(),
            kinds == source_views(sources@),
            tv == topic_views(topics@),
            out@.len() == tagged(memories@.take(k as int)).len(),
            forall|i: int|
                0 <= i < out@.len() ==> entry_matches(
                    #[trigger] out@[i],
                    tagged(memories@.take(k as int))[i],
                    kinds,
                    tv,
                ),
        decreases sources@.len() - k,
    {
        let list = &memories[k];
        let ghost base = out@.len();
        let ghost before = tagged(memories@.take(k as int));
        let ghost added = list@.map_values(|m: Memory| (k as int, m));
        let mut j: usize = 0;
        while j < list.len()
            invariant
                k < sources@.len(),
                j <= list@.len(),
                kinds == source_views(sources@),
                tv == topic_views(topics@),
                base == before.len(),
                out@.len() == base + j,
                added == list@.map_values(|m: Memory| (k as int, m)),
                forall|i: int|
                    0 <= i < base ==> entry_matches(#[trigger] out@[i], before[i], kinds, tv),
                forall|i: int|
                    base <= i < out@.len() ==> entry_matches(
                        #[trigger] out@[i],
                        added[i - base],
                        kinds,
                        tv,
                    ),
            decreases list@.len() - j,
        {
            let memory = list[j].clone();
            let visibility = visibility_for(sources, topics, k, memory.topic_key.as_str());
            out.push(InventoryMemory { memory, source_order: k, visibility });
            j = j + 1;
        }
        proof {
            let t = memories@.take(k as int + 1);
            assert(t.drop_last() =~= memories@.take(k as int));
            assert(t.last() == memories@[k as int]);
            assert(tagged(t) == before + added);
            assert forall|i: int| 0 <= i < out@.len() implies entry_matches(
                #[trigger] out@[i],
                tagged(t)[i],
                kinds,
                tv,
            ) by {
                if i < base {
                    assert(tagged(t)[i] == before[i]);
                } else {
                    assert(tagged(t)[i] == added[i - base]);
                }
            }
        }
        k = k + 1;
    }
    assert(memories@.take(sources@.len() as int) =~= memories@);
    out
}

/// The inventory a search finds: none when the search has no words, else the
/// annotated memories each source matched.
pub fn recall_inventory(
    prepared_query: &str,
    sources: &Vec<VisibleSource>,
    topics: &Vec<Vec<String>>,
    recalled: &Vec<Vec<Memory>>,
) -> (r: Vec<InventoryMemory>)
    requires
        recalled@.len() == sources@.len(),
    ensures
        prepared_query@.len() == 0 ==> r@.len() == 0,
        prepared_query@.len() > 0 ==> inventory_matches(r@, sources@, topics@, recalled@),
{
    if prepared_query.is_empty() {
        return Vec::new();
    }
    source_inventory(sources, topics, recalled)
}

pub open spec fn visible_entries(inventory: Seq<InventoryMemory>) -> Seq<InventoryMemory> {
    inventory.filter(|e: InventoryMemory| e.visibility is Visible)
}

pub open spec fn inventory_lengths(inventory: Seq<InventoryMemory>) -> Seq<nat> {
    inventory.map_values(|e: InventoryMemory| e.memory.content@.len())
}

/// What a search shows: the visible entries, at most `limit` of them, cut to
/// the character budget.
pub open spec fn recall_result(
    inventory: Seq<InventoryMemory>,
    limit: nat,
    max_chars: Option<usize>,
) -> Seq<InventoryMemory> {
    let v = visible_entries(inventory);
    let cut = if limit < v.len() {
        v.take(limit as int)
    } else {
        v
    };
    match max_chars {
        None => cut,
        Some(max) => cut.take(budget_count(inventory_lengths(cut), max as nat, 0, true) as int),
    }
}

fn visible_only(inventory: &Vec<InventoryMemory>) -> (r: Vec<InventoryMemory>)
    ensures
        r@ == visible_entries(inventory@),
{
    let mut out: Vec<InventoryMemory> = Vec::new();
    let mut i: usize = 0;
    while i < inventory.len()
        invariant
            i <= inventory@.len(),
            out@ == visible_entries(inventory@.take(i as int)),
        decreases inventory@.len() - i,
    {
        proof {
            let t = inventory@.take(i as int + 1);
            assert(t.drop_last() =~= inventory@.take(i as int));
            reveal(Seq::filter);
            assert(t.last() == inventory@[i as int]);
        }
        if inventory[i].visibility.is_visible() {
            out.push(inventory[i].clone());
        }
        i = i + 1;
    }
    assert(inventory@.take(inventory@.len() as int) =~= inventory@);
    out
}

fn take_inventory_budget(entries: Vec<InventoryMemory>, max_chars: usize) -> (r: Vec<
    InventoryMemory,
>)
    ensures
        r@ == entries@.take(budget_count(inventory_lengths(entries@), max_chars as nat, 0, true) as int),
{
    let mut lengths: Vec<usize> = Vec::new();
    let mut i: usize = 0;
    while i < entries.len()
        invariant
            i <= entries@.len(),
            lengths@.len() == i,
            forall|k: int| 0 <= k < i ==> #[trigger] lengths@[k] as nat == entries@[k].memory.content@.len(),
        decreases entries@.len() - i,
    {
        lengths.push(entries[i].memory.content.as_str().unicode_len());
        i = i + 1;
    }
    assert(lengths@.map_values(|n: usize| n as nat) =~= inventory_lengths(entries@));
    let k = budget_prefix(&lengths, max_chars);
    proof {
        lemma_budget_count_bound(inventory_lengths(entries@), max_chars as nat, 0, true);
    }
    let mut out = entries;
    out.truncate(k);
    out
}

/// Recall over the stack: only visible entries, then the limit, then the
/// character budget; a limit beyond SQLite's range is refused.
pub fn recall_visible(inventory: &Vec<InventoryMemory>, limit: usize, max_chars: Option<usize>) -> (r:
    Result<Vec<InventoryMemory>, StoreError>)
    ensures
        limit > i64::MAX ==> r matches Err(StoreError::LimitOutOfRange),
        limit <= i64::MAX ==> (r matches Ok(v) && v@ == recall_result(inventory@, limit as nat, max_chars)),
{
    if sqlite_limit(limit).is_err() {
        return Err(StoreError::LimitOutOfRange);
    }
    let mut visible = visible_only(inventory);
    let ghost all = visible@;
    visible.truncate(limit);
    proof {
        if (limit as int) < all.len() {
            assert(visible@ =~= all.take(limit as int));
        }
    }
    let ghost cut = if (limit as nat) < all.len() {
        all.take(limit as int)
    } else {
        all
    };
    assert(visible@ == cut);
    assert(all == visible_entries(inventory@));
    match max_chars {
        None => Ok(visible),
        Some(max) => {
            let r = take_inventory_budget(visible, max);
            assert(r@ == recall_result(inventory@, limit as nat, max_chars));
            Ok(r)
        },
    }
}

/// Listing over the stack: the first `limit` entries, shadowed ones included.
pub fn list_inventory(inventory: Vec<InventoryMemory>, limit: usize) -> (r: Result<
    Vec<InventoryMemory>,
    StoreError,
>)
    ensures
        limit > i64::MAX ==> r matches Err(StoreError::LimitOutOfRange),
        limit <= i64::MAX ==> (r matches Ok(v) && v@ == (if limit < inventory@.len() {
            inventory@.take(limit as int)
        } else {
            inventory@
        })),
{
    if sqlite_limit(limit).is_err() {
        return Err(StoreError::LimitOutOfRange);
    }
    let mut out = inventory;
    out.truncate(limit);
    Ok(out)
}

// ---------------------------------------------------------------------------
// Status
// ---------------------------------------------------------------------------

/// The number of entries from source `k` (only visible ones when
/// `effective`).
pub open spec fn count_at(inventory: Seq<InventoryMemory>, k: int, effective: bool) -> nat
    decreases inventory.len(),
{
    if inventory.len() == 0 {
        0
    } else {
        count_at(inventory.drop_last(), k, effective) + if inventory.last().source_order == k && (
        !effective || inventory.last().visibility is Visible) {
            1nat
        } else {
            0nat
        }
    }
}

/// The number of entries (only visible ones when `effective`).
pub open spec fn count_all(inventory: Seq<InventoryMemory>, effective: bool) -> nat
    decreases inventory.len(),
{
    if inventory.len() == 0 {
        0
    } else {
        count_all(inventory.drop_last(), effective) + if !effective || inventory.last().visibility is Visible {
            1nat
        } else {
            0nat
        }
    }
}

/// The sum of the per-source counts of sources `0..n`.
pub open spec fn sum_counts(inventory: Seq<InventoryMemory>, n: int, effective: bool) -> nat
    decreases n,
{
    if n <= 0 {
        0
    } else {
        sum_counts(inventory, n - 1, effective) + count_at(inventory, n - 1, effective)
    }
}

pub proof fn lemma_count_bounds(inventory: Seq<InventoryMemory>, k: int, effective: bool)
    ensures
        count_at(inventory, k, effective) <= inventory.len(),
        count_all(inventory, effective) <= inventory.len(),
        count_all(inventory, false) == inventory.len(),
    decreases inventory.len(),
{
    if inventory.len() > 0 {
        lemma_count_bounds(inventory.drop_last(), k, effective);
    }
}

proof fn lemma_sum_counts_empty(inventory: Seq<InventoryMemory>, n: int, effective: bool)
    requires
        inventory.len() == 0,
    ensures
        sum_counts(inventory, n, effective) == 0,
    decreases n,
{
    if n > 0 {
        lemma_sum_counts_empty(inventory, n - 1, effective);
    }
}

/// When every entry comes from one of the sources `0..n`, the per-source
/// counts add up to the totals.
pub proof fn lemma_counts_add_up(inventory: Seq<InventoryMemory>, n: int, effective: bool)
    requires
        n >= 0,
        forall|i: int| 0 <= i < inventory.len() ==> #[trigger] inventory[i].source_order < n,
    ensures
        sum_counts(inventory, n, effective) == count_all(inventory, effective),
    decreases inventory.len(),
{
    if inventory.len() > 0 {
        let init = inventory.drop_last();
        assert forall|i: int| 0 <= i < init.len() implies #[trigger] init[i].source_order < n by {
            assert(init[i] == inventory[i]);
        }
        lemma_counts_add_up(init, n, effective);
        lemma_sum_counts_step(inventory, n, effective);
    } else {
        lemma_sum_counts_empty(inventory, n, effective);
    }
}

proof fn lemma_sum_counts_step(inventory: Seq<InventoryMemory>, n: int, effective: bool)
    requires
        inventory.len() > 0,
        n >= 0,
        inventory.last().source_order < n,
    ensures
        sum_counts(inventory, n, effective) == sum_counts(inventory.drop_last(), n, effective) + (
        if !effective || inventory.last().visibility is Visible {
            1nat
        } else {
            0nat
        }),
    decreases n,
{
    if n > 0 {
        if inventory.last().source_order < n - 1 {
            lemma_sum_counts_step(inventory, n - 1, effective);
        } else {
            lemma_sum_counts_unaffected(inventory, n - 1, effective);
        }
    }
}

proof fn lemma_sum_counts_unaffected(inventory: Seq<InventoryMemory>, n: int, effective: bool)
    requires
        inventory.len() > 0,
        n >= 0,
        inventory.last().source_order >= n,
    ensures
        sum_counts(inventory, n, effective) == sum_counts(inventory.drop_last(), n, effective),
    decreases n,
{
    if n > 0 {
        lemma_sum_counts_unaffected(inventory, n - 1, effective);
    }
}

/// A source's visible entries are among its entries.
pub proof fn lemma_effective_within_addressable(inventory: Seq<InventoryMemory>, k: int)
    ensures
        count_at(inventory, k, true) <= count_at(inventory, k, false),
    decreases inventory.len(),
{
    if inventory.len() > 0 {
        lemma_effective_within_addressable(inventory.drop_last(), k);
    }
}

/// The sum of the placements' addressable counts, or of their effective
/// counts when `effective`.
pub open spec fn placement_total(ps: Seq<PlacementCount>, effective: bool) -> int
    decreases ps.len(),
{
    if ps.len() == 0 {
        0
    } else {
        placement_total(ps.drop_last(), effective) + if effective {
            ps.last().effective_count as int
        } else {
            ps.last().addressable_count as int
        }
    }
}

/// Placements that carry the per-source counts of an inventory sum to the
/// sum of those counts.
proof fn lemma_placement_total(ps: Seq<PlacementCount>, inventory: Seq<InventoryMemory>, effective: bool)
    requires
        forall|k: int|
            0 <= k < ps.len() ==> {
                let c = #[trigger] ps[k];
                &&& c.addressable_count == count_at(inventory, k, false)
                &&& c.effective_count == count_at(inventory, k, true)
            },
    ensures
        placement_total(ps, effective) == sum_counts(inventory, ps.len() as int, effective),
    decreases ps.len(),
{
    if ps.len() > 0 {
        let init = ps.drop_last();
        assert forall|k: int| 0 <= k < init.len() implies {
            let c = #[trigger] init[k];
            &&& c.addressable_count == count_at(inventory, k, false)
            &&& c.effective_count == count_at(inventory, k, true)
        } by {
            assert(init[k] == ps[k]);
        }
        lemma_placement_total(init, inventory, effective);
        assert(ps[ps.len() - 1] == ps.last());
    }
}

proof fn lemma_tagged_sources(ms: Seq<Vec<Memory>>)
    ensures
        forall|i: int| 0 <= i < tagged(ms).len() ==> 0 <= #[trigger] tagged(ms)[i].0 < ms.len(),
    decreases ms.len(),
{
    if ms.len() > 0 {
        let init = ms.drop_last();
        lemma_tagged_sources(init);
        let head = tagged(init);
        let tail = ms.last()@.map_values(|m: Memory| ((ms.len() - 1) as int, m));
        assert forall|i: int| 0 <= i < tagged(ms).len() implies 0 <= #[trigger] tagged(ms)[i].0
            < ms.len() by {
            if i < head.len() {
                assert(tagged(ms)[i] == head[i]);
            } else {
                assert(tagged(ms)[i] == tail[i - head.len()]);
            }
        }
    }
}

/// Every entry of a stack inventory comes from one of the stack's sources,
/// so the totals that `visible_status` reports for it are the sums of its
/// per-source counts.
pub proof fn lemma_inventory_names_its_sources(
    inventory: Seq<InventoryMemory>,
    sources: Seq<VisibleSource>,
    topics: Seq<Vec<String>>,
    memories: Seq<Vec<Memory>>,
)
    requires
        memories.len() == sources.len(),
        inventory_matches(inventory, sources, topics, memories),
    ensures
        forall|i: int| 0 <= i < inventory.len() ==> #[trigger] inventory[i].source_order < sources.len(),
{
    lemma_tagged_sources(memories);
    assert forall|i: int| 0 <= i < inventory.len() implies #[trigger] inventory[i].source_order
        < sources.len() by {
        assert(entry_matches(
            inventory[i],
            tagged(memories)[i],
            source_views(sources),
            topic_views(topics),
        ));
    }
}

fn count_entries(inventory: &Vec<InventoryMemory>, source_order: usize, effective_only: bool) -> (r:
    usize)
    ensures
        r == count_at(inventory@, source_order as int, effective_only),
{
    let mut count: usize = 0;
    let mut i: usize = 0;
    while i < inventory.len()
        invariant
            i <= inventory@.len(),
            count == count_at(inventory@.take(i as int), source_order as int, effective_only),
        decreases inventory@.len() - i,
    {
        proof {
            let t = inventory@.take(i as int + 1);
            assert(t.drop_last() =~= inventory@.take(i as int));
            lemma_count_bounds(inventory@.take(i as int), source_order as int, effective_only);
        }
        if inventory[i].source_order == source_order && (!effective_only
            || inventory[i].visibility.is_visible()) {
            count = count + 1;
        }
        i = i + 1;
    }
    assert(inventory@.take(inventory@.len() as int) =~= inventory@);
    count
}

fn count_visible(inventory: &Vec<InventoryMemory>) -> (r: usize)
    ensures
        r == count_all(inventory@, true),
{
    let mut count: usize = 0;
    let mut i: usize = 0;
    while i < inventory.len()
        invariant
            i <= inventory@.len(),
            count == count_all(inventory@.take(i as int), true),
        decreases inventory@.len() - i,
    {
        proof {
            let t = inventory@.take(i as int + 1);
            assert(t.drop_last() =~= inventory@.take(i as int));
            lemma_count_bounds(inventory@.take(i as int), 0, true);
        }
        if inventory[i].visibility.is_visible() {
            count = count + 1;
        }
        i = i + 1;
    }
    assert(inventory@.take(inventory@.len() as int) =~= inventory@);
    count
}

fn count_as_i64(count: usize) -> (r: Result<i64, StoreError>)
    ensures
        count <= i64::MAX ==> r == Ok::<i64, StoreError>(count as i64),
        count > i64::MAX ==> r == Err::<i64, StoreError>(StoreError::CountOutOfRange),
{
    if (count as u64) <= (i64::MAX as u64) {
        Ok(count as i64)
    } else {
        Err(StoreError::CountOutOfRange)
    }
}

/// The schema version text `major.minor`.
pub fn schema_version_text(major: i64, minor: i64) -> (r: String)
    ensures
        r@ == crate::text::decimal_int(major as int) + seq!['.'] + crate::text::decimal_int(
            minor as int,
        ),
{
    let mut out = String::new();
    crate::text::push_decimal_i64(&mut out, major);
    push_char(&mut out, '.');
    crate::text::push_decimal_i64(&mut out, minor);
    assert(out@ =~= crate::text::decimal_int(major as int) + seq!['.'] + crate::text::decimal_int(
        minor as int,
    ));
    out
}

/// The status of the stack: for every source its placement, order,
/// addressable count and effective (visible) count, and both totals.
pub fn visible_status(
    sources: &Vec<VisibleSource>,
    inventory: &Vec<InventoryMemory>,
    schema_version: String,
) -> (r: Result<VisibleStackStatus, StoreError>)
    ensures
        inventory@.len() <= i64::MAX ==> (r matches Ok(s) && {
            &&& s.schema_version == schema_version
            &&& s.placements@.len() == sources@.len()
            &&& forall|k: int|
                0 <= k < sources@.len() ==> {
                    let c = #[trigger] s.placements@[k];
                    &&& c.placement@ == placement_text(sources@[k]@)
                    &&& c.source_order == k
                    &&& c.addressable_count == count_at(inventory@, k, false)
                    &&& c.effective_count == count_at(inventory@, k, true)
                    &&& c.effective_count <= c.addressable_count
                }
            &&& s.addressable_total == inventory@.len()
            &&& s.effective_total == count_all(inventory@, true)
        }),
        inventory@.len() <= i64::MAX && (forall|i: int|
            0 <= i < inventory@.len() ==> #[trigger] inventory@[i].source_order < sources@.len())
            ==> (r matches Ok(s) && s.addressable_total == placement_total(s.placements@, false)
            && s.effective_total == placement_total(s.placements@, true)),
        inventory@.len() > i64::MAX ==> r matches Err(StoreError::CountOutOfRange),
{
    let mut placements: Vec<PlacementCount> = Vec::new();
    let mut k: usize = 0;
    while k < sources.len()
        invariant
            k <= sources@.len(),
            placements@.len() == k,
            forall|j: int|
                0 <= j < k ==> {
                    let c = #[trigger] placements@[j];
                    &&& c.placement@ == placement_text(sources@[j]@)
                    &&& c.source_order == j
                    &&& c.addressable_count == count_at(inventory@, j, false)
                    &&& c.effective_count == count_at(inventory@, j, true)
                    &&& c.effective_count <= c.addressable_count
                },
        decreases sources@.len() - k,
    {
        proof {
            lemma_count_bounds(inventory@, k as int, false);
            lemma_count_bounds(inventory@, k as int, true);
            lemma_effective_within_addressable(inventory@, k as int);
        }
        let addressable = count_as_i64(count_entries(inventory, k, false))?;
        let effective = count_as_i64(count_entries(inventory, k, true))?;
        placements.push(
            PlacementCount {
                placement: sources[k].placement().to_string(),
                source_order: k,
                addressable_count: addressable,
                effective_count: effective,
            },
        );
        k = k + 1;
    }
    let addressable_total = match count_as_i64(inventory.len()) {
        Ok(n) => n,
        Err(e) => return Err(e),
    };
    proof {
        lemma_count_bounds(inventory@, 0, true);
    }
    let effective_total = count_as_i64(count_visible(inventory))?;
    proof {
        lemma_count_bounds(inventory@, 0, false);
        lemma_placement_total(placements@, inventory@, false);
        lemma_placement_total(placements@, inventory@, true);
        if forall|i: int|
            0 <= i < inventory@.len() ==> #[trigger] inventory@[i].source_order < sources@.len() {
            lemma_counts_add_up(inventory@, sources@.len() as int, false);
            lemma_counts_add_up(inventory@, sources@.len() as int, true);
        }
    }
    Ok(VisibleStackStatus { schema_version, placements, addressable_total, effective_total })
}

} // verus!
