//! The interactive menu's state, key handling, paging and status text.
use vstd::prelude::*;

use crate::store::visible::{InventoryMemory, PlacementCount, VisibleStackStatus};
use crate::server::Route;
use crate::text::{decimal, decimal_int, push_char, push_decimal, push_decimal_i64, push_str, starts_with};

verus! {

/// The menu: status, the visible inventory, and exit.
pub const ACTIONS: [&'static str; 3] = ["Status", "List visible memories", "Exit"];

pub const INVENTORY_PAGE_STEP: usize = 3;

pub const WELCOME_MESSAGE: &'static str = "Recall-first, then answer. Value-store decisions, preferences, tasks, agreements, and context.";

/// One entry of the inventory at a time, with the position of the shown one.
#[derive(Debug)]
pub struct InventoryPage {
    memories: Vec<InventoryMemory>,
    index: usize,
}

impl InventoryPage {
    #[verifier::type_invariant]
    spec fn well_formed(self) -> bool {
        if self.memories@.len() == 0 {
            self.index == 0
        } else {
            self.index < self.memories@.len()
        }
    }

    pub closed spec fn spec_memories(&self) -> Seq<InventoryMemory> {
        self.memories@
    }

    pub closed spec fn spec_index(&self) -> int {
        self.index as int
    }

    pub fn new(memories: Vec<InventoryMemory>) -> (r: InventoryPage)
        ensures
            r.spec_memories() == memories@,
            r.spec_index() == 0,
    {
        InventoryPage { memories, index: 0 }
    }

    pub fn memories(&self) -> (r: &Vec<InventoryMemory>)
        ensures
            r@ == self.spec_memories(),
    {
        &self.memories
    }

    /// Moves `step` entries on, stopping at the last one.
    pub fn forward(&mut self, step: usize)
        ensures
            final(self).spec_memories() == old(self).spec_memories(),
            final(self).spec_index() == min(
                old(self).spec_index() + step,
                max(old(self).spec_memories().len() - 1, 0),
            ),
    {
        proof {
            use_type_invariant(&*self);
        }
        let last = self.memories.len().saturating_sub(1);
        let next = self.index.saturating_add(step);
        self.index = if next < last {
            next
        } else {
            last
        };
    }

    /// Moves `step` entries back, stopping at the first one.
    pub fn backward(&mut self, step: usize)
        ensures
            final(self).spec_memories() == old(self).spec_memories(),
            final(self).spec_index() == max(old(self).spec_index() - step, 0),
    {
        proof {
            use_type_invariant(&*self);
        }
        self.index = self.index.saturating_sub(step);
    }

    /// The entry shown, if there is one.
    pub fn current(&self) -> (r: Vec<InventoryMemory>)
        ensures
            self.spec_memories().len() == 0 ==> r@.len() == 0,
            self.spec_memories().len() > 0 ==> r@ == seq![self.spec_memories()[self.spec_index()]],
    {
        proof {
            use_type_invariant(self);
        }
        let mut out: Vec<InventoryMemory> = Vec::new();
        if self.index < self.memories.len() {
            out.push(self.memories[self.index].clone());
        }
        assert(out@ =~= if self.memories@.len() > 0 {
            seq![self.memories@[self.index as int]]
        } else {
            seq![]
        });
        out
    }

    /// The 1-based position of the shown entry, or 0 when there is none.
    pub fn position(&self) -> (r: usize)
        ensures
            self.spec_memories().len() == 0 ==> r == 0,
            self.spec_memories().len() > 0 ==> r == self.spec_index() + 1,
            r <= self.spec_memories().len(),
    {
        proof {
            use_type_invariant(self);
        }
        if self.memories.len() == 0 {
            0
        } else {
            self.index + 1
        }
    }
}

pub open spec fn min(a: int, b: int) -> int {
    if a < b {
        a
    } else {
        b
    }
}

pub open spec fn max(a: int, b: int) -> int {
    if a > b {
        a
    } else {
        b
    }
}

/// What the lower panel shows.
#[derive(Debug)]
pub enum UiView {
    Message(String),
    Inventory(InventoryPage),
}

/// The selected menu entry and the lower panel.
#[derive(Debug)]
pub struct UiState {
    pub selected: usize,
    pub view: UiView,
}

pub open spec fn welcome_view(v: UiView) -> bool {
    v matches UiView::Message(m) && m@ == WELCOME_MESSAGE@
}

impl UiState {
    pub fn new() -> (r: UiState)
        ensures
            r.selected == 0,
            welcome_view(r.view),
    {
        UiState { selected: 0, view: UiView::Message(WELCOME_MESSAGE.to_owned()) }
    }

    pub fn message(selected: usize, message: &str) -> (r: UiState)
        ensures
            r.selected == selected,
            r.view matches UiView::Message(m) && m@ == message@,
    {
        UiState { selected, view: UiView::Message(message.to_owned()) }
    }
}

/// What the menu loop does after a key.
#[derive(Debug, Clone, Copy, PartialEq, Eq, Structural)]
pub enum UiCommand {
    Continue,
    Exit,
    ShowStatus,
    ShowInventory,
}

/// The keys the menu reads.
#[derive(Debug, Clone, Copy, PartialEq, Eq, Structural)]
pub enum Key {
    Char(char),
    Esc,
    Left,
    Up,
    Down,
    PageUp,
    PageDown,
    Enter,
    Other,
}

pub open spec fn page_of(v: UiView) -> InventoryPage
    recommends
        v is Inventory,
{
    match v {
        UiView::Inventory(p) => p,
        _ => arbitrary(),
    }
}

/// The page after moving: same entries, new index.
pub open spec fn moved(before: UiView, after: UiView, index: int) -> bool {
    after matches UiView::Inventory(p) && p.spec_memories() == page_of(before).spec_memories()
        && p.spec_index() == index
}

/// Applies a key: `q` exits; Esc leaves the inventory for the menu, or exits
/// from the menu; Left or `h` leaves the inventory; Up/`k` and Down/`j` move
/// within the inventory or the menu; PageUp and PageDown move three entries
/// within the inventory; Enter runs the selected menu entry; anything else
/// does nothing.
pub fn handle_key(state: &mut UiState, key: Key) -> (r: UiCommand)
    requires
        (key == Key::Down || key == Key::Char('j')) && old(state).view is Message ==> old(
            state,
        ).selected < usize::MAX,
    ensures
        ({
            let inventory = old(state).view is Inventory;
            let len = page_of(old(state).view).spec_memories().len() as int;
            let index = page_of(old(state).view).spec_index();
            if key == Key::Char('q') {
                r == UiCommand::Exit && *final(state) == *old(state)
            } else if key == Key::Esc && inventory {
                r == UiCommand::Continue && final(state).selected == old(state).selected
                    && welcome_view(final(state).view)
            } else if key == Key::Esc {
                r == UiCommand::Exit && *final(state) == *old(state)
            } else if (key == Key::Left || key == Key::Char('h')) && inventory {
                r == UiCommand::Continue && final(state).selected == old(state).selected
                    && welcome_view(final(state).view)
            } else if key == Key::Up || key == Key::Char('k') {
                r == UiCommand::Continue && if inventory {
                    final(state).selected == old(state).selected && moved(
                        old(state).view,
                        final(state).view,
                        max(index - 1, 0),
                    )
                } else {
                    final(state).selected == max(old(state).selected - 1, 0) && final(state).view
                        == old(state).view
                }
            } else if key == Key::Down || key == Key::Char('j') {
                r == UiCommand::Continue && if inventory {
                    final(state).selected == old(state).selected && moved(
                        old(state).view,
                        final(state).view,
                        min(index + 1, max(len - 1, 0)),
                    )
                } else {
                    final(state).selected == min(old(state).selected + 1, 2) && final(state).view
                        == old(state).view
                }
            } else if key == Key::PageUp && inventory {
                r == UiCommand::Continue && final(state).selected == old(state).selected && moved(
                    old(state).view,
                    final(state).view,
                    max(index - 3, 0),
                )
            } else if key == Key::PageDown && inventory {
                r == UiCommand::Continue && final(state).selected == old(state).selected && moved(
                    old(state).view,
                    final(state).view,
                    min(index + 3, max(len - 1, 0)),
                )
            } else if key == Key::Enter && !inventory {
                *final(state) == *old(state) && r == if old(state).selected == 0 {
                    UiCommand::ShowStatus
                } else if old(state).selected == 1 {
                    UiCommand::ShowInventory
                } else {
                    UiCommand::Exit
                }
            } else {
                r == UiCommand::Continue && *final(state) == *old(state)
            }
        }),
{
    let inventory = match &state.view {
        UiView::Inventory(_) => true,
        UiView::Message(_) => false,
    };
    match key {
        Key::Char('q') => UiCommand::Exit,
        Key::Esc => {
            if inventory {
                state.view = UiView::Message(WELCOME_MESSAGE.to_owned());
                UiCommand::Continue
            } else {
                UiCommand::Exit
            }
        },
        Key::Left if inventory => {
            state.view = UiView::Message(WELCOME_MESSAGE.to_owned());
            UiCommand::Continue
        },
        Key::Char('h') if inventory => {
            state.view = UiView::Message(WELCOME_MESSAGE.to_owned());
            UiCommand::Continue
        },
        Key::Up | Key::Char('k') => {
            match &mut state.view {
                UiView::Inventory(page) => page.backward(1),
                UiView::Message(_) => {
                    state.selected = state.selected.saturating_sub(1);
                },
            }
            UiCommand::Continue
        },
        Key::Down | Key::Char('j') => {
            match &mut state.view {
                UiView::Inventory(page) => page.forward(1),
                UiView::Message(_) => {
                    let next = state.selected + 1;
                    state.selected = if next < 2 {
                        next
                    } else {
                        2
                    };
                },
            }
            UiCommand::Continue
        },
        Key::PageUp => {
            if let UiView::Inventory(page) = &mut state.view {
                page.backward(INVENTORY_PAGE_STEP);
            }
            UiCommand::Continue
        },
        Key::PageDown => {
            if let UiView::Inventory(page) = &mut state.view {
                page.forward(INVENTORY_PAGE_STEP);
            }
            UiCommand::Continue
        },
        Key::Enter => {
            if inventory {
                UiCommand::Continue
            } else if state.selected == 0 {
                UiCommand::ShowStatus
            } else if state.selected == 1 {
                UiCommand::ShowInventory
            } else {
                UiCommand::Exit
            }
        },
        _ => UiCommand::Continue,
    }
}

// ---------------------------------------------------------------------------
// Status text
// ---------------------------------------------------------------------------

/// A source's placement as the compact status shows it: `repository` for the
/// current repository, else the placement.
pub open spec fn compact_placement(p: Seq<char>) -> Seq<char> {
    if starts_with(p, "repository:"@) {
        "repository"@
    } else {
        p
    }
}

pub open spec fn compact_line(c: PlacementCount) -> Seq<char> {
    decimal(c.source_order as nat) + " "@ + compact_placement(c.placement@) + " "@ + decimal_int(
        c.addressable_count as int,
    ) + "/"@ + decimal_int(c.effective_count as int) + "\n"@
}

pub open spec fn compact_lines(cs: Seq<PlacementCount>) -> Seq<char>
    decreases cs.len(),
{
    if cs.len() == 0 {
        seq![]
    } else {
        compact_lines(cs.drop_last()) + compact_line(cs.last())
    }
}

/// The compact status: schema, one line per source, then the totals.
pub open spec fn compact_status(s: VisibleStackStatus) -> Seq<char> {
    "schema: "@ + s.schema_version@ + "\n"@ + compact_lines(s.placements@)
        + "total addressable/effective: "@ + decimal_int(s.addressable_total as int) + "/"@
        + decimal_int(s.effective_total as int)
}

fn push_compact_line(out: &mut String, c: &PlacementCount)
    ensures
        final(out)@ == old(out)@ + compact_line(*c),
{
    push_decimal(out, c.source_order as u64);
    push_str(out, " ");
    let chars = crate::text::chars_of(c.placement.as_str());
    let prefix = crate::text::literal("repository:");
    if crate::text::chars_start_with(&chars, &prefix) {
        push_str(out, "repository");
    } else {
        push_str(out, c.placement.as_str());
    }
    push_str(out, " ");
    push_decimal_i64(out, c.addressable_count);
    push_str(out, "/");
    push_decimal_i64(out, c.effective_count);
    push_str(out, "\n");
    assert(final(out)@ =~= old(out)@ + compact_line(*c));
}

pub fn format_tui_status(status: &VisibleStackStatus) -> (r: String)
    ensures
        r@ == compact_status(*status),
{
    let mut out = String::new();
    push_str(&mut out, "schema: ");
    push_str(&mut out, status.schema_version.as_str());
    push_str(&mut out, "\n");
    let ghost head = out@;
    let mut i: usize = 0;
    while i < status.placements.len()
        invariant
            i <= status.placements@.len(),
            out@ == head + compact_lines(status.placements@.take(i as int)),
        decreases status.placements@.len() - i,
    {
        push_compact_line(&mut out, &status.placements[i]);
        proof {
            let t = status.placements@.take(i as int + 1);
            assert(t.drop_last() =~= status.placements@.take(i as int));
        }
        i = i + 1;
    }
    assert(status.placements@.take(status.placements@.len() as int) =~= status.placements@);
    push_str(&mut out, "total addressable/effective: ");
    push_decimal_i64(&mut out, status.addressable_total);
    push_str(&mut out, "/");
    push_decimal_i64(&mut out, status.effective_total);
    assert(out@ =~= compact_status(*status));
    out
}

// ---------------------------------------------------------------------------
// Remote inventory
// ---------------------------------------------------------------------------

#[derive(Debug, PartialEq, Eq)]
pub enum InventoryError {
    CountOutOfRange,
    CountMismatch,
}

/// The text of each inventory error.
pub open spec fn inventory_error_text(e: InventoryError) -> Seq<char> {
    match e {
        InventoryError::CountOutOfRange => "远程 addressable inventory count 超出本地范围"@,
        InventoryError::CountMismatch => "remote inventory response count does not match status"@,
    }
}

impl InventoryError {
    pub fn message(&self) -> (r: &'static str)
        ensures
            r@ == inventory_error_text(*self),
    {
        match self {
            InventoryError::CountOutOfRange => {
                "远程 addressable inventory count 超出本地范围"
            },
            InventoryError::CountMismatch => "remote inventory response count does not match status",
        }
    }
}

/// The number of entries to ask the remote for: its addressable total, which
/// must fit a local count.
pub fn inventory_limit(addressable_total: i64) -> (r: Result<usize, InventoryError>)
    ensures
        0 <= addressable_total <= usize::MAX ==> r == Ok::<usize, InventoryError>(
            addressable_total as usize,
        ),
        !(0 <= addressable_total <= usize::MAX) ==> r == Err::<usize, InventoryError>(
            InventoryError::CountOutOfRange,
        ),
{
    if addressable_total < 0 || (addressable_total as u64) > (usize::MAX as u64) {
        Err(InventoryError::CountOutOfRange)
    } else {
        Ok(addressable_total as usize)
    }
}

/// A remote inventory is accepted only when it holds exactly the number of
/// entries the status announced.
pub fn check_inventory_count(limit: usize, inventory: Vec<InventoryMemory>) -> (r: Result<
    Vec<InventoryMemory>,
    InventoryError,
>)
    ensures
        inventory@.len() == limit ==> (r matches Ok(v) && v@ == inventory@),
        inventory@.len() != limit ==> r == Err::<Vec<InventoryMemory>, InventoryError>(
            InventoryError::CountMismatch,
        ),
{
    if inventory.len() != limit {
        Err(InventoryError::CountMismatch)
    } else {
        Ok(inventory)
    }
}

/// What has happened so far while loading a remote inventory.
pub enum InventoryEvent {
    /// Nothing yet.
    Start,
    /// The remote's status arrived with this addressable total.
    StatusRead { addressable_total: i64 },
    /// The remote's list, asked for `limit` entries, arrived.
    ListRead { limit: usize, inventory: Vec<InventoryMemory> },
}

/// What loading a remote inventory does next.
#[derive(Debug)]
pub enum InventoryAction {
    /// Read the remote's visible-stack status.
    FetchStatus,
    /// List this many entries of the remote's visible inventory.
    FetchList { limit: usize },
    /// Stop with this inventory, or this error.
    Finish(Result<Vec<InventoryMemory>, InventoryError>),
}

impl InventoryAction {
    /// The endpoint the next request goes to, if one is made.
    pub fn route(&self) -> (r: Option<Route>)
        ensures
            self is FetchStatus ==> r == Some(Route::Status),
            self is FetchList ==> r == Some(Route::List),
            self is Finish ==> r is None,
    {
        match self {
            InventoryAction::FetchStatus => Some(Route::Status),
            InventoryAction::FetchList { .. } => Some(Route::List),
            InventoryAction::Finish(_) => None,
        }
    }
}

/// Loading a remote inventory: first the status, then a list of exactly the
/// addressable total, which is accepted only if it holds that many entries.
pub fn remote_inventory_step(event: InventoryEvent) -> (r: InventoryAction)
    ensures
        match event {
            InventoryEvent::Start => r is FetchStatus,
            InventoryEvent::StatusRead { addressable_total } => if 0 <= addressable_total
                <= usize::MAX {
                r == InventoryAction::FetchList { limit: addressable_total as usize }
            } else {
                r == InventoryAction::Finish(
                    Err::<Vec<InventoryMemory>, InventoryError>(InventoryError::CountOutOfRange),
                )
            },
            InventoryEvent::ListRead { limit, inventory } => if inventory@.len() == limit {
                r matches InventoryAction::Finish(Ok(v)) && v@ == inventory@
            } else {
                r == InventoryAction::Finish(
                    Err::<Vec<InventoryMemory>, InventoryError>(InventoryError::CountMismatch),
                )
            },
        },
{
    match event {
        InventoryEvent::Start => InventoryAction::FetchStatus,
        InventoryEvent::StatusRead { addressable_total } => match inventory_limit(addressable_total) {
            Ok(limit) => InventoryAction::FetchList { limit },
            Err(e) => InventoryAction::Finish(Err(e)),
        },
        InventoryEvent::ListRead { limit, inventory } => InventoryAction::Finish(
            check_inventory_count(limit, inventory),
        ),
    }
}

/// Paging forward `n` pages of three from the first entry reaches
/// `min(3n, len - 1)`: repeated paging always ends on the last entry.
pub proof fn lemma_paging_reaches_last(len: int, n: int)
    requires
        len > 0,
        n >= 0,
    ensures
        paged_index(len, n) == min(3 * n, len - 1),
    decreases n,
{
    if n > 0 {
        lemma_paging_reaches_last(len, n - 1);
    }
}

/// The index after paging forward `n` times from the first entry.
pub open spec fn paged_index(len: int, n: int) -> int
    decreases n,
{
    if n <= 0 {
        0
    } else {
        min(paged_index(len, n - 1) + 3, max(len - 1, 0))
    }
}

} // verus!
