//! Workspaces: tabs of panes, with public pane numbers and a derived name.

use vstd::prelude::*;

use crate::detect::AgentState;
use crate::text;

verus! {

/// What a pane is told apart by. An id is never used for two panes.
pub type PaneId = u64;

/// What is known of the program in a pane.
#[derive(Debug, Clone, Copy, PartialEq, Eq, Structural)]
pub struct PaneState {
    /// Whether the user has seen the last change.
    pub seen: bool,
    pub state: AgentState,
}

/// A pane of a tab. `R` is a runtime.
#[derive(Debug)]
pub struct Pane<R> {
    pub id: PaneId,
    pub state: PaneState,
    /// The directory that its program is in, as far as it is known.
    pub cwd: Option<String>,
    pub runtime: Option<R>,
}

/// What the tiling says of a tab after it changed.
#[derive(Debug, Clone, Copy, PartialEq, Eq, Structural)]
pub struct TabFocus {
    pub root_pane: PaneId,
    pub focused: PaneId,
    pub zoomed: bool,
}

/// A tab of a workspace.
#[derive(Debug)]
pub struct Tab<R> {
    pub custom_name: Option<String>,
    /// The place of the tab, counted from one.
    pub number: usize,
    /// The pane whose directory stands for the tab.
    pub root_pane: PaneId,
    pub focused: PaneId,
    pub panes: Vec<Pane<R>>,
    pub zoomed: bool,
}

/// A tab, for contracts.
pub struct TabView<R> {
    pub custom_name: Option<String>,
    pub number: nat,
    pub root_pane: PaneId,
    pub focused: PaneId,
    pub panes: Seq<Pane<R>>,
    pub zoomed: bool,
}

impl<R> TabView<R> {
    pub open spec fn has_at(self, pane_id: PaneId, i: int) -> bool {
        0 <= i < self.panes.len() && self.panes[i].id == pane_id
    }

    pub open spec fn has(self, pane_id: PaneId) -> bool {
        exists|i: int| self.has_at(pane_id, i)
    }

    /// The ids of the panes.
    pub open spec fn ids(self) -> Seq<PaneId> {
        self.panes.map_values(|pane: Pane<R>| pane.id)
    }

    /// A tab has panes, no two of them the same; its root and its focus are among
    /// them.
    pub open spec fn wf(self) -> bool {
        &&& self.panes.len() > 0
        &&& forall|i: int, j: int|
            0 <= i < j < self.panes.len() ==> self.panes[i].id != self.panes[j].id
        &&& self.has(self.root_pane)
        &&& self.has(self.focused)
    }

    /// The tab with all its panes seen.
    pub open spec fn all_seen(self) -> TabView<R> {
        TabView {
            panes: self.panes.map_values(
                |pane: Pane<R>|
                    Pane { state: PaneState { seen: true, ..pane.state }, ..pane },
            ),
            ..self
        }
    }

    /// The tab without the pane at a place, focused as the tiling says.
    pub open spec fn without(self, i: int, rest: TabFocus) -> TabView<R> {
        TabView {
            panes: self.panes.remove(i),
            root_pane: rest.root_pane,
            focused: rest.focused,
            zoomed: rest.zoomed,
            ..self
        }
    }

    /// The tab with another pane, focused as the tiling says.
    pub open spec fn with(self, pane: Pane<R>, rest: TabFocus) -> TabView<R> {
        TabView {
            panes: self.panes.push(pane),
            root_pane: rest.root_pane,
            focused: rest.focused,
            zoomed: rest.zoomed,
            ..self
        }
    }

    pub proof fn lemma_ids(self, pane_id: PaneId)
        ensures
            self.ids().contains(pane_id) <==> self.has(pane_id),
    {
        if self.has(pane_id) {
            let i = choose|i: int| self.has_at(pane_id, i);
            assert(self.ids()[i] == pane_id);
        }
        if self.ids().contains(pane_id) {
            let i = choose|i: int| 0 <= i < self.ids().len() && self.ids()[i] == pane_id;
            assert(self.has_at(pane_id, i));
        }
    }
}

impl<R> Tab<R> {
    pub open spec fn view(&self) -> TabView<R> {
        TabView {
            custom_name: self.custom_name,
            number: self.number as nat,
            root_pane: self.root_pane,
            focused: self.focused,
            panes: self.panes@,
            zoomed: self.zoomed,
        }
    }

    /// The place of a pane in the tab.
    pub fn pane_at(&self, pane_id: PaneId) -> (place: Option<usize>)
        ensures
            match place {
                Some(i) => self@.has_at(pane_id, i as int) && forall|j: int|
                    0 <= j < i ==> self.panes@[j].id != pane_id,
                None => !self@.has(pane_id),
            },
    {
        let mut i: usize = 0;
        while i < self.panes.len()
            invariant
                i <= self.panes.len(),
                forall|j: int| 0 <= j < i ==> self.panes@[j].id != pane_id,
            decreases self.panes.len() - i,
        {
            if self.panes[i].id == pane_id {
                return Some(i);
            }
            i = i + 1;
        }
        None
    }

    /// What the tab is called: its own name, or else its number.
    pub fn display_name(&self) -> (name: String)
        ensures
            name@ == match self.custom_name {
                Some(custom) => custom@,
                None => text::decimal(self.number as nat),
            },
    {
        match &self.custom_name {
            Some(custom) => custom.clone(),
            None => text::wide_decimal_text(self.number as u128),
        }
    }

    /// The directory of the tab's root pane.
    pub fn root_cwd(&self) -> (cwd: Option<String>)
        requires
            self@.wf(),
        ensures
            forall|i: int| #[trigger]
                self@.has_at(self.root_pane, i) ==> cwd == self.panes@[i].cwd,
    {
        match self.pane_at(self.root_pane) {
            Some(i) => match &self.panes[i].cwd {
                Some(cwd) => Some(cwd.clone()),
                None => None,
            },
            None => None,
        }
    }

    /// The runtime of the focused pane.
    pub fn focused_runtime(&self) -> (runtime: Option<&R>)
        requires
            self@.wf(),
        ensures
            forall|i: int| #[trigger]
                self@.has_at(self.focused, i) ==> match runtime {
                    Some(runtime) => self.panes@[i].runtime == Some(*runtime),
                    None => self.panes@[i].runtime is None,
                },
    {
        match self.pane_at(self.focused) {
            Some(i) => match &self.panes[i].runtime {
                Some(runtime) => Some(runtime),
                None => None,
            },
            None => None,
        }
    }
}

/// The tabs with their numbers counted anew.
pub open spec fn renumbered<R>(tabs: Seq<TabView<R>>) -> Seq<TabView<R>> {
    Seq::new(tabs.len(), |i: int| TabView { number: (i + 1) as nat, ..tabs[i] })
}

/// The panes of an order that are not gone, in that order.
pub open spec fn except(order: Seq<PaneId>, gone: Seq<PaneId>) -> Seq<PaneId>
    decreases order.len(),
{
    if order.len() == 0 {
        Seq::empty()
    } else if gone.contains(order.last()) {
        except(order.drop_last(), gone)
    } else {
        except(order.drop_last(), gone).push(order.last())
    }
}

proof fn lemma_except(order: Seq<PaneId>, gone: Seq<PaneId>)
    requires
        order.no_duplicates(),
    ensures
        except(order, gone).no_duplicates(),
        except(order, gone).len() <= order.len(),
        forall|pane_id: PaneId|
            #![trigger except(order, gone).contains(pane_id)]
            #![trigger order.contains(pane_id)]
            except(order, gone).contains(pane_id) <==> order.contains(pane_id) && !gone.contains(
                pane_id,
            ),
    decreases order.len(),
{
    if order.len() > 0 {
        let shorter = order.drop_last();
        lemma_except(shorter, gone);
        let kept = except(shorter, gone);
        let all = except(order, gone);
        assert forall|pane_id: PaneId| #[trigger] order.contains(pane_id) <==> shorter.contains(
            pane_id,
        ) || pane_id == order.last() by {
            if order.contains(pane_id) {
                let i = choose|i: int| 0 <= i < order.len() && order[i] == pane_id;
                if i < shorter.len() {
                    assert(shorter[i] == pane_id);
                }
            }
            if shorter.contains(pane_id) {
                let i = choose|i: int| 0 <= i < shorter.len() && shorter[i] == pane_id;
                assert(order[i] == pane_id);
            }
        }
        assert(!shorter.contains(order.last()));
        assert(!kept.contains(order.last()));
        assert forall|pane_id: PaneId| #[trigger]
            all.contains(pane_id) <==> kept.contains(pane_id) || (!gone.contains(order.last())
                && pane_id == order.last()) by {
            if kept.contains(pane_id) {
                let i = choose|i: int| 0 <= i < kept.len() && kept[i] == pane_id;
                assert(all[i] == pane_id);
            }
            if all.contains(pane_id) {
                let i = choose|i: int| 0 <= i < all.len() && all[i] == pane_id;
                if i < kept.len() {
                    assert(kept[i] == pane_id);
                }
            }
            if !gone.contains(order.last()) {
                assert(all[kept.len() as int] == order.last());
            }
        }
    }
}

/// Closing a pane moves each higher public number down by one and leaves the
/// lower ones alone.
pub proof fn law_closing_a_pane_compacts_the_numbers(order: Seq<PaneId>, i: int)
    requires
        order.no_duplicates(),
        0 <= i < order.len(),
    ensures
        except(order, seq![order[i]]) == order.remove(i),
    decreases order.len(),
{
    let gone = seq![order[i]];
    let shorter = order.drop_last();
    assert(gone[0] == order[i]);
    if i == order.len() - 1 {
        lemma_nothing_gone(shorter, gone);
        assert(order.remove(i) =~= shorter);
    } else {
        law_closing_a_pane_compacts_the_numbers(shorter, i);
        assert(shorter[i] == order[i]);
        assert(!gone.contains(order.last()));
        assert(order.remove(i) =~= shorter.remove(i).push(order.last()));
    }
}

proof fn lemma_nothing_gone(order: Seq<PaneId>, gone: Seq<PaneId>)
    requires
        forall|i: int| 0 <= i < order.len() ==> !gone.contains(#[trigger] order[i]),
    ensures
        except(order, gone) == order,
    decreases order.len(),
{
    if order.len() > 0 {
        let shorter = order.drop_last();
        assert forall|i: int| 0 <= i < shorter.len() implies !gone.contains(
            #[trigger] shorter[i],
        ) by {
            assert(shorter[i] == order[i]);
        }
        lemma_nothing_gone(shorter, gone);
        assert(order =~= shorter.push(order.last()));
    }
}

/// Whatever closes, the panes that stay keep their order, and no public number
/// grows.
pub proof fn law_numbers_keep_their_order(
    order: Seq<PaneId>,
    gone: Seq<PaneId>,
    i: int,
    j: int,
) -> (places: (int, int))
    requires
        order.no_duplicates(),
        0 <= i < j < order.len(),
        !gone.contains(order[i]),
        !gone.contains(order[j]),
    ensures
        0 <= places.0 < places.1 < except(order, gone).len(),
        except(order, gone)[places.0] == order[i],
        except(order, gone)[places.1] == order[j],
        places.0 <= i,
        places.1 <= j,
    decreases order.len(),
{
    let shorter = order.drop_last();
    if j < order.len() - 1 {
        law_numbers_keep_their_order(shorter, gone, i, j)
    } else {
        lemma_except(shorter, gone);
        let place = lemma_place_after(shorter, gone, i);
        (place, except(shorter, gone).len() as int)
    }
}

proof fn lemma_place_after(order: Seq<PaneId>, gone: Seq<PaneId>, i: int) -> (place: int)
    requires
        0 <= i < order.len(),
        !gone.contains(order[i]),
    ensures
        0 <= place < except(order, gone).len(),
        except(order, gone)[place] == order[i],
        place <= i,
    decreases order.len(),
{
    let shorter = order.drop_last();
    if i < order.len() - 1 {
        lemma_place_after(shorter, gone, i)
    } else {
        lemma_except_is_no_longer(shorter, gone);
        except(shorter, gone).len() as int
    }
}

proof fn lemma_except_is_no_longer(order: Seq<PaneId>, gone: Seq<PaneId>)
    ensures
        except(order, gone).len() <= order.len(),
    decreases order.len(),
{
    if order.len() > 0 {
        lemma_except_is_no_longer(order.drop_last(), gone);
    }
}

fn remaining(order: &Vec<PaneId>, gone: &Vec<PaneId>) -> (kept: Vec<PaneId>)
    ensures
        kept@ == except(order@, gone@),
{
    let mut kept: Vec<PaneId> = Vec::new();
    let mut i: usize = 0;
    while i < order.len()
        invariant
            i <= order.len(),
            kept@ == except(order@.take(i as int), gone@),
        decreases order.len() - i,
    {
        let pane_id: PaneId = order[i];
        let is_gone = contains(gone, pane_id);
        assert(order@.take(i + 1).drop_last() =~= order@.take(i as int));
        if !is_gone {
            kept.push(pane_id);
        }
        i = i + 1;
    }
    assert(order@.take(i as int) =~= order@);
    kept
}

fn contains(panes: &Vec<PaneId>, pane_id: PaneId) -> (found: bool)
    ensures
        found == panes@.contains(pane_id),
{
    let mut i: usize = 0;
    while i < panes.len()
        invariant
            i <= panes.len(),
            forall|j: int| 0 <= j < i ==> panes@[j] != pane_id,
        decreases panes.len() - i,
    {
        if panes[i] == pane_id {
            return true;
        }
        i = i + 1;
    }
    false
}

/// What is known of a directory from the repository it lies in.
#[derive(Debug)]
pub struct DirectoryFacts {
    pub path: String,
    /// What the directory is called, where it is not by its last name.
    pub label: Option<String>,
    pub branch: Option<String>,
    /// How many commits the branch is ahead of and behind its upstream.
    pub ahead_behind: Option<(usize, usize)>,
}

/// The place of the first facts on a directory.
pub open spec fn facts_at(facts: Seq<DirectoryFacts>, path: Seq<char>) -> Option<int>
    decreases facts.len(),
{
    if facts.len() == 0 {
        None
    } else if facts[0].path@ == path {
        Some(0)
    } else {
        match facts_at(facts.drop_first(), path) {
            Some(i) => Some(i + 1),
            None => None,
        }
    }
}

fn find_facts(facts: &Vec<DirectoryFacts>, path: &str) -> (place: Option<usize>)
    ensures
        match place {
            Some(i) => facts_at(facts@, path@) == Some(i as int) && i < facts@.len(),
            None => facts_at(facts@, path@) is None,
        },
{
    let mut i: usize = 0;
    assert(facts@.skip(0) =~= facts@);
    while i < facts.len()
        invariant
            i <= facts.len(),
            facts_at(facts@, path@) == match facts_at(facts@.skip(i as int), path@) {
                Some(j) => Some(j + i),
                None => None,
            },
        decreases facts.len() - i,
    {
        assert(facts@.skip(i as int)[0] == facts@[i as int]);
        assert(facts@.skip(i as int).drop_first() =~= facts@.skip(i + 1));
        if text::same_text(facts[i].path.as_str(), path) {
            return Some(i);
        }
        i = i + 1;
    }
    None
}

/// The text behind the last slash.
pub open spec fn last_name(path: Seq<char>) -> Seq<char>
    decreases path.len(),
{
    if path.len() == 0 {
        path
    } else if path.last() == '/' {
        Seq::empty()
    } else {
        last_name(path.drop_last()).push(path.last())
    }
}

proof fn lemma_last_name(path: Seq<char>, start: int)
    requires
        0 <= start <= path.len(),
        start == 0 || path[start - 1] == '/',
        forall|i: int| start <= i < path.len() ==> path[i] != '/',
    ensures
        last_name(path) == path.skip(start),
    decreases path.len(),
{
    if path.len() == 0 {
        assert(path.skip(start) =~= path);
    } else if path.last() == '/' {
        assert(start == path.len());
        assert(path.skip(start) =~= Seq::<char>::empty());
    } else {
        assert(start < path.len());
        lemma_last_name(path.drop_last(), start);
        assert(path.skip(start) =~= path.drop_last().skip(start).push(path.last()));
    }
}

/// The text behind the last slash.
pub fn last_name_of(path: &str) -> (name: String)
    ensures
        name@ == last_name(path@),
{
    let n: usize = path.unicode_len();
    let mut start: usize = n;
    while start > 0 && path.get_char(start - 1) != '/'
        invariant
            start <= n,
            n == path@.len(),
            forall|i: int| start <= i < n ==> path@[i] != '/',
        decreases start,
    {
        start = start - 1;
    }
    proof {
        lemma_last_name(path@, start as int);
        assert(path@.subrange(start as int, n as int) =~= path@.skip(start as int));
    }
    path.substring_char(start, n).to_owned()
}

/// What a closed pane leaves behind.
#[derive(Debug)]
pub struct Closed<R> {
    /// Whether the workspace is to close.
    pub close_workspace: bool,
    /// The runtime that is to be shut down.
    pub runtime: Option<R>,
}

/// A workspace: tabs of panes.
#[derive(Debug)]
pub struct Workspace<R> {
    /// Stable public identity, independent of display order.
    pub id: String,
    /// A name that the user gave; the derived one is then not used.
    pub custom_name: Option<String>,
    /// The directory that stands for the workspace where no pane tells one.
    pub identity_cwd: String,
    /// Commits ahead of and behind the upstream, as last looked up.
    pub cached_git_ahead_behind: Option<(usize, usize)>,
    /// The panes in the order of their public numbers, which count from one.
    pub public_panes: Vec<PaneId>,
    pub tabs: Vec<Tab<R>>,
    pub active_tab: usize,
}

/// A workspace, for contracts.
pub struct WorkspaceView<R> {
    pub id: String,
    pub custom_name: Option<String>,
    pub identity_cwd: String,
    pub git: Option<(usize, usize)>,
    pub order: Seq<PaneId>,
    pub tabs: Seq<TabView<R>>,
    pub active: int,
}

impl<R> WorkspaceView<R> {
    /// Whether some tab has a pane.
    pub open spec fn has(self, pane_id: PaneId) -> bool {
        exists|t: int| 0 <= t < self.tabs.len() && (#[trigger] self.tabs[t]).has(pane_id)
    }

    /// A workspace has tabs, counted from one, and one of them is active. No pane
    /// is in two tabs. The panes of the tabs, and no others, have public numbers.
    pub open spec fn wf(self) -> bool {
        &&& 0 <= self.active < self.tabs.len()
        &&& forall|t: int|
            0 <= t < self.tabs.len() ==> (#[trigger] self.tabs[t]).wf() && self.tabs[t].number == t
                + 1
        &&& forall|t: int, u: int, pane_id: PaneId|
            0 <= t < u < self.tabs.len() ==> !(#[trigger] self.tabs[t].has(pane_id)
                && #[trigger] self.tabs[u].has(pane_id))
        &&& self.order.no_duplicates()
        &&& forall|pane_id: PaneId|
            #![trigger self.order.contains(pane_id)]
            #![trigger self.has(pane_id)]
            self.order.contains(pane_id) <==> self.has(pane_id)
    }

    /// Where a pane is: its tab and its place there.
    pub open spec fn pane_at(self, pane_id: PaneId, t: int, i: int) -> bool {
        0 <= t < self.tabs.len() && self.tabs[t].has_at(pane_id, i)
    }

    /// The tab that is active once the tab at a place is gone: the same one, or
    /// the one before.
    pub open spec fn active_without(self, idx: int) -> int {
        if self.active >= self.tabs.len() - 1 {
            self.tabs.len() - 2
        } else if idx <= self.active && self.active > 0 {
            self.active - 1
        } else {
            self.active
        }
    }

    /// The workspace without the tab at a place and its panes.
    pub open spec fn without_tab(self, idx: int) -> WorkspaceView<R> {
        WorkspaceView {
            tabs: renumbered(self.tabs.remove(idx)),
            order: except(self.order, self.tabs[idx].ids()),
            active: self.active_without(idx),
            ..self
        }
    }

    /// The workspace without one pane of a tab that has others.
    pub open spec fn without_pane(self, t: int, i: int, rest: TabFocus) -> WorkspaceView<R> {
        WorkspaceView {
            tabs: self.tabs.update(t, self.tabs[t].without(i, rest)),
            order: except(self.order, seq![self.tabs[t].panes[i].id]),
            ..self
        }
    }

    /// The workspace after a pane left it: the pane goes, or its tab where it was
    /// the last in it; the last pane of all stays.
    pub open spec fn left_by(self, t: int, i: int, rest: TabFocus) -> WorkspaceView<R> {
        if self.tabs[t].panes.len() > 1 {
            self.without_pane(t, i, rest)
        } else if self.tabs.len() > 1 {
            self.without_tab(t)
        } else {
            self
        }
    }

    /// Whether a pane is the last one of all.
    pub open spec fn is_last_pane(self, t: int) -> bool {
        self.tabs[t].panes.len() <= 1 && self.tabs.len() <= 1
    }

    /// Whether the tiling can say so of a tab that a pane leaves.
    pub open spec fn rest_fits(self, t: int, i: int, rest: TabFocus) -> bool {
        self.tabs[t].panes.len() > 1 ==> {
            &&& self.tabs[t].has(rest.root_pane)
            &&& self.tabs[t].has(rest.focused)
            &&& rest.root_pane != self.tabs[t].panes[i].id
            &&& rest.focused != self.tabs[t].panes[i].id
        }
    }

    /// Where a tab ends up that is dropped before the tab at `insert`.
    pub open spec fn target(self, source: int, insert: int) -> int {
        if source < insert {
            insert - 1
        } else {
            insert
        }
    }

    /// Where a tab stands after another was moved.
    pub open spec fn place_after_move(t: int, source: int, target: int) -> int {
        if t == source {
            target
        } else if source < t <= target {
            t - 1
        } else if target <= t < source {
            t + 1
        } else {
            t
        }
    }

    /// The workspace with a tab moved; the active tab stays active.
    pub open spec fn moved(self, source: int, insert: int) -> WorkspaceView<R> {
        let target = self.target(source, insert);
        WorkspaceView {
            tabs: renumbered(self.tabs.remove(source).insert(target, self.tabs[source])),
            active: Self::place_after_move(self.active, source, target),
            ..self
        }
    }

    proof fn lemma_without_tab(self, idx: int)
        requires
            self.wf(),
            0 <= idx < self.tabs.len(),
            self.tabs.len() > 1,
        ensures
            self.without_tab(idx).wf(),
    {
        let after = self.without_tab(idx);
        let gone = self.tabs[idx].ids();
        lemma_except(self.order, gone);
        let place = |t: int|
            if t < idx {
                t
            } else {
                t + 1
            };
        assert forall|t: int| 0 <= t < after.tabs.len() implies (#[trigger] after.tabs[t]).wf()
            && after.tabs[t].panes == self.tabs[place(t)].panes by {
            let from = self.tabs[place(t)];
            assert(from.wf());
            let i = choose|i: int| from.has_at(from.root_pane, i);
            assert(after.tabs[t].has_at(from.root_pane, i));
            let k = choose|k: int| from.has_at(from.focused, k);
            assert(after.tabs[t].has_at(from.focused, k));
        }
        assert forall|t: int, pane_id: PaneId| 0 <= t < after.tabs.len() implies (
        #[trigger] after.tabs[t].has(pane_id) <==> self.tabs[place(t)].has(pane_id)) by {
            let from = self.tabs[place(t)];
            let to = after.tabs[t];
            assert(to.panes == from.panes);
            if to.has(pane_id) {
                let i = choose|i: int| to.has_at(pane_id, i);
                assert(from.has_at(pane_id, i));
            }
            if from.has(pane_id) {
                let i = choose|i: int| from.has_at(pane_id, i);
                assert(to.has_at(pane_id, i));
            }
        }
        assert forall|t: int, u: int, pane_id: PaneId|
            0 <= t < u < after.tabs.len() implies !(#[trigger] after.tabs[t].has(pane_id)
            && #[trigger] after.tabs[u].has(pane_id)) by {
            assert(!(self.tabs[place(t)].has(pane_id) && self.tabs[place(u)].has(pane_id)));
        }
        assert forall|pane_id: PaneId|
            #![trigger after.order.contains(pane_id)]
            #![trigger after.has(pane_id)]
            after.order.contains(pane_id) <==> after.has(pane_id) by {
            self.tabs[idx].lemma_ids(pane_id);
            assert(self.order.contains(pane_id) <==> self.has(pane_id));
            if after.has(pane_id) {
                let t = choose|t: int|
                    0 <= t < after.tabs.len() && (#[trigger] after.tabs[t]).has(pane_id);
                assert(self.tabs[place(t)].has(pane_id));
                assert(!self.tabs[idx].has(pane_id)) by {
                    if place(t) < idx {
                        assert(!(self.tabs[place(t)].has(pane_id) && self.tabs[idx].has(pane_id)));
                    } else {
                        assert(!(self.tabs[idx].has(pane_id) && self.tabs[place(t)].has(pane_id)));
                    }
                }
            }
            if self.has(pane_id) && !self.tabs[idx].has(pane_id) {
                let u = choose|u: int|
                    0 <= u < self.tabs.len() && (#[trigger] self.tabs[u]).has(pane_id);
                let t = if u < idx {
                    u
                } else {
                    u - 1
                };
                assert(place(t) == u);
                assert(after.tabs[t].has(pane_id));
            }
        }
    }

    proof fn lemma_without_pane(self, t: int, i: int, rest: TabFocus)
        requires
            self.wf(),
            0 <= t < self.tabs.len(),
            0 <= i < self.tabs[t].panes.len(),
            self.tabs[t].panes.len() > 1,
            self.rest_fits(t, i, rest),
        ensures
            self.without_pane(t, i, rest).wf(),
    {
        let after = self.without_pane(t, i, rest);
        let from = self.tabs[t];
        let to = from.without(i, rest);
        let gone = seq![from.panes[i].id];
        assert(gone[0] == from.panes[i].id);
        lemma_except(self.order, gone);
        assert(from.wf());
        assert(from.has_at(from.panes[i].id, i));
        assert forall|pane_id: PaneId| #[trigger]
            to.has(pane_id) <==> from.has(pane_id) && pane_id != from.panes[i].id by {
            if to.has(pane_id) {
                let k = choose|k: int| to.has_at(pane_id, k);
                let l = if k < i {
                    k
                } else {
                    k + 1
                };
                assert(from.has_at(pane_id, l));
            }
            if from.has(pane_id) && pane_id != from.panes[i].id {
                let l = choose|l: int| from.has_at(pane_id, l);
                let k = if l < i {
                    l
                } else {
                    l - 1
                };
                assert(to.has_at(pane_id, k));
            }
        }
        assert(to.wf()) by {
            assert forall|k: int, l: int| 0 <= k < l < to.panes.len() implies to.panes[k].id
                != to.panes[l].id by {
                let k0 = if k < i {
                    k
                } else {
                    k + 1
                };
                let l0 = if l < i {
                    l
                } else {
                    l + 1
                };
                assert(from.panes[k0].id != from.panes[l0].id);
            }
        }
        assert forall|u: int, v: int, pane_id: PaneId|
            0 <= u < v < after.tabs.len() implies !(#[trigger] after.tabs[u].has(pane_id)
            && #[trigger] after.tabs[v].has(pane_id)) by {
            assert(!(self.tabs[u].has(pane_id) && self.tabs[v].has(pane_id)));
        }
        assert forall|pane_id: PaneId|
            #![trigger after.order.contains(pane_id)]
            #![trigger after.has(pane_id)]
            after.order.contains(pane_id) <==> after.has(pane_id) by {
            assert(self.order.contains(pane_id) <==> self.has(pane_id));
            if after.has(pane_id) {
                let u = choose|u: int|
                    0 <= u < after.tabs.len() && (#[trigger] after.tabs[u]).has(pane_id);
                assert(self.tabs[u].has(pane_id));
                if pane_id == from.panes[i].id {
                    assert(u != t);
                    if u < t {
                        assert(!(self.tabs[u].has(pane_id) && self.tabs[t].has(pane_id)));
                    } else {
                        assert(!(self.tabs[t].has(pane_id) && self.tabs[u].has(pane_id)));
                    }
                }
            }
            if self.has(pane_id) && pane_id != from.panes[i].id {
                let u = choose|u: int|
                    0 <= u < self.tabs.len() && (#[trigger] self.tabs[u]).has(pane_id);
                assert(after.tabs[u].has(pane_id));
            }
        }
    }

    proof fn lemma_one_place(self, pane_id: PaneId, t: int, i: int, u: int, k: int)
        requires
            self.wf(),
            self.pane_at(pane_id, t, i),
            self.pane_at(pane_id, u, k),
        ensures
            t == u,
            i == k,
    {
        assert(self.tabs[t].has(pane_id));
        assert(self.tabs[u].has(pane_id));
        assert(self.tabs[t].wf());
    }
}

impl<R> Workspace<R> {
    pub open spec fn view(&self) -> WorkspaceView<R> {
        WorkspaceView {
            id: self.id,
            custom_name: self.custom_name,
            identity_cwd: self.identity_cwd,
            git: self.cached_git_ahead_behind,
            order: self.public_panes@,
            tabs: self.tabs@.map_values(|tab: Tab<R>| tab@),
            active: self.active_tab as int,
        }
    }

    /// A workspace with one tab of one pane.
    pub fn new(id: String, initial_cwd: String, pane: Pane<R>) -> (workspace: Workspace<R>)
        ensures
            workspace@.wf(),
            workspace.id == id,
            workspace.custom_name is None,
            workspace.identity_cwd == initial_cwd,
            workspace.cached_git_ahead_behind is None,
            workspace@.order == seq![pane.id],
            workspace@.active == 0,
            workspace@.tabs == seq![
                TabView {
                    custom_name: None,
                    number: 1,
                    root_pane: pane.id,
                    focused: pane.id,
                    panes: seq![pane],
                    zoomed: false,
                },
            ],
    {
        let ghost root = pane.id;
        let tab = Self::single_pane_tab(1, pane);
        let mut public_panes: Vec<PaneId> = Vec::new();
        public_panes.push(tab.root_pane);
        let mut tabs: Vec<Tab<R>> = Vec::new();
        tabs.push(tab);
        let workspace = Workspace {
            id,
            custom_name: None,
            identity_cwd: initial_cwd,
            cached_git_ahead_behind: None,
            public_panes,
            tabs,
            active_tab: 0,
        };
        proof {
            let view = workspace@;
            assert(view.tabs[0].has_at(root, 0));
            assert(view.order[0] == root);
            assert forall|pane_id: PaneId|
                #![trigger view.order.contains(pane_id)]
                #![trigger view.has(pane_id)]
                view.order.contains(pane_id) <==> view.has(pane_id) by {
                if view.has(pane_id) {
                    let t = choose|t: int|
                        0 <= t < view.tabs.len() && (#[trigger] view.tabs[t]).has(pane_id);
                    assert(t == 0);
                    let i = choose|i: int| view.tabs[0].has_at(pane_id, i);
                    assert(pane_id == root);
                }
                if view.order.contains(pane_id) {
                    assert(view.tabs[0].has(pane_id));
                }
            }
            assert(view.tabs =~= seq![view.tabs[0]]);
        }
        workspace
    }

    fn single_pane_tab(number: usize, pane: Pane<R>) -> (tab: Tab<R>)
        ensures
            tab@ == (TabView {
                custom_name: None,
                number: number as nat,
                root_pane: pane.id,
                focused: pane.id,
                panes: seq![pane],
                zoomed: false,
            }),
            tab@.wf(),
            forall|pane_id: PaneId| #[trigger] tab@.has(pane_id) <==> pane_id == pane.id,
    {
        let root: PaneId = pane.id;
        let ghost first = pane;
        let mut panes: Vec<Pane<R>> = Vec::new();
        panes.push(pane);
        let tab = Tab {
            custom_name: None,
            number,
            root_pane: root,
            focused: root,
            panes,
            zoomed: false,
        };
        assert(tab@.panes =~= seq![first]);
        assert(tab@.has_at(root, 0));
        tab
    }

    /// The active tab.
    pub fn active_tab(&self) -> (tab: Option<&Tab<R>>)
        ensures
            match tab {
                Some(tab) => self.active_tab < self.tabs@.len() && *tab
                    == self.tabs@[self.active_tab as int],
                None => self.active_tab >= self.tabs@.len(),
            },
    {
        if self.active_tab < self.tabs.len() {
            Some(&self.tabs[self.active_tab])
        } else {
            None
        }
    }

    pub fn active_tab_index(&self) -> (index: usize)
        ensures
            index == self.active_tab,
    {
        self.active_tab
    }

    /// The active tab, to be changed.
    pub fn active_tab_mut(&mut self) -> (tab: Option<&mut Tab<R>>)
        ensures
            match tab {
                Some(tab) => {
                    &&& old(self).active_tab < old(self).tabs@.len()
                    &&& *tab == old(self).tabs@[old(self).active_tab as int]
                    &&& final(self).tabs@ == old(self).tabs@.update(
                        old(self).active_tab as int,
                        *final(tab),
                    )
                },
                None => old(self).active_tab >= old(self).tabs@.len() && final(self).tabs
                    == old(self).tabs,
            },
            final(self).active_tab == old(self).active_tab,
            final(self).id == old(self).id,
            final(self).custom_name == old(self).custom_name,
            final(self).identity_cwd == old(self).identity_cwd,
            final(self).cached_git_ahead_behind == old(self).cached_git_ahead_behind,
            final(self).public_panes == old(self).public_panes,
    {
        let active: usize = self.active_tab;
        if active < self.tabs.len() {
            Some(&mut self.tabs[active])
        } else {
            None
        }
    }

    /// What the active tab is called.
    pub fn active_tab_display_name(&self) -> (name: Option<String>)
        ensures
            match name {
                Some(name) => self.active_tab < self.tabs@.len() && name@
                    == match self.tabs@[self.active_tab as int].custom_name {
                    Some(custom) => custom@,
                    None => text::decimal(self.tabs@[self.active_tab as int].number as nat),
                },
                None => self.active_tab >= self.tabs@.len(),
            },
    {
        match self.active_tab() {
            Some(tab) => Some(tab.display_name()),
            None => None,
        }
    }

    /// Make a tab active; its panes are then seen. Nothing happens where there is
    /// no such tab.
    pub fn switch_tab(&mut self, idx: usize)
        requires
            old(self)@.wf(),
        ensures
            final(self)@.wf(),
            final(self)@ == if idx < old(self)@.tabs.len() {
                WorkspaceView {
                    active: idx as int,
                    tabs: old(self)@.tabs.update(
                        idx as int,
                        old(self)@.tabs[idx as int].all_seen(),
                    ),
                    ..old(self)@
                }
            } else {
                old(self)@
            },
    {
        let ghost before = self@;
        if idx < self.tabs.len() {
            self.active_tab = idx;
            let ghost start = *self;
            let mut i: usize = 0;
            while i < self.tabs[idx].panes.len()
                invariant
                    idx < self.tabs@.len(),
                    *self == (Workspace { tabs: self.tabs, ..start }),
                    self.tabs@.len() == start.tabs@.len(),
                    forall|t: int|
                        0 <= t < self.tabs@.len() && t != idx ==> self.tabs@[t] == start.tabs@[t],
                    i <= self.tabs@[idx as int].panes@.len(),
                    self.tabs@[idx as int].panes@.len() == start.tabs@[idx as int].panes@.len(),
                    self.tabs@[idx as int]@ == (TabView {
                        panes: self.tabs@[idx as int].panes@,
                        ..start.tabs@[idx as int]@
                    }),
                    forall|k: int|
                        0 <= k < i ==> #[trigger] self.tabs@[idx as int].panes@[k]
                            == start.tabs@[idx as int]@.all_seen().panes[k],
                    forall|k: int|
                        i <= k < self.tabs@[idx as int].panes@.len() ==> #[trigger] self.tabs@[
                            idx as int
                        ].panes@[k] == start.tabs@[idx as int].panes@[k],
                decreases self.tabs@[idx as int].panes@.len() - i,
            {
                self.tabs[idx].panes[i].state.seen = true;
                i = i + 1;
            }
            proof {
                let seen = before.tabs[idx as int].all_seen();
                assert(self@.tabs[idx as int].panes =~= seen.panes);
                assert(self@.tabs =~= before.tabs.update(idx as int, seen));
                before.lemma_all_seen(idx as int);
            }
        }
    }
}

impl<R> WorkspaceView<R> {
    proof fn lemma_all_seen(self, t: int)
        requires
            self.wf(),
            0 <= t < self.tabs.len(),
        ensures
            (WorkspaceView {
                active: t,
                tabs: self.tabs.update(t, self.tabs[t].all_seen()),
                ..self
            }).wf(),
    {
        let from = self.tabs[t];
        let to = from.all_seen();
        let after = WorkspaceView { active: t, tabs: self.tabs.update(t, to), ..self };
        assert(from.wf());
        assert forall|pane_id: PaneId| #[trigger] to.has(pane_id) <==> from.has(pane_id) by {
            if from.has(pane_id) {
                let i = choose|i: int| from.has_at(pane_id, i);
                assert(to.has_at(pane_id, i));
            }
            if to.has(pane_id) {
                let i = choose|i: int| to.has_at(pane_id, i);
                assert(from.has_at(pane_id, i));
            }
        }
        assert forall|u: int, v: int, pane_id: PaneId|
            0 <= u < v < after.tabs.len() implies !(#[trigger] after.tabs[u].has(pane_id)
            && #[trigger] after.tabs[v].has(pane_id)) by {
            assert(!(self.tabs[u].has(pane_id) && self.tabs[v].has(pane_id)));
        }
        assert forall|pane_id: PaneId|
            #![trigger after.order.contains(pane_id)]
            #![trigger after.has(pane_id)]
            after.order.contains(pane_id) <==> after.has(pane_id) by {
            assert(self.order.contains(pane_id) <==> self.has(pane_id));
            if after.has(pane_id) {
                let u = choose|u: int|
                    0 <= u < after.tabs.len() && (#[trigger] after.tabs[u]).has(pane_id);
                assert(self.tabs[u].has(pane_id));
            }
            if self.has(pane_id) {
                let u = choose|u: int|
                    0 <= u < self.tabs.len() && (#[trigger] self.tabs[u]).has(pane_id);
                assert(after.tabs[u].has(pane_id));
            }
        }
    }
}

impl<R> Workspace<R> {
    /// Close a tab and its panes. The last tab stays, and so does everything where
    /// there is no such tab; tells whether a tab was closed.
    pub fn close_tab(&mut self, idx: usize) -> (closed: bool)
        requires
            old(self)@.wf(),
        ensures
            final(self)@.wf(),
            closed == (old(self)@.tabs.len() > 1 && idx < old(self)@.tabs.len()),
            final(self)@ == if closed {
                old(self)@.without_tab(idx as int)
            } else {
                old(self)@
            },
    {
        if self.tabs.len() <= 1 || idx >= self.tabs.len() {
            return false;
        }
        let ghost before = self@;
        let tab = self.tabs.remove(idx);
        let gone = Self::pane_ids(&tab);
        self.public_panes = remaining(&self.public_panes, &gone);
        self.renumber_tabs();
        if self.active_tab >= self.tabs.len() {
            self.active_tab = self.tabs.len() - 1;
        } else if idx <= self.active_tab && self.active_tab > 0 {
            self.active_tab = self.active_tab - 1;
        }
        proof {
            assert(self@.tabs =~= before.without_tab(idx as int).tabs);
            before.lemma_without_tab(idx as int);
        }
        true
    }

    fn pane_ids(tab: &Tab<R>) -> (ids: Vec<PaneId>)
        ensures
            ids@ == tab@.ids(),
    {
        let mut ids: Vec<PaneId> = Vec::new();
        let mut i: usize = 0;
        while i < tab.panes.len()
            invariant
                i <= tab.panes.len(),
                ids@ == tab@.ids().take(i as int),
            decreases tab.panes.len() - i,
        {
            ids.push(tab.panes[i].id);
            i = i + 1;
            assert(ids@ =~= tab@.ids().take(i as int));
        }
        assert(tab@.ids().take(i as int) =~= tab@.ids());
        ids
    }

    fn renumber_tabs(&mut self)
        ensures
            final(self)@ == (WorkspaceView {
                tabs: renumbered(old(self)@.tabs),
                ..old(self)@
            }),
            final(self).tabs@.len() == old(self).tabs@.len(),
            final(self).active_tab == old(self).active_tab,
    {
        let ghost start = *self;
        let mut i: usize = 0;
        while i < self.tabs.len()
            invariant
                *self == (Workspace { tabs: self.tabs, ..start }),
                self.tabs@.len() == start.tabs@.len(),
                i <= self.tabs@.len(),
                forall|t: int|
                    0 <= t < i ==> #[trigger] self.tabs@[t] == (Tab {
                        number: (t + 1) as usize,
                        ..start.tabs@[t]
                    }),
                forall|t: int| i <= t < self.tabs@.len() ==> self.tabs@[t] == start.tabs@[t],
            decreases self.tabs@.len() - i,
        {
            self.tabs[i].number = i + 1;
            i = i + 1;
        }
        assert(self@.tabs =~= renumbered(start@.tabs));
    }

    /// Take a tab out and put it in again at `target_idx`.
    fn place_tab(&mut self, source_idx: usize, target_idx: usize)
        requires
            source_idx < old(self).tabs@.len(),
            target_idx < old(self).tabs@.len(),
        ensures
            final(self).tabs@.len() == old(self).tabs@.len(),
            final(self)@ == (WorkspaceView {
                tabs: renumbered(
                    old(self)@.tabs.remove(source_idx as int).insert(
                        target_idx as int,
                        old(self)@.tabs[source_idx as int],
                    ),
                ),
                ..old(self)@
            }),
    {
        let ghost before = self@;
        let tab = self.tabs.remove(source_idx);
        self.tabs.insert(target_idx, tab);
        assert(self@.tabs =~= before.tabs.remove(source_idx as int).insert(
            target_idx as int,
            before.tabs[source_idx as int],
        ));
        self.renumber_tabs();
    }

    /// Move a tab before the one at `insert_idx`. The active tab stays active, and
    /// the tabs are counted anew; tells whether anything moved.
    #[verifier::spinoff_prover]
    #[verifier::rlimit(30)]
    pub fn move_tab(&mut self, source_idx: usize, insert_idx: usize) -> (moved: bool)
        requires
            old(self)@.wf(),
        ensures
            final(self)@.wf(),
            moved == (source_idx < old(self)@.tabs.len() && insert_idx <= old(self)@.tabs.len()
                && old(self)@.target(source_idx as int, insert_idx as int) != source_idx),
            final(self)@ == if moved {
                old(self)@.moved(source_idx as int, insert_idx as int)
            } else {
                old(self)@
            },
    {
        if source_idx >= self.tabs.len() || insert_idx > self.tabs.len() {
            return false;
        }
        let target_idx: usize = if source_idx < insert_idx {
            insert_idx - 1
        } else {
            insert_idx
        };
        if source_idx == target_idx {
            return false;
        }
        let ghost before = self@;
        let active_root: PaneId = self.tabs[self.active_tab].root_pane;
        self.place_tab(source_idx, target_idx);
        proof {
            before.lemma_moved(source_idx as int, insert_idx as int);
        }
        self.active_tab = match self.position_of_root(active_root) {
            Some(idx) => idx,
            None => target_idx,
        };
        proof {
            let after = before.moved(source_idx as int, insert_idx as int);
            let place = WorkspaceView::<R>::place_after_move(
                before.active,
                source_idx as int,
                target_idx as int,
            );
            assert(after.tabs[place].root_pane == active_root);
            assert(self@.tabs[place].root_pane == active_root);
            after.lemma_roots_differ(place, self.active_tab as int);
        }
        true
    }

    fn position_of_root(&self, root_pane: PaneId) -> (place: Option<usize>)
        ensures
            match place {
                Some(t) => t < self.tabs@.len() && self.tabs@[t as int].root_pane == root_pane,
                None => forall|t: int|
                    0 <= t < self.tabs@.len() ==> self.tabs@[t].root_pane != root_pane,
            },
    {
        let mut t: usize = 0;
        while t < self.tabs.len()
            invariant
                t <= self.tabs.len(),
                forall|u: int| 0 <= u < t ==> self.tabs@[u].root_pane != root_pane,
            decreases self.tabs.len() - t,
        {
            if self.tabs[t].root_pane == root_pane {
                return Some(t);
            }
            t = t + 1;
        }
        None
    }

    /// Close the active tab.
    pub fn close_active_tab(&mut self) -> (closed: bool)
        requires
            old(self)@.wf(),
        ensures
            final(self)@.wf(),
            closed == (old(self)@.tabs.len() > 1),
            final(self)@ == if closed {
                old(self)@.without_tab(old(self)@.active)
            } else {
                old(self)@
            },
    {
        self.close_tab(self.active_tab)
    }
}

impl<R> WorkspaceView<R> {
    proof fn lemma_roots_differ(self, t: int, u: int)
        requires
            self.wf(),
            0 <= t < self.tabs.len(),
            0 <= u < self.tabs.len(),
            self.tabs[t].root_pane == self.tabs[u].root_pane,
        ensures
            t == u,
    {
        assert(self.tabs[t].wf());
        assert(self.tabs[u].wf());
        if t < u {
            assert(!(self.tabs[t].has(self.tabs[t].root_pane) && self.tabs[u].has(
                self.tabs[t].root_pane,
            )));
        } else if u < t {
            assert(!(self.tabs[u].has(self.tabs[t].root_pane) && self.tabs[t].has(
                self.tabs[t].root_pane,
            )));
        }
    }

    proof fn lemma_moved(self, source: int, insert: int)
        requires
            self.wf(),
            0 <= source < self.tabs.len(),
            0 <= insert <= self.tabs.len(),
        ensures
            self.moved(source, insert).wf(),
            forall|t: int|
                0 <= t < self.tabs.len() ==> {
                    let place = Self::place_after_move(t, source, self.target(source, insert));
                    &&& 0 <= place < self.tabs.len()
                    &&& self.moved(source, insert).tabs[place] == (TabView {
                        number: (place + 1) as nat,
                        ..#[trigger] self.tabs[t]
                    })
                },
    {
        let after = self.moved(source, insert);
        let target = self.target(source, insert);
        let from = |t: int| Self::place_after_move(t, target, source);
        assert(after.tabs.len() == self.tabs.len());
        assert forall|t: int| 0 <= t < self.tabs.len() implies {
            let place = Self::place_after_move(t, source, target);
            &&& 0 <= place < self.tabs.len()
            &&& after.tabs[place] == (TabView {
                number: (place + 1) as nat,
                ..#[trigger] self.tabs[t]
            })
        } by {
            let place = Self::place_after_move(t, source, target);
            assert(self.tabs.remove(source).insert(target, self.tabs[source])[place]
                == self.tabs[t]);
        }
        assert forall|t: int| 0 <= t < after.tabs.len() implies 0 <= #[trigger] from(t)
            < self.tabs.len() && Self::place_after_move(from(t), source, target) == t by {}
        assert forall|t: int| 0 <= t < after.tabs.len() implies (#[trigger] after.tabs[t])
            == (TabView { number: (t + 1) as nat, ..self.tabs[from(t)] }) by {
            let before = self.tabs[from(t)];
        }
        assert forall|t: int, pane_id: PaneId| 0 <= t < after.tabs.len() implies (
        #[trigger] after.tabs[t].has(pane_id) <==> self.tabs[from(t)].has(pane_id)) by {
            let a = after.tabs[t];
            let b = self.tabs[from(t)];
            if a.has(pane_id) {
                let i = choose|i: int| a.has_at(pane_id, i);
                assert(b.has_at(pane_id, i));
            }
            if b.has(pane_id) {
                let i = choose|i: int| b.has_at(pane_id, i);
                assert(a.has_at(pane_id, i));
            }
        }
        assert forall|t: int| 0 <= t < after.tabs.len() implies (#[trigger] after.tabs[t]).wf()
            && after.tabs[t].number == t + 1 by {
            let b = self.tabs[from(t)];
            assert(b.wf());
            assert(after.tabs[t].has(b.root_pane));
            assert(after.tabs[t].has(b.focused));
        }
        assert forall|t: int, u: int, pane_id: PaneId|
            0 <= t < u < after.tabs.len() implies !(#[trigger] after.tabs[t].has(pane_id)
            && #[trigger] after.tabs[u].has(pane_id)) by {
            let a = from(t);
            let b = from(u);
            assert(a != b);
            if a < b {
                assert(!(self.tabs[a].has(pane_id) && self.tabs[b].has(pane_id)));
            } else {
                assert(!(self.tabs[b].has(pane_id) && self.tabs[a].has(pane_id)));
            }
        }
        assert forall|pane_id: PaneId|
            #![trigger after.order.contains(pane_id)]
            #![trigger after.has(pane_id)]
            after.order.contains(pane_id) <==> after.has(pane_id) by {
            assert(self.order.contains(pane_id) <==> self.has(pane_id));
            if after.has(pane_id) {
                let u = choose|u: int|
                    0 <= u < after.tabs.len() && (#[trigger] after.tabs[u]).has(pane_id);
                assert(self.tabs[from(u)].has(pane_id));
            }
            if self.has(pane_id) {
                let u = choose|u: int|
                    0 <= u < self.tabs.len() && (#[trigger] self.tabs[u]).has(pane_id);
                let place = Self::place_after_move(u, source, target);
                assert(from(place) == u);
                assert(after.tabs[place].has(pane_id));
            }
        }
    }
}

/// Moving a tab keeps the active tab: the same panes are in it, with the same
/// root, wherever it now stands. Every tab is numbered by its place.
pub proof fn law_moving_a_tab_keeps_the_active_one<R>(
    workspace: WorkspaceView<R>,
    source: int,
    insert: int,
)
    requires
        workspace.wf(),
        0 <= source < workspace.tabs.len(),
        0 <= insert <= workspace.tabs.len(),
    ensures
        ({
            let after = workspace.moved(source, insert);
            &&& after.tabs[after.active].root_pane == workspace.tabs[workspace.active].root_pane
            &&& after.tabs[after.active].panes == workspace.tabs[workspace.active].panes
            &&& after.tabs[after.active].custom_name
                == workspace.tabs[workspace.active].custom_name
            &&& forall|t: int|
                0 <= t < after.tabs.len() ==> (#[trigger] after.tabs[t]).number == t + 1
        }),
{
    workspace.lemma_moved(source, insert);
    assert(workspace.tabs[workspace.active].panes.len() >= 0);
}

impl<R> WorkspaceView<R> {
    /// The workspace with another tab behind the others.
    pub open spec fn with_tab(self, pane: Pane<R>) -> WorkspaceView<R> {
        WorkspaceView {
            tabs: self.tabs.push(
                TabView {
                    custom_name: None,
                    number: self.tabs.len() + 1,
                    root_pane: pane.id,
                    focused: pane.id,
                    panes: seq![pane],
                    zoomed: false,
                },
            ),
            order: self.order.push(pane.id),
            ..self
        }
    }

    /// The workspace with another pane in its active tab.
    pub open spec fn with_pane(self, pane: Pane<R>, rest: TabFocus) -> WorkspaceView<R> {
        WorkspaceView {
            tabs: self.tabs.update(self.active, self.tabs[self.active].with(pane, rest)),
            order: self.order.push(pane.id),
            ..self
        }
    }

    proof fn lemma_new_number(self, after: WorkspaceView<R>, pane_id: PaneId)
        requires
            self.wf(),
            !self.has(pane_id),
            after.order == self.order.push(pane_id),
            forall|other: PaneId|
                #[trigger] after.has(other) <==> self.has(other) || other == pane_id,
        ensures
            after.order.no_duplicates(),
            forall|other: PaneId|
                #![trigger after.order.contains(other)]
                #![trigger after.has(other)]
                after.order.contains(other) <==> after.has(other),
    {
        assert(!self.order.contains(pane_id));
        assert forall|other: PaneId|
            #![trigger after.order.contains(other)]
            #![trigger after.has(other)]
            after.order.contains(other) <==> after.has(other) by {
            assert(self.order.contains(other) <==> self.has(other));
            if after.order.contains(other) {
                let i = choose|i: int| 0 <= i < after.order.len() && after.order[i] == other;
                if i < self.order.len() {
                    assert(self.order[i] == other);
                }
            }
            if self.order.contains(other) {
                let i = choose|i: int| 0 <= i < self.order.len() && self.order[i] == other;
                assert(after.order[i] == other);
            }
            assert(after.order[self.order.len() as int] == pane_id);
        }
    }

    proof fn lemma_with_tab(self, pane: Pane<R>)
        requires
            self.wf(),
            !self.has(pane.id),
        ensures
            self.with_tab(pane).wf(),
    {
        let after = self.with_tab(pane);
        let last = self.tabs.len() as int;
        assert(after.tabs[last].has_at(pane.id, 0));
        assert forall|other: PaneId| #[trigger] after.tabs[last].has(other) <==> other == pane.id by {
            if after.tabs[last].has(other) {
                let i = choose|i: int| after.tabs[last].has_at(other, i);
            }
        }
        assert forall|t: int| 0 <= t < last implies after.tabs[t] == self.tabs[t] by {}
        assert forall|t: int, u: int, other: PaneId|
            0 <= t < u < after.tabs.len() implies !(#[trigger] after.tabs[t].has(other)
            && #[trigger] after.tabs[u].has(other)) by {
            if u < last {
                assert(!(self.tabs[t].has(other) && self.tabs[u].has(other)));
            } else if other == pane.id {
                assert(!self.tabs[t].has(other));
            }
        }
        assert forall|other: PaneId| #[trigger]
            after.has(other) <==> self.has(other) || other == pane.id by {
            if after.has(other) {
                let t = choose|t: int|
                    0 <= t < after.tabs.len() && (#[trigger] after.tabs[t]).has(other);
                if t < last {
                    assert(self.tabs[t].has(other));
                }
            }
            if self.has(other) {
                let t = choose|t: int|
                    0 <= t < self.tabs.len() && (#[trigger] self.tabs[t]).has(other);
                assert(after.tabs[t].has(other));
            }
        }
        self.lemma_new_number(after, pane.id);
    }

    proof fn lemma_with_pane(self, pane: Pane<R>, rest: TabFocus)
        requires
            self.wf(),
            !self.has(pane.id),
            self.tabs[self.active].has(rest.root_pane) || rest.root_pane == pane.id,
            self.tabs[self.active].has(rest.focused) || rest.focused == pane.id,
        ensures
            self.with_pane(pane, rest).wf(),
    {
        let after = self.with_pane(pane, rest);
        let from = self.tabs[self.active];
        let to = after.tabs[self.active];
        assert(from.wf());
        assert(to.has_at(pane.id, from.panes.len() as int));
        assert forall|other: PaneId| #[trigger]
            to.has(other) <==> from.has(other) || other == pane.id by {
            if to.has(other) {
                let i = choose|i: int| to.has_at(other, i);
                if i < from.panes.len() {
                    assert(from.has_at(other, i));
                }
            }
            if from.has(other) {
                let i = choose|i: int| from.has_at(other, i);
                assert(to.has_at(other, i));
            }
        }
        assert(to.wf()) by {
            assert forall|k: int, l: int| 0 <= k < l < to.panes.len() implies to.panes[k].id
                != to.panes[l].id by {
                if l == from.panes.len() {
                    if from.panes[k].id == pane.id {
                        assert(from.has_at(pane.id, k));
                        assert(from.has(pane.id));
                    }
                }
            }
        }
        assert forall|t: int, u: int, other: PaneId|
            0 <= t < u < after.tabs.len() implies !(#[trigger] after.tabs[t].has(other)
            && #[trigger] after.tabs[u].has(other)) by {
            assert(!(self.tabs[t].has(other) && self.tabs[u].has(other)));
            if other == pane.id {
                assert(!self.tabs[t].has(other));
                assert(!self.tabs[u].has(other));
            }
        }
        assert forall|other: PaneId| #[trigger]
            after.has(other) <==> self.has(other) || other == pane.id by {
            if after.has(other) {
                let t = choose|t: int|
                    0 <= t < after.tabs.len() && (#[trigger] after.tabs[t]).has(other);
                if other != pane.id {
                    assert(self.tabs[t].has(other));
                }
            }
            if self.has(other) {
                let t = choose|t: int|
                    0 <= t < self.tabs.len() && (#[trigger] self.tabs[t]).has(other);
                assert(after.tabs[t].has(other));
            }
            if other == pane.id {
                assert(after.tabs[self.active].has(other));
            }
        }
        self.lemma_new_number(after, pane.id);
    }
}

/// New panes are numbered behind all others, which keep their numbers.
pub proof fn law_new_panes_are_numbered_last<R>(
    workspace: WorkspaceView<R>,
    pane: Pane<R>,
    rest: TabFocus,
)
    requires
        workspace.wf(),
        !workspace.has(pane.id),
    ensures
        workspace.with_tab(pane).order.last() == pane.id,
        workspace.with_tab(pane).order.drop_last() == workspace.order,
        workspace.with_pane(pane, rest).order.last() == pane.id,
        workspace.with_pane(pane, rest).order.drop_last() == workspace.order,
{
    assert(workspace.order.push(pane.id).drop_last() =~= workspace.order);
}

impl<R> Workspace<R> {
    /// Put a tab with a newly opened pane behind the others, and say where it is.
    /// Where the pane could not be opened, nothing changes.
    pub fn create_tab(&mut self, opened: Result<Pane<R>, String>) -> (created: Result<
        usize,
        String,
    >)
        requires
            old(self)@.wf(),
            old(self)@.tabs.len() < usize::MAX,
            opened matches Ok(pane) ==> !old(self)@.has(pane.id),
        ensures
            final(self)@.wf(),
            match opened {
                Ok(pane) => final(self)@ == old(self)@.with_tab(pane) && created == Ok::<
                    usize,
                    String,
                >(old(self)@.tabs.len() as usize),
                Err(reason) => *final(self) == *old(self) && created == Err::<usize, String>(
                    reason,
                ),
            },
    {
        let pane = match opened {
            Ok(pane) => pane,
            Err(reason) => {
                return Err(reason);
            },
        };
        let ghost before = self@;
        let ghost new_pane = pane;
        let idx: usize = self.tabs.len();
        let tab = Self::single_pane_tab(idx + 1, pane);
        self.public_panes.push(tab.root_pane);
        self.tabs.push(tab);
        proof {
            assert(self@.tabs =~= before.with_tab(new_pane).tabs);
            before.lemma_with_tab(new_pane);
        }
        Ok(idx)
    }

    /// Put a newly opened pane into the active tab, which is focused as the tiling
    /// says. Where the pane could not be opened, nothing changes.
    pub fn split_focused(&mut self, opened: Result<(Pane<R>, TabFocus), String>) -> (split: Result<
        PaneId,
        String,
    >)
        requires
            old(self)@.wf(),
            opened matches Ok((pane, rest)) ==> {
                &&& !old(self)@.has(pane.id)
                &&& old(self)@.tabs[old(self)@.active].has(rest.root_pane) || rest.root_pane
                    == pane.id
                &&& old(self)@.tabs[old(self)@.active].has(rest.focused) || rest.focused
                    == pane.id
            },
        ensures
            final(self)@.wf(),
            match opened {
                Ok((pane, rest)) => final(self)@ == old(self)@.with_pane(pane, rest) && split
                    == Ok::<PaneId, String>(pane.id),
                Err(reason) => *final(self) == *old(self) && split == Err::<PaneId, String>(
                    reason,
                ),
            },
    {
        let (pane, rest) = match opened {
            Ok(split) => split,
            Err(reason) => {
                return Err(reason);
            },
        };
        let ghost before = self@;
        let ghost new_pane = pane;
        let pane_id: PaneId = pane.id;
        let active: usize = self.active_tab;
        self.tabs[active].panes.push(pane);
        self.tabs[active].root_pane = rest.root_pane;
        self.tabs[active].focused = rest.focused;
        self.tabs[active].zoomed = rest.zoomed;
        self.public_panes.push(pane_id);
        proof {
            assert(self@.tabs =~= before.with_pane(new_pane, rest).tabs);
            before.lemma_with_pane(new_pane, rest);
        }
        Ok(pane_id)
    }

    fn find(&self, pane_id: PaneId) -> (place: Option<(usize, usize)>)
        ensures
            match place {
                Some((t, i)) => self@.pane_at(pane_id, t as int, i as int),
                None => !self@.has(pane_id),
            },
    {
        let mut t: usize = 0;
        while t < self.tabs.len()
            invariant
                t <= self.tabs.len(),
                forall|u: int| 0 <= u < t ==> !(#[trigger] self@.tabs[u]).has(pane_id),
            decreases self.tabs.len() - t,
        {
            match self.tabs[t].pane_at(pane_id) {
                Some(i) => {
                    return Some((t, i));
                },
                None => {},
            }
            assert(!self@.tabs[t as int].has(pane_id));
            t = t + 1;
        }
        None
    }

    /// The tab that a pane is in.
    pub fn find_tab_index_for_pane(&self, pane_id: PaneId) -> (index: Option<usize>)
        requires
            self@.wf(),
        ensures
            match index {
                Some(t) => t < self@.tabs.len() && self@.tabs[t as int].has(pane_id),
                None => !self@.has(pane_id),
            },
    {
        match self.find(pane_id) {
            Some((t, _)) => Some(t),
            None => None,
        }
    }

    /// Take a pane out of the workspace: out of its tab, or with its tab where it
    /// is alone there. Hands back its runtime. The last pane of all stays.
    fn take_pane(&mut self, t: usize, i: usize, rest: TabFocus) -> (taken: Closed<R>)
        requires
            old(self)@.wf(),
            t < old(self)@.tabs.len(),
            i < old(self)@.tabs[t as int].panes.len(),
            old(self)@.rest_fits(t as int, i as int, rest),
        ensures
            final(self)@.wf(),
            final(self)@ == old(self)@.left_by(t as int, i as int, rest),
            taken.close_workspace == old(self)@.is_last_pane(t as int),
            taken.runtime == if old(self)@.tabs[t as int].panes.len() > 1 {
                old(self)@.tabs[t as int].panes[i as int].runtime
            } else {
                None
            },
    {
        let ghost before = self@;
        if self.tabs[t].panes.len() <= 1 {
            if self.tabs.len() <= 1 {
                return Closed { close_workspace: true, runtime: None };
            }
            let _ = self.close_tab(t);
            return Closed { close_workspace: false, runtime: None };
        }
        let pane = self.tabs[t].panes.remove(i);
        self.tabs[t].root_pane = rest.root_pane;
        self.tabs[t].focused = rest.focused;
        self.tabs[t].zoomed = rest.zoomed;
        let mut gone: Vec<PaneId> = Vec::new();
        gone.push(pane.id);
        assert(gone@ =~= seq![before.tabs[t as int].panes[i as int].id]);
        self.public_panes = remaining(&self.public_panes, &gone);
        proof {
            assert(self@.tabs =~= before.without_pane(t as int, i as int, rest).tabs);
            before.lemma_without_pane(t as int, i as int, rest);
        }
        Closed { close_workspace: false, runtime: pane.runtime }
    }

    /// Take a pane out of the workspace without shutting its runtime down; says
    /// whether the workspace is to close. `rest` is what the tiling says of the
    /// tab afterwards, where other panes are in it.
    pub fn remove_pane(&mut self, pane_id: PaneId, rest: TabFocus) -> (close_workspace: bool)
        requires
            old(self)@.wf(),
            forall|t: int, i: int| #[trigger]
                old(self)@.pane_at(pane_id, t, i) ==> old(self)@.rest_fits(t, i, rest),
        ensures
            final(self)@.wf(),
            !old(self)@.has(pane_id) ==> !close_workspace && *final(self) == *old(self),
            forall|t: int, i: int| #[trigger]
                old(self)@.pane_at(pane_id, t, i) ==> final(self)@ == old(self)@.left_by(t, i, rest)
                    && close_workspace == old(self)@.is_last_pane(t),
    {
        let ghost before = self@;
        match self.find(pane_id) {
            None => {
                assert forall|t: int, i: int| #[trigger] before.pane_at(pane_id, t, i) implies false by {
                    assert(before.tabs[t].has(pane_id));
                }
                false
            },
            Some((t, i)) => {
                proof {
                    assert(before.tabs[t as int].has(pane_id));
                    assert forall|u: int, k: int| #[trigger]
                        before.pane_at(pane_id, u, k) implies u == t && k == i by {
                        before.lemma_one_place(pane_id, u, k, t as int, i as int);
                    }
                }
                self.take_pane(t, i, rest).close_workspace
            },
        }
    }

    /// Close a pane: as [`Workspace::remove_pane`], and its runtime is handed back
    /// to be shut down, where other panes are in its tab.
    pub fn close_pane(&mut self, pane_id: PaneId, rest: TabFocus) -> (closed: Closed<R>)
        requires
            old(self)@.wf(),
            forall|t: int, i: int| #[trigger]
                old(self)@.pane_at(pane_id, t, i) ==> old(self)@.rest_fits(t, i, rest),
        ensures
            final(self)@.wf(),
            !old(self)@.has(pane_id) ==> !closed.close_workspace && closed.runtime is None
                && *final(self) == *old(self),
            forall|t: int, i: int| #[trigger]
                old(self)@.pane_at(pane_id, t, i) ==> {
                    &&& final(self)@ == old(self)@.left_by(t, i, rest)
                    &&& closed.close_workspace == old(self)@.is_last_pane(t)
                    &&& closed.runtime == if old(self)@.tabs[t].panes.len() > 1 {
                        old(self)@.tabs[t].panes[i].runtime
                    } else {
                        None
                    }
                },
    {
        let ghost before = self@;
        match self.find(pane_id) {
            None => {
                assert forall|t: int, i: int| #[trigger] before.pane_at(pane_id, t, i) implies false by {
                    assert(before.tabs[t].has(pane_id));
                }
                Closed { close_workspace: false, runtime: None }
            },
            Some((t, i)) => {
                proof {
                    assert(before.tabs[t as int].has(pane_id));
                    assert forall|u: int, k: int| #[trigger]
                        before.pane_at(pane_id, u, k) implies u == t && k == i by {
                        before.lemma_one_place(pane_id, u, k, t as int, i as int);
                    }
                }
                self.take_pane(t, i, rest)
            },
        }
    }

    /// Close the focused pane of the active tab.
    pub fn close_focused(&mut self, rest: TabFocus) -> (closed: Closed<R>)
        requires
            old(self)@.wf(),
            forall|i: int| #[trigger]
                old(self)@.tabs[old(self)@.active].has_at(
                    old(self)@.tabs[old(self)@.active].focused,
                    i,
                ) ==> old(self)@.rest_fits(old(self)@.active, i, rest),
        ensures
            final(self)@.wf(),
            forall|i: int| #[trigger]
                old(self)@.tabs[old(self)@.active].has_at(
                    old(self)@.tabs[old(self)@.active].focused,
                    i,
                ) ==> {
                    let t = old(self)@.active;
                    &&& final(self)@ == old(self)@.left_by(t, i, rest)
                    &&& closed.close_workspace == old(self)@.is_last_pane(t)
                    &&& closed.runtime == if old(self)@.tabs[t].panes.len() > 1 {
                        old(self)@.tabs[t].panes[i].runtime
                    } else {
                        None
                    }
                },
    {
        let active: usize = self.active_tab;
        let focused: PaneId = self.tabs[active].focused;
        let ghost before = self@;
        assert(before.tabs[active as int].wf());
        match self.tabs[active].pane_at(focused) {
            None => {
                assert(!before.tabs[active as int].has(focused));
                Closed { close_workspace: false, runtime: None }
            },
            Some(i) => {
                assert(before.tabs[active as int].has_at(focused, i as int));
                self.take_pane(active, i, rest)
            },
        }
    }

    /// The public number of a pane.
    pub fn public_pane_number(&self, pane_id: PaneId) -> (number: Option<usize>)
        requires
            self@.wf(),
        ensures
            match number {
                Some(number) => 1 <= number <= self@.order.len() && self@.order[number - 1]
                    == pane_id,
                None => !self@.has(pane_id),
            },
    {
        let mut i: usize = 0;
        while i < self.public_panes.len()
            invariant
                i <= self.public_panes.len(),
                forall|k: int| 0 <= k < i ==> self.public_panes@[k] != pane_id,
            decreases self.public_panes.len() - i,
        {
            if self.public_panes[i] == pane_id {
                return Some(i + 1);
            }
            i = i + 1;
        }
        assert(!self@.order.contains(pane_id));
        None
    }

    /// Give the workspace a name of its own.
    pub fn set_custom_name(&mut self, name: String)
        ensures
            final(self)@ == (WorkspaceView { custom_name: Some(name), ..old(self)@ }),
    {
        self.custom_name = Some(name);
    }

    /// The directory that stands for the workspace: that of the first tab's root
    /// pane, where it is known, or else the one it was opened in.
    pub fn resolved_identity_cwd(&self) -> (cwd: Option<String>)
        requires
            self@.wf(),
        ensures
            cwd == Some(self@.identity()),
    {
        let first = &self.tabs[0];
        assert(self@.tabs[0].wf());
        proof {
            let i = choose|i: int| self@.tabs[0].has_at(self@.tabs[0].root_pane, i);
            assert(first@.has_at(first.root_pane, i));
        }
        match first.root_cwd() {
            Some(cwd) => Some(cwd),
            None => Some(self.identity_cwd.clone()),
        }
    }

    /// What the workspace is called: its own name, or else the label of its
    /// directory.
    pub fn display_name(&self, facts: &Vec<DirectoryFacts>) -> (name: String)
        requires
            self@.wf(),
        ensures
            name@ == match self.custom_name {
                Some(custom) => custom@,
                None => label_of(facts@, self@.identity()@),
            },
    {
        if let Some(custom) = &self.custom_name {
            return custom.clone();
        }
        let cwd = match self.resolved_identity_cwd() {
            Some(cwd) => cwd,
            None => "workspace".to_owned(),
        };
        match find_facts(facts, cwd.as_str()) {
            Some(i) => match &facts[i].label {
                Some(label) => label.clone(),
                None => last_name_of(cwd.as_str()),
            },
            None => last_name_of(cwd.as_str()),
        }
    }

    /// The branch that the workspace's directory is on.
    pub fn branch(&self, facts: &Vec<DirectoryFacts>) -> (branch: Option<String>)
        requires
            self@.wf(),
        ensures
            branch == match facts_at(facts@, self@.identity()@) {
                Some(i) => facts@[i].branch,
                None => None,
            },
    {
        match self.resolved_identity_cwd() {
            Some(cwd) => match find_facts(facts, cwd.as_str()) {
                Some(i) => match &facts[i].branch {
                    Some(branch) => Some(branch.clone()),
                    None => None,
                },
                None => None,
            },
            None => None,
        }
    }

    pub fn git_ahead_behind(&self) -> (counts: Option<(usize, usize)>)
        ensures
            counts == self.cached_git_ahead_behind,
    {
        self.cached_git_ahead_behind
    }

    /// Look the commit counts of the workspace's directory up anew.
    pub fn refresh_git_ahead_behind(&mut self, facts: &Vec<DirectoryFacts>)
        requires
            old(self)@.wf(),
        ensures
            final(self)@.wf(),
            final(self)@ == (WorkspaceView {
                git: match facts_at(facts@, old(self)@.identity()@) {
                    Some(i) => facts@[i].ahead_behind,
                    None => None,
                },
                ..old(self)@
            }),
    {
        let ghost before = self@;
        self.cached_git_ahead_behind = match self.resolved_identity_cwd() {
            Some(cwd) => match find_facts(facts, cwd.as_str()) {
                Some(i) => facts[i].ahead_behind,
                None => None,
            },
            None => None,
        };
        proof {
            let after = self@;
            assert(after.tabs == before.tabs);
            assert forall|pane_id: PaneId| #[trigger] after.has(pane_id) <==> before.has(pane_id) by {
                if before.has(pane_id) {
                    let t = choose|t: int|
                        0 <= t < before.tabs.len() && (#[trigger] before.tabs[t]).has(pane_id);
                    assert(after.tabs[t].has(pane_id));
                }
                if after.has(pane_id) {
                    let t = choose|t: int|
                        0 <= t < after.tabs.len() && (#[trigger] after.tabs[t]).has(pane_id);
                    assert(before.tabs[t].has(pane_id));
                }
            }
        }
    }

    /// The runtime of the focused pane of the active tab.
    pub fn focused_runtime(&self) -> (runtime: Option<&R>)
        requires
            self@.wf(),
        ensures
            forall|i: int| #[trigger]
                self@.tabs[self@.active].has_at(self@.tabs[self@.active].focused, i)
                    ==> match runtime {
                    Some(runtime) => self@.tabs[self@.active].panes[i].runtime == Some(*runtime),
                    None => self@.tabs[self@.active].panes[i].runtime is None,
                },
    {
        assert(self@.tabs[self@.active].wf());
        let tab = &self.tabs[self.active_tab];
        let runtime = tab.focused_runtime();
        assert forall|i: int| #[trigger]
            self@.tabs[self@.active].has_at(self@.tabs[self@.active].focused, i) implies match runtime {
            Some(runtime) => self@.tabs[self@.active].panes[i].runtime == Some(*runtime),
            None => self@.tabs[self@.active].panes[i].runtime is None,
        } by {
            assert(tab@.has_at(tab.focused, i));
        }
        runtime
    }

    /// What is known of the program in a pane.
    pub fn pane_state(&self, pane_id: PaneId) -> (state: Option<&PaneState>)
        requires
            self@.wf(),
        ensures
            state is None <==> !self@.has(pane_id),
            forall|t: int, i: int| #[trigger]
                self@.pane_at(pane_id, t, i) ==> (state matches Some(state) && *state
                    == self@.tabs[t].panes[i].state),
    {
        match self.find(pane_id) {
            None => {
                assert forall|t: int, i: int| #[trigger] self@.pane_at(pane_id, t, i) implies false by {
                    assert(self@.tabs[t].has(pane_id));
                }
                None
            },
            Some((t, i)) => {
                proof {
                    assert(self@.tabs[t as int].has(pane_id));
                    assert forall|u: int, k: int| #[trigger]
                        self@.pane_at(pane_id, u, k) implies u == t && k == i by {
                        self@.lemma_one_place(pane_id, u, k, t as int, i as int);
                    }
                }
                Some(&self.tabs[t].panes[i].state)
            },
        }
    }

    /// The runtime of a pane.
    pub fn runtime(&self, pane_id: PaneId) -> (runtime: Option<&R>)
        requires
            self@.wf(),
        ensures
            !self@.has(pane_id) ==> runtime is None,
            forall|t: int, i: int| #[trigger]
                self@.pane_at(pane_id, t, i) ==> match runtime {
                    Some(runtime) => self@.tabs[t].panes[i].runtime == Some(*runtime),
                    None => self@.tabs[t].panes[i].runtime is None,
                },
    {
        match self.find(pane_id) {
            None => {
                assert forall|t: int, i: int| #[trigger] self@.pane_at(pane_id, t, i) implies false by {
                    assert(self@.tabs[t].has(pane_id));
                }
                None
            },
            Some((t, i)) => {
                proof {
                    assert(self@.tabs[t as int].has(pane_id));
                    assert forall|u: int, k: int| #[trigger]
                        self@.pane_at(pane_id, u, k) implies u == t && k == i by {
                        self@.lemma_one_place(pane_id, u, k, t as int, i as int);
                    }
                }
                match &self.tabs[t].panes[i].runtime {
                    Some(runtime) => Some(runtime),
                    None => None,
                }
            },
        }
    }

    /// The focused pane of the active tab.
    pub fn focused_pane_id(&self) -> (pane_id: Option<PaneId>)
        ensures
            pane_id == if self.active_tab < self.tabs@.len() {
                Some(self.tabs@[self.active_tab as int].focused)
            } else {
                None
            },
    {
        match self.active_tab() {
            Some(tab) => Some(tab.focused),
            None => None,
        }
    }
}

impl<R> WorkspaceView<R> {
    /// The directory that stands for the workspace.
    pub open spec fn identity(self) -> String {
        let root = choose|i: int| self.tabs[0].has_at(self.tabs[0].root_pane, i);
        match self.tabs[0].panes[root].cwd {
            Some(cwd) => cwd,
            None => self.identity_cwd,
        }
    }
}

/// What a directory is called: its label, or else its last name.
pub open spec fn label_of(facts: Seq<DirectoryFacts>, path: Seq<char>) -> Seq<char> {
    match facts_at(facts, path) {
        Some(i) => match facts[i].label {
            Some(label) => label@,
            None => last_name(path),
        },
        None => last_name(path),
    }
}

/// Whether a pane is in the active tab of the active workspace, where the user
/// sees it.
pub fn is_in_active_tab<R>(
    workspaces: &Vec<Workspace<R>>,
    active: Option<usize>,
    pane_id: PaneId,
) -> (shown: bool)
    requires
        forall|w: int| 0 <= w < workspaces@.len() ==> (#[trigger] workspaces@[w])@.wf(),
    ensures
        shown == (active matches Some(w) && w < workspaces@.len() && {
            let workspace = workspaces@[w as int]@;
            workspace.tabs[workspace.active].has(pane_id)
        }),
{
    let workspace = match active {
        Some(w) => {
            if w >= workspaces.len() {
                return false;
            }
            &workspaces[w]
        },
        None => {
            return false;
        },
    };
    match workspace.find_tab_index_for_pane(pane_id) {
        Some(t) => {
            proof {
                let view = workspace@;
                if view.tabs[view.active].has(pane_id) {
                    let i = choose|i: int| view.tabs[view.active].has_at(pane_id, i);
                    let k = choose|k: int| view.tabs[t as int].has_at(pane_id, k);
                    view.lemma_one_place(pane_id, view.active, i, t as int, k);
                }
            }
            workspace.active_tab_index() == t
        },
        None => false,
    }
}

/// A new public workspace identity, from the time and a count of the workspaces.
pub fn generate_workspace_id(micros: u128, counter: u64) -> (id: String)
    ensures
        id@ == "w"@ + text::hexadecimal(micros as nat) + text::hexadecimal(counter as nat),
{
    let mut id = "w".to_owned();
    id.append(text::hexadecimal_text(micros).as_str());
    id.append(text::hexadecimal_text(counter as u128).as_str());
    id
}

/// Closing another tab keeps the active one: before or behind it, the same panes
/// are in the active tab afterwards, with the same root, focus, name and zoom.
pub proof fn law_closing_another_tab_keeps_the_active_one<R>(
    workspace: WorkspaceView<R>,
    idx: int,
)
    requires
        0 <= workspace.active < workspace.tabs.len(),
        0 <= idx < workspace.tabs.len(),
        idx != workspace.active,
    ensures
        ({
            let after = workspace.without_tab(idx);
            let now = after.tabs[after.active];
            let was = workspace.tabs[workspace.active];
            &&& 0 <= after.active < after.tabs.len()
            &&& now.panes == was.panes
            &&& now.root_pane == was.root_pane
            &&& now.focused == was.focused
            &&& now.custom_name == was.custom_name
            &&& now.zoomed == was.zoomed
        }),
{
}

/// Closing the active tab makes the tab before it active, and the one behind it
/// where it was the first.
pub proof fn law_closing_the_active_tab_steps_back<R>(workspace: WorkspaceView<R>)
    requires
        0 <= workspace.active < workspace.tabs.len(),
        workspace.tabs.len() > 1,
    ensures
        ({
            let after = workspace.without_tab(workspace.active);
            let now = after.tabs[after.active];
            let heir = if workspace.active > 0 {
                workspace.tabs[workspace.active - 1]
            } else {
                workspace.tabs[1]
            };
            &&& 0 <= after.active < after.tabs.len()
            &&& now.panes == heir.panes
            &&& now.root_pane == heir.root_pane
            &&& now.focused == heir.focused
            &&& now.custom_name == heir.custom_name
        }),
{
}

/// Closing a tab takes that tab and nothing else: the others stay in their
/// order, numbered by their places, and exactly the panes of the closed tab lose
/// their public numbers.
pub proof fn law_closing_a_tab_takes_only_it<R>(
    workspace: WorkspaceView<R>,
    idx: int,
    pane_id: PaneId,
)
    requires
        workspace.wf(),
        0 <= idx < workspace.tabs.len(),
    ensures
        ({
            let after = workspace.without_tab(idx);
            &&& after.tabs.len() == workspace.tabs.len() - 1
            &&& forall|t: int|
                0 <= t < after.tabs.len() ==> #[trigger] after.tabs[t] == (TabView {
                    number: (t + 1) as nat,
                    ..workspace.tabs[if t < idx {
                        t
                    } else {
                        t + 1
                    }]
                })
            &&& after.order.contains(pane_id) <==> workspace.order.contains(pane_id)
                && !workspace.tabs[idx].has(pane_id)
            &&& after.id == workspace.id && after.custom_name == workspace.custom_name
            &&& after.identity_cwd == workspace.identity_cwd && after.git == workspace.git
        }),
{
    lemma_except(workspace.order, workspace.tabs[idx].ids());
    workspace.tabs[idx].lemma_ids(pane_id);
    let after = workspace.without_tab(idx);
    assert(after.order.contains(pane_id) <==> workspace.order.contains(pane_id)
        && !workspace.tabs[idx].ids().contains(pane_id));
}

/// A pane that leaves a tab with others takes only itself: the other panes stay
/// in their order, root and focus are what the tiling says, every other tab and
/// the active one stay, and only its public number is given up.
pub proof fn law_a_pane_leaves_alone<R>(
    workspace: WorkspaceView<R>,
    t: int,
    i: int,
    rest: TabFocus,
)
    requires
        workspace.wf(),
        0 <= t < workspace.tabs.len(),
        0 <= i < workspace.tabs[t].panes.len(),
        workspace.tabs[t].panes.len() > 1,
    ensures
        ({
            let after = workspace.left_by(t, i, rest);
            &&& after.tabs.len() == workspace.tabs.len()
            &&& after.tabs[t].panes.len() == workspace.tabs[t].panes.len() - 1
            &&& forall|k: int|
                0 <= k < after.tabs[t].panes.len() ==> #[trigger] after.tabs[t].panes[k]
                    == workspace.tabs[t].panes[if k < i {
                    k
                } else {
                    k + 1
                }]
            &&& after.tabs[t].root_pane == rest.root_pane
            &&& after.tabs[t].focused == rest.focused
            &&& after.tabs[t].zoomed == rest.zoomed
            &&& after.tabs[t].custom_name == workspace.tabs[t].custom_name
            &&& after.tabs[t].number == workspace.tabs[t].number
            &&& forall|u: int|
                0 <= u < workspace.tabs.len() && u != t ==> #[trigger] after.tabs[u]
                    == workspace.tabs[u]
            &&& after.active == workspace.active
            &&& !after.order.contains(workspace.tabs[t].panes[i].id)
            &&& forall|pane_id: PaneId|
                pane_id != workspace.tabs[t].panes[i].id ==> (#[trigger] after.order.contains(
                    pane_id,
                ) <==> workspace.order.contains(pane_id))
            &&& !workspace.is_last_pane(t)
        }),
{
    let gone = seq![workspace.tabs[t].panes[i].id];
    lemma_except(workspace.order, gone);
    assert(gone[0] == workspace.tabs[t].panes[i].id);
}

/// A pane that is alone in its tab takes the tab with it, as closing the tab
/// would; the last pane of all stays, and then the workspace is to close.
pub proof fn law_the_last_pane_of_a_tab_takes_it_along<R>(
    workspace: WorkspaceView<R>,
    t: int,
    rest: TabFocus,
)
    requires
        0 <= t < workspace.tabs.len(),
        workspace.tabs[t].panes.len() == 1,
    ensures
        workspace.tabs.len() > 1 ==> workspace.left_by(t, 0, rest) == workspace.without_tab(t)
            && !workspace.is_last_pane(t),
        workspace.tabs.len() == 1 ==> workspace.left_by(t, 0, rest) == workspace
            && workspace.is_last_pane(t),
{
}

/// A new tab comes last, holds just the new pane, which is its root and has its
/// focus, and has no name of its own. The tab that is active stays so, and no
/// other tab changes.
pub proof fn law_a_new_tab_comes_last<R>(workspace: WorkspaceView<R>, pane: Pane<R>)
    ensures
        ({
            let after = workspace.with_tab(pane);
            let last = after.tabs.last();
            &&& after.tabs.len() == workspace.tabs.len() + 1
            &&& after.tabs.drop_last() == workspace.tabs
            &&& last.panes.len() == 1 && last.panes[0] == pane
            &&& last.root_pane == pane.id && last.focused == pane.id
            &&& last.number == workspace.tabs.len() + 1
            &&& last.custom_name is None && !last.zoomed
            &&& after.active == workspace.active
            &&& after.order.len() == workspace.order.len() + 1 && after.order.last() == pane.id
            &&& after.order.drop_last() == workspace.order
        }),
{
}

/// A split adds its pane to the active tab, behind the others, with root and
/// focus as the tiling says. No other tab changes, and no pane is numbered anew.
pub proof fn law_a_split_adds_to_the_active_tab<R>(
    workspace: WorkspaceView<R>,
    pane: Pane<R>,
    rest: TabFocus,
)
    requires
        0 <= workspace.active < workspace.tabs.len(),
    ensures
        ({
            let after = workspace.with_pane(pane, rest);
            let tab = after.tabs[workspace.active];
            let was = workspace.tabs[workspace.active];
            &&& after.tabs.len() == workspace.tabs.len()
            &&& tab.panes.len() == was.panes.len() + 1
            &&& tab.panes.last() == pane && tab.panes.drop_last() == was.panes
            &&& tab.root_pane == rest.root_pane && tab.focused == rest.focused && tab.zoomed
                == rest.zoomed
            &&& tab.custom_name == was.custom_name && tab.number == was.number
            &&& forall|t: int|
                0 <= t < workspace.tabs.len() && t != workspace.active ==> #[trigger] after.tabs[t]
                    == workspace.tabs[t]
            &&& after.active == workspace.active
            &&& after.order.len() == workspace.order.len() + 1 && after.order.last() == pane.id
            &&& after.order.drop_last() == workspace.order
        }),
{
}

/// A moved tab stands right before the tab that it was dropped at, or last, and
/// the other tabs keep their order among themselves.
pub proof fn law_a_moved_tab_stands_where_it_was_dropped<R>(
    workspace: WorkspaceView<R>,
    source: int,
    insert: int,
)
    requires
        0 <= source < workspace.tabs.len(),
        0 <= insert <= workspace.tabs.len(),
    ensures
        ({
            let after = workspace.moved(source, insert);
            let target = workspace.target(source, insert);
            &&& after.tabs.len() == workspace.tabs.len()
            &&& 0 <= target < after.tabs.len()
            &&& after.tabs[target].panes == workspace.tabs[source].panes
            &&& after.tabs[target].root_pane == workspace.tabs[source].root_pane
            &&& after.tabs[target].custom_name == workspace.tabs[source].custom_name
            &&& insert == workspace.tabs.len() ==> target == after.tabs.len() - 1
            &&& insert < workspace.tabs.len() && insert != source ==> target + 1 < after.tabs.len()
                && after.tabs[target + 1].panes == workspace.tabs[insert].panes
            &&& insert == source ==> target == source
            &&& forall|k: int|
                0 <= k < workspace.tabs.len() - 1 ==> (
                #[trigger] after.tabs.remove(target)[k]).panes == workspace.tabs.remove(
                    source,
                )[k].panes && after.tabs.remove(target)[k].root_pane == workspace.tabs.remove(
                    source,
                )[k].root_pane
            &&& after.order == workspace.order
        }),
{
}

/// A tab that was looked at has all its panes seen, and is otherwise the same.
pub proof fn law_looking_at_a_tab_sees_its_panes<R>(tab: TabView<R>, i: int)
    requires
        0 <= i < tab.panes.len(),
    ensures
        tab.all_seen().panes.len() == tab.panes.len(),
        tab.all_seen().panes[i].state.seen,
        tab.all_seen().panes[i].state.state == tab.panes[i].state.state,
        tab.all_seen().panes[i].id == tab.panes[i].id,
        tab.all_seen().panes[i].cwd == tab.panes[i].cwd,
        tab.all_seen().panes[i].runtime == tab.panes[i].runtime,
        tab.all_seen().root_pane == tab.root_pane,
        tab.all_seen().focused == tab.focused,
        tab.all_seen().number == tab.number,
        tab.all_seen().custom_name == tab.custom_name,
{
}

/// The directory of the first tab's root pane stands for the workspace where it
/// is known, and the one it was opened in where it is not.
pub proof fn law_the_first_root_stands_for_the_workspace<R>(workspace: WorkspaceView<R>, i: int)
    requires
        workspace.wf(),
        0 <= i < workspace.tabs[0].panes.len(),
        workspace.tabs[0].panes[i].id == workspace.tabs[0].root_pane,
    ensures
        workspace.tabs[0].panes[i].cwd matches Some(cwd) ==> workspace.identity() == cwd,
        workspace.tabs[0].panes[i].cwd is None ==> workspace.identity() == workspace.identity_cwd,
{
    let first = workspace.tabs[0];
    assert(first.wf());
    assert(first.has_at(first.root_pane, i));
    let root = choose|k: int| first.has_at(first.root_pane, k);
    assert(first.has_at(first.root_pane, root));
    assert(root == i);
}

/// Of several facts on a directory the first count.
pub proof fn law_the_first_facts_count(facts: Seq<DirectoryFacts>, path: Seq<char>, i: int)
    requires
        0 <= i < facts.len(),
        facts[i].path@ == path,
        forall|j: int| 0 <= j < i ==> (#[trigger] facts[j]).path@ != path,
    ensures
        facts_at(facts, path) == Some(i),
        facts[i].label matches Some(label) ==> label_of(facts, path) == label@,
        facts[i].label is None ==> label_of(facts, path) == last_name(path),
    decreases facts.len(),
{
    if i > 0 {
        assert(facts[0].path@ != path);
        let rest = facts.drop_first();
        assert forall|j: int| 0 <= j < i - 1 implies (#[trigger] rest[j]).path@ != path by {
            assert(facts[j + 1].path@ != path);
        }
        law_the_first_facts_count(rest, path, i - 1);
    }
}

/// Without facts on it, a directory is called by its last name.
pub proof fn law_unknown_directories_go_by_their_name(
    facts: Seq<DirectoryFacts>,
    parent: Seq<char>,
    name: Seq<char>,
)
    requires
        forall|i: int| 0 <= i < name.len() ==> name[i] != '/',
        forall|j: int|
            0 <= j < facts.len() ==> (#[trigger] facts[j]).path@ != parent + seq!['/'] + name,
    ensures
        label_of(facts, parent + seq!['/'] + name) == name,
        last_name(name) == name,
{
    let path = parent + seq!['/'] + name;
    lemma_no_facts(facts, path);
    lemma_last_name(path, parent.len() as int + 1);
    assert(path.skip(parent.len() as int + 1) =~= name);
    lemma_last_name(name, 0);
    assert(name.skip(0) =~= name);
}

proof fn lemma_no_facts(facts: Seq<DirectoryFacts>, path: Seq<char>)
    requires
        forall|j: int| 0 <= j < facts.len() ==> (#[trigger] facts[j]).path@ != path,
    ensures
        facts_at(facts, path) is None,
    decreases facts.len(),
{
    if facts.len() > 0 {
        let rest = facts.drop_first();
        assert forall|j: int| 0 <= j < rest.len() implies (#[trigger] rest[j]).path@ != path by {
            assert(facts[j + 1].path@ != path);
        }
        lemma_no_facts(rest, path);
    }
}

/// Whether two tabs hold the same panes in the same places, under the same name.
pub open spec fn same_tab<R>(a: Tab<R>, b: Tab<R>) -> bool {
    &&& a.panes@ == b.panes@
    &&& a.root_pane == b.root_pane
    &&& a.focused == b.focused
    &&& a.custom_name == b.custom_name
    &&& a.zoomed == b.zoomed
}

/// Closing a tab is refused for the last one and for one that is not there.
/// Otherwise that tab is gone and the others stay in order. The active tab stays
/// active; where it was closed itself, the one before it becomes active, or the
/// first one that is left.
pub proof fn law_close_tab_keeps_the_place<R>(w: &mut Workspace<R>, idx: usize, closed: bool)
    requires
        old(w)@.wf(),
        call_ensures(Workspace::<R>::close_tab, (w, idx), closed),
    ensures
        closed <==> old(w).tabs@.len() > 1 && idx < old(w).tabs@.len(),
        closed ==> {
            let before = old(w).tabs@;
            let after = final(w).tabs@;
            let was = old(w).active_tab as int;
            let now = final(w).active_tab as int;
            &&& after.len() == before.len() - 1
            &&& now < after.len()
            &&& forall|t: int| 0 <= t < idx ==> same_tab(#[trigger] after[t], before[t])
            &&& forall|t: int| idx <= t < after.len() ==> same_tab(#[trigger] after[t], before[t + 1])
            &&& was < idx ==> now == was
            &&& was > idx ==> now == was - 1
            &&& was == idx && was > 0 ==> now == was - 1
            &&& was == idx && was == 0 ==> now == 0
        },
        !closed ==> final(w).active_tab == old(w).active_tab && final(w).tabs@.len() == old(
            w,
        ).tabs@.len() && forall|t: int|
            0 <= t < old(w).tabs@.len() ==> same_tab(#[trigger] final(w).tabs@[t], old(w).tabs@[t]),
{
    let before = old(w)@;
    let after = final(w)@;
    assert forall|t: int| 0 <= t < old(w).tabs@.len() implies #[trigger] old(w).tabs@[t]@
        == before.tabs[t] by {}
    assert forall|t: int| 0 <= t < final(w).tabs@.len() implies #[trigger] final(w).tabs@[t]@
        == after.tabs[t] by {}
    assert(after.tabs.len() == final(w).tabs@.len());
    assert(before.tabs.len() == old(w).tabs@.len());
    if closed {
        law_closing_a_tab_takes_only_it(before, idx as int, 0);
        assert forall|t: int| 0 <= t < idx implies same_tab(
            #[trigger] final(w).tabs@[t],
            old(w).tabs@[t],
        ) by {
            assert(after.tabs[t] == final(w).tabs@[t]@ && before.tabs[t] == old(w).tabs@[t]@);
        }
        assert forall|t: int| idx <= t < final(w).tabs@.len() implies same_tab(
            #[trigger] final(w).tabs@[t],
            old(w).tabs@[t + 1],
        ) by {
            assert(after.tabs[t] == final(w).tabs@[t]@ && before.tabs[t + 1] == old(w).tabs@[t
                + 1]@);
        }
    } else {
        assert forall|t: int| 0 <= t < old(w).tabs@.len() implies same_tab(
            #[trigger] final(w).tabs@[t],
            old(w).tabs@[t],
        ) by {
            assert(after.tabs[t] == final(w).tabs@[t]@ && before.tabs[t] == old(w).tabs@[t]@);
        }
    }
}

/// Closing the active tab does what closing it by its place does.
pub proof fn law_close_active_tab_closes_it<R>(w: &mut Workspace<R>, closed: bool)
    requires
        old(w)@.wf(),
        call_ensures(Workspace::<R>::close_active_tab, (w,), closed),
    ensures
        closed <==> old(w).tabs@.len() > 1,
        closed ==> {
            let before = old(w).tabs@;
            let after = final(w).tabs@;
            let was = old(w).active_tab as int;
            &&& after.len() == before.len() - 1
            &&& forall|t: int| 0 <= t < was ==> same_tab(#[trigger] after[t], before[t])
            &&& forall|t: int| was <= t < after.len() ==> same_tab(#[trigger] after[t], before[t + 1])
            &&& was > 0 ==> final(w).active_tab == was - 1
            &&& was == 0 ==> final(w).active_tab == 0
        },
        !closed ==> final(w).active_tab == old(w).active_tab,
{
    let before = old(w)@;
    let after = final(w)@;
    assert forall|t: int| 0 <= t < old(w).tabs@.len() implies #[trigger] old(w).tabs@[t]@
        == before.tabs[t] by {}
    assert forall|t: int| 0 <= t < final(w).tabs@.len() implies #[trigger] final(w).tabs@[t]@
        == after.tabs[t] by {}
    assert(after.tabs.len() == final(w).tabs@.len());
    if closed {
        let was = before.active;
        law_closing_a_tab_takes_only_it(before, was, 0);
        assert forall|t: int| 0 <= t < was implies same_tab(
            #[trigger] final(w).tabs@[t],
            old(w).tabs@[t],
        ) by {
            assert(after.tabs[t] == final(w).tabs@[t]@ && before.tabs[t] == old(w).tabs@[t]@);
        }
        assert forall|t: int| was <= t < final(w).tabs@.len() implies same_tab(
            #[trigger] final(w).tabs@[t],
            old(w).tabs@[t + 1],
        ) by {
            assert(after.tabs[t] == final(w).tabs@[t]@ && before.tabs[t + 1] == old(w).tabs@[t
                + 1]@);
        }
    }
}

/// Switching to a tab makes it active and marks what is in it as seen; the other
/// tabs stay as they are, and a tab that is not there changes nothing.
pub proof fn law_switching_shows_the_tab<R>(w: &mut Workspace<R>, idx: usize)
    requires
        old(w)@.wf(),
        call_ensures(Workspace::<R>::switch_tab, (w, idx), ()),
    ensures
        final(w).tabs@.len() == old(w).tabs@.len(),
        idx < old(w).tabs@.len() ==> {
            let before = old(w).tabs@[idx as int];
            let after = final(w).tabs@[idx as int];
            &&& final(w).active_tab == idx
            &&& after.panes@.len() == before.panes@.len()
            &&& forall|i: int|
                0 <= i < after.panes@.len() ==> {
                    &&& (#[trigger] after.panes@[i]).state.seen
                    &&& after.panes@[i].state.state == before.panes@[i].state.state
                    &&& after.panes@[i].id == before.panes@[i].id
                    &&& after.panes@[i].runtime == before.panes@[i].runtime
                }
            &&& after.focused == before.focused && after.root_pane == before.root_pane
        },
        idx >= old(w).tabs@.len() ==> final(w).active_tab == old(w).active_tab,
        forall|t: int|
            0 <= t < old(w).tabs@.len() && t != idx ==> same_tab(
                #[trigger] final(w).tabs@[t],
                old(w).tabs@[t],
            ),
{
    let before = old(w)@;
    let after = final(w)@;
    assert forall|t: int| 0 <= t < old(w).tabs@.len() implies #[trigger] old(w).tabs@[t]@
        == before.tabs[t] by {}
    assert forall|t: int| 0 <= t < final(w).tabs@.len() implies #[trigger] final(w).tabs@[t]@
        == after.tabs[t] by {}
    assert(after.tabs.len() == final(w).tabs@.len());
    assert forall|t: int| 0 <= t < old(w).tabs@.len() && t != idx implies same_tab(
        #[trigger] final(w).tabs@[t],
        old(w).tabs@[t],
    ) by {
        assert(after.tabs[t] == final(w).tabs@[t]@ && before.tabs[t] == old(w).tabs@[t]@);
    }
    if idx < old(w).tabs@.len() {
        let tab = final(w).tabs@[idx as int];
        assert(tab@ == after.tabs[idx as int]);
        assert forall|i: int| 0 <= i < tab.panes@.len() implies {
            &&& (#[trigger] tab.panes@[i]).state.seen
            &&& tab.panes@[i].state.state == before.tabs[idx as int].panes[i].state.state
            &&& tab.panes@[i].id == before.tabs[idx as int].panes[i].id
            &&& tab.panes@[i].runtime == before.tabs[idx as int].panes[i].runtime
        } by {
            law_looking_at_a_tab_sees_its_panes(before.tabs[idx as int], i);
        }
    }
}

/// A new tab comes last, with the pane that was opened for it, and its place is
/// told; the active tab stays active. A pane that could not be opened changes
/// nothing.
pub proof fn law_create_tab_appends<R>(
    w: &mut Workspace<R>,
    opened: Result<Pane<R>, String>,
    created: Result<usize, String>,
)
    requires
        old(w)@.wf(),
        old(w)@.tabs.len() < usize::MAX,
        call_ensures(Workspace::<R>::create_tab, (w, opened), created),
    ensures
        opened is Ok ==> {
            let last = final(w).tabs@.last();
            &&& created == Ok::<usize, String>(old(w).tabs@.len() as usize)
            &&& final(w).tabs@.len() == old(w).tabs@.len() + 1
            &&& last.panes@.len() == 1 && last.panes@[0] == opened->Ok_0
            &&& last.root_pane == opened->Ok_0.id && last.focused == opened->Ok_0.id
            &&& last.custom_name is None && !last.zoomed
            &&& final(w).active_tab == old(w).active_tab
            &&& forall|t: int|
                0 <= t < old(w).tabs@.len() ==> same_tab(
                    #[trigger] final(w).tabs@[t],
                    old(w).tabs@[t],
                )
        },
        opened is Err ==> *final(w) == *old(w) && created == Err::<usize, String>(opened->Err_0),
{
    let before = old(w)@;
    let after = final(w)@;
    assert forall|t: int| 0 <= t < old(w).tabs@.len() implies #[trigger] old(w).tabs@[t]@
        == before.tabs[t] by {}
    assert forall|t: int| 0 <= t < final(w).tabs@.len() implies #[trigger] final(w).tabs@[t]@
        == after.tabs[t] by {}
    assert(after.tabs.len() == final(w).tabs@.len());
    assert(before.tabs.len() == old(w).tabs@.len());
    if opened is Ok {
        law_a_new_tab_comes_last(before, opened->Ok_0);
        assert(final(w).tabs@.last()@ == after.tabs.last());
        assert forall|t: int| 0 <= t < old(w).tabs@.len() implies same_tab(
            #[trigger] final(w).tabs@[t],
            old(w).tabs@[t],
        ) by {
            assert(after.tabs.drop_last()[t] == before.tabs[t]);
        }
    }
}

/// A split adds the pane that was opened behind the others of the active tab and
/// tells its number; the tab then has the focus that the tiling says.
pub proof fn law_split_focused_adds_the_pane<R>(
    w: &mut Workspace<R>,
    opened: Result<(Pane<R>, TabFocus), String>,
    split: Result<PaneId, String>,
)
    requires
        old(w)@.wf(),
        call_ensures(Workspace::<R>::split_focused, (w, opened), split),
    ensures
        opened is Ok ==> {
            let at = old(w).active_tab as int;
            let pane = opened->Ok_0.0;
            let rest = opened->Ok_0.1;
            let tab = final(w).tabs@[at];
            &&& split == Ok::<PaneId, String>(pane.id)
            &&& final(w).tabs@.len() == old(w).tabs@.len()
            &&& tab.panes@.len() == old(w).tabs@[at].panes@.len() + 1
            &&& tab.panes@.last() == pane
            &&& tab.panes@.drop_last() == old(w).tabs@[at].panes@
            &&& tab.focused == rest.focused && tab.root_pane == rest.root_pane
            &&& tab.zoomed == rest.zoomed
            &&& final(w).active_tab == at
            &&& forall|t: int|
                0 <= t < old(w).tabs@.len() && t != at ==> same_tab(
                    #[trigger] final(w).tabs@[t],
                    old(w).tabs@[t],
                )
        },
        opened is Err ==> *final(w) == *old(w) && split == Err::<PaneId, String>(opened->Err_0),
{
    let before = old(w)@;
    let after = final(w)@;
    assert forall|t: int| 0 <= t < old(w).tabs@.len() implies #[trigger] old(w).tabs@[t]@
        == before.tabs[t] by {}
    assert forall|t: int| 0 <= t < final(w).tabs@.len() implies #[trigger] final(w).tabs@[t]@
        == after.tabs[t] by {}
    assert(after.tabs.len() == final(w).tabs@.len());
    assert(before.tabs.len() == old(w).tabs@.len());
    if opened is Ok {
        law_a_split_adds_to_the_active_tab(before, opened->Ok_0.0, opened->Ok_0.1);
        let at = before.active;
        assert(after.tabs[at] == final(w).tabs@[at]@ && before.tabs[at] == old(w).tabs@[at]@);
        assert forall|t: int| 0 <= t < old(w).tabs@.len() && t != at implies same_tab(
            #[trigger] final(w).tabs@[t],
            old(w).tabs@[t],
        ) by {
            assert(after.tabs[t] == final(w).tabs@[t]@ && before.tabs[t] == old(w).tabs@[t]@);
        }
    }
}

/// A tab that is moved stands before the one it was dropped on, or last, and the
/// others keep their order. A move to where it stands already is none.
pub proof fn law_move_tab_moves_it<R>(w: &mut Workspace<R>, source: usize, insert: usize, moved: bool)
    requires
        old(w)@.wf(),
        call_ensures(Workspace::<R>::move_tab, (w, source, insert), moved),
    ensures
        moved <==> {
            &&& source < old(w).tabs@.len()
            &&& insert <= old(w).tabs@.len()
            &&& insert != source
            &&& insert != source + 1
        },
        final(w).tabs@.len() == old(w).tabs@.len(),
        moved && insert > source ==> {
            let at = insert - 1;
            &&& same_panes(final(w).tabs@[at], old(w).tabs@[source as int])
            &&& forall|t: int|
                source <= t < at ==> same_panes(#[trigger] final(w).tabs@[t], old(w).tabs@[t + 1])
        },
        moved && insert < source ==> {
            &&& same_panes(final(w).tabs@[insert as int], old(w).tabs@[source as int])
            &&& forall|t: int|
                insert < t <= source ==> same_panes(
                    #[trigger] final(w).tabs@[t],
                    old(w).tabs@[t - 1],
                )
        },
        forall|t: int|
            0 <= t < old(w).tabs@.len() && ((t < source && t < insert) || (t > source && t >= insert)
                || !moved) ==> same_panes(#[trigger] final(w).tabs@[t], old(w).tabs@[t]),
        same_panes(
            final(w).tabs@[final(w).active_tab as int],
            old(w).tabs@[old(w).active_tab as int],
        ),
{
    let before = old(w)@;
    let after = final(w)@;
    assert forall|t: int| 0 <= t < old(w).tabs@.len() implies #[trigger] old(w).tabs@[t]@
        == before.tabs[t] by {}
    assert forall|t: int| 0 <= t < final(w).tabs@.len() implies #[trigger] final(w).tabs@[t]@
        == after.tabs[t] by {}
    assert(after.tabs.len() == final(w).tabs@.len());
    assert(before.tabs.len() == old(w).tabs@.len());
    let target = before.target(source as int, insert as int);
    let from = |t: int|
        if !moved {
            t
        } else if t == target {
            source as int
        } else if source <= t < target {
            t + 1
        } else if target < t <= source {
            t - 1
        } else {
            t
        };
    assert forall|t: int| 0 <= t < final(w).tabs@.len() implies same_panes(
        #[trigger] final(w).tabs@[t],
        old(w).tabs@[from(t)],
    ) by {
        assert(after.tabs[t] == final(w).tabs@[t]@);
        assert(before.tabs[from(t)] == old(w).tabs@[from(t)]@);
    }
    assert(from(after.active) == before.active);
}

/// Whether two tabs hold the same panes.
pub open spec fn same_panes<R>(a: Tab<R>, b: Tab<R>) -> bool {
    a.panes@ == b.panes@ && a.root_pane == b.root_pane && a.custom_name == b.custom_name
}

/// A workspace is named by what it was called, and keeps everything else.
pub proof fn law_names_are_kept<R>(w: &mut Workspace<R>, name: String)
    requires
        call_ensures(Workspace::<R>::set_custom_name, (w, name), ()),
    ensures
        final(w).custom_name == Some(name),
        final(w).active_tab == old(w).active_tab,
        final(w).tabs@.len() == old(w).tabs@.len(),
        final(w).public_panes@ == old(w).public_panes@,
{
    assert(final(w)@.tabs.len() == final(w).tabs@.len());
    assert(old(w)@.tabs.len() == old(w).tabs@.len());
}

/// A new workspace has one tab with the one pane, which is active and focused, and
/// no name of its own.
pub proof fn law_a_new_workspace_has_one_pane<R>(
    id: String,
    initial_cwd: String,
    pane: Pane<R>,
    w: Workspace<R>,
)
    requires
        call_ensures(Workspace::<R>::new, (id, initial_cwd, pane), w),
    ensures
        w.id == id,
        w.custom_name is None,
        w.identity_cwd == initial_cwd,
        w.active_tab == 0,
        w.tabs@.len() == 1,
        w.tabs@[0].panes@ == seq![pane],
        w.tabs@[0].focused == pane.id && w.tabs@[0].root_pane == pane.id,
        w.tabs@[0].custom_name is None && !w.tabs@[0].zoomed,
        w.public_panes@ == seq![pane.id],
{
    assert(w@.tabs.len() == w.tabs@.len());
    assert(w@.tabs[0] == w.tabs@[0]@);
}

/// The number of a pane is its place, counted from one, in the order in which the
/// panes came; a pane that is not there has none, and one that is there has one.
pub proof fn law_panes_are_numbered_as_they_came<R>(
    w: Workspace<R>,
    pane_id: PaneId,
    number: Option<usize>,
)
    requires
        w@.wf(),
        call_ensures(Workspace::<R>::public_pane_number, (&w, pane_id), number),
    ensures
        number is Some ==> 1 <= number->0 <= w.public_panes@.len() && w.public_panes@[number->0 - 1]
            == pane_id,
        number is None ==> forall|t: int, i: int|
            0 <= t < w.tabs@.len() && 0 <= i < w.tabs@[t].panes@.len() ==> (
            #[trigger] w.tabs@[t].panes@[i]).id != pane_id,
{
    if number is None {
        assert forall|t: int, i: int|
            0 <= t < w.tabs@.len() && 0 <= i < w.tabs@[t].panes@.len() implies (
        #[trigger] w.tabs@[t].panes@[i]).id != pane_id by {
            assert(w@.tabs[t] == w.tabs@[t]@);
            if w.tabs@[t].panes@[i].id == pane_id {
                assert(w@.tabs[t].has_at(pane_id, i));
                assert(w@.tabs[t].has(pane_id));
            }
        }
    }
}

/// The tab that is told for a pane holds it; where none is told, no tab does.
pub proof fn law_panes_are_found_in_their_tab<R>(
    w: Workspace<R>,
    pane_id: PaneId,
    index: Option<usize>,
)
    requires
        w@.wf(),
        call_ensures(Workspace::<R>::find_tab_index_for_pane, (&w, pane_id), index),
    ensures
        index is Some ==> index->0 < w.tabs@.len() && exists|i: int|
            0 <= i < w.tabs@[index->0 as int].panes@.len() && (
            #[trigger] w.tabs@[index->0 as int].panes@[i]).id == pane_id,
        index is None ==> forall|t: int, i: int|
            0 <= t < w.tabs@.len() && 0 <= i < w.tabs@[t].panes@.len() ==> (
            #[trigger] w.tabs@[t].panes@[i]).id != pane_id,
{
    assert(w@.tabs.len() == w.tabs@.len());
    if index is Some {
        let t = index->0 as int;
        assert(w@.tabs[t] == w.tabs@[t]@);
        let i = choose|i: int| w@.tabs[t].has_at(pane_id, i);
        assert(w.tabs@[t].panes@[i].id == pane_id);
    } else {
        assert forall|t: int, i: int|
            0 <= t < w.tabs@.len() && 0 <= i < w.tabs@[t].panes@.len() implies (
        #[trigger] w.tabs@[t].panes@[i]).id != pane_id by {
            assert(w@.tabs[t] == w.tabs@[t]@);
            if w.tabs@[t].panes@[i].id == pane_id {
                assert(w@.tabs[t].has_at(pane_id, i));
                assert(w@.tabs[t].has(pane_id));
            }
        }
    }
}

/// Whether a workspace without a pane is what is left after it was closed: its tab
/// goes with its last pane, and the last tab stays.
pub open spec fn is_left<R>(before: Workspace<R>, after: Workspace<R>, t: int, i: int) -> bool {
    let many = before.tabs@[t].panes@.len() > 1;
    let last = before.tabs@[t].panes@.len() == 1 && before.tabs@.len() == 1;
    &&& many ==> {
        &&& after.tabs@.len() == before.tabs@.len()
        &&& after.tabs@[t].panes@ == before.tabs@[t].panes@.remove(i)
        &&& after.active_tab == before.active_tab
        &&& forall|u: int|
            0 <= u < before.tabs@.len() && u != t ==> same_tab(
                #[trigger] after.tabs@[u],
                before.tabs@[u],
            )
    }
    &&& !many && !last ==> {
        &&& after.tabs@.len() == before.tabs@.len() - 1
        &&& forall|u: int| 0 <= u < t ==> same_tab(#[trigger] after.tabs@[u], before.tabs@[u])
        &&& forall|u: int|
            t <= u < after.tabs@.len() ==> same_tab(#[trigger] after.tabs@[u], before.tabs@[u + 1])
        &&& before.active_tab < t ==> after.active_tab == before.active_tab
        &&& before.active_tab > t ==> after.active_tab == before.active_tab - 1
    }
    &&& last ==> after.tabs@.len() == 1 && same_tab(after.tabs@[0], before.tabs@[0])
}

proof fn lemma_left<R>(before: Workspace<R>, after: Workspace<R>, t: int, i: int, rest: TabFocus)
    requires
        before@.wf(),
        0 <= t < before.tabs@.len(),
        0 <= i < before.tabs@[t].panes@.len(),
        after@ == before@.left_by(t, i, rest),
    ensures
        is_left(before, after, t, i),
{
    let many = before.tabs@[t].panes@.len() > 1;
    assert(before@.tabs.len() == before.tabs@.len());
    assert(after@.tabs.len() == after.tabs@.len());
    assert(before@.tabs[t] == before.tabs@[t]@);
    if many {
        law_a_pane_leaves_alone(before@, t, i, rest);
        assert(after@.tabs[t] == after.tabs@[t]@);
        assert(after.tabs@[t].panes@ =~= before.tabs@[t].panes@.remove(i));
        assert forall|u: int| 0 <= u < before.tabs@.len() && u != t implies same_tab(
            #[trigger] after.tabs@[u],
            before.tabs@[u],
        ) by {
            assert(after@.tabs[u] == after.tabs@[u]@ && before@.tabs[u] == before.tabs@[u]@);
        }
    } else {
        law_the_last_pane_of_a_tab_takes_it_along(before@, t, rest);
        if before.tabs@.len() > 1 {
            law_closing_a_tab_takes_only_it(before@, t, 0);
            assert forall|u: int| 0 <= u < t implies same_tab(
                #[trigger] after.tabs@[u],
                before.tabs@[u],
            ) by {
                assert(after@.tabs[u] == after.tabs@[u]@ && before@.tabs[u] == before.tabs@[u]@);
            }
            assert forall|u: int| t <= u < after.tabs@.len() implies same_tab(
                #[trigger] after.tabs@[u],
                before.tabs@[u + 1],
            ) by {
                assert(after@.tabs[u] == after.tabs@[u]@ && before@.tabs[u + 1] == before.tabs@[u
                    + 1]@);
            }
        } else {
            assert(after@.tabs[0] == after.tabs@[0]@);
        }
    }
}

/// Closing a pane takes it out of its tab and hands its runtime back, and takes the
/// tab along with its last pane; the last pane of all stays and asks for the
/// workspace to be closed. A pane that is not there changes nothing.
pub proof fn law_close_pane_takes_it<R>(
    w: &mut Workspace<R>,
    pane_id: PaneId,
    rest: TabFocus,
    closed: Closed<R>,
    t: int,
    i: int,
)
    requires
        old(w)@.wf(),
        call_ensures(Workspace::<R>::close_pane, (w, pane_id, rest), closed),
    ensures
        0 <= t < old(w).tabs@.len() && 0 <= i < old(w).tabs@[t].panes@.len()
            && old(w).tabs@[t].panes@[i].id == pane_id ==> {
            &&& is_left(*old(w), *final(w), t, i)
            &&& closed.close_workspace <==> old(w).tabs@.len() == 1
                && old(w).tabs@[t].panes@.len() == 1
            &&& old(w).tabs@[t].panes@.len() > 1 ==> closed.runtime
                == old(w).tabs@[t].panes@[i].runtime
        },
        !old(w)@.has(pane_id) ==> *final(w) == *old(w) && !closed.close_workspace && closed.runtime
            is None,
{
    if 0 <= t < old(w).tabs@.len() && 0 <= i < old(w).tabs@[t].panes@.len()
        && old(w).tabs@[t].panes@[i].id == pane_id {
        assert(old(w)@.tabs[t] == old(w).tabs@[t]@);
        assert(old(w)@.pane_at(pane_id, t, i));
        lemma_left(*old(w), *final(w), t, i, rest);
    }
}

/// Removing a pane takes it out of its tab, and its tab along with its last pane;
/// the last pane of all stays and asks for the workspace to be closed.
pub proof fn law_remove_pane_takes_it<R>(
    w: &mut Workspace<R>,
    pane_id: PaneId,
    rest: TabFocus,
    close_workspace: bool,
    t: int,
    i: int,
)
    requires
        old(w)@.wf(),
        call_ensures(Workspace::<R>::remove_pane, (w, pane_id, rest), close_workspace),
    ensures
        0 <= t < old(w).tabs@.len() && 0 <= i < old(w).tabs@[t].panes@.len()
            && old(w).tabs@[t].panes@[i].id == pane_id ==> {
            &&& is_left(*old(w), *final(w), t, i)
            &&& close_workspace <==> old(w).tabs@.len() == 1 && old(w).tabs@[t].panes@.len() == 1
        },
        !old(w)@.has(pane_id) ==> *final(w) == *old(w) && !close_workspace,
{
    if 0 <= t < old(w).tabs@.len() && 0 <= i < old(w).tabs@[t].panes@.len()
        && old(w).tabs@[t].panes@[i].id == pane_id {
        assert(old(w)@.tabs[t] == old(w).tabs@[t]@);
        assert(old(w)@.pane_at(pane_id, t, i));
        lemma_left(*old(w), *final(w), t, i, rest);
    }
}

/// Closing the focused pane closes the one that the active tab has the focus on.
pub proof fn law_close_focused_takes_the_focused<R>(
    w: &mut Workspace<R>,
    rest: TabFocus,
    closed: Closed<R>,
    i: int,
)
    requires
        old(w)@.wf(),
        call_ensures(Workspace::<R>::close_focused, (w, rest), closed),
    ensures
        ({
            let t = old(w).active_tab as int;
            let tab = old(w).tabs@[t];
            0 <= i < tab.panes@.len() && tab.panes@[i].id == tab.focused ==> {
                &&& is_left(*old(w), *final(w), t, i)
                &&& closed.close_workspace <==> old(w).tabs@.len() == 1 && tab.panes@.len() == 1
                &&& tab.panes@.len() > 1 ==> closed.runtime == tab.panes@[i].runtime
            }
        }),
{
    let t = old(w).active_tab as int;
    let tab = old(w).tabs@[t];
    if 0 <= i < tab.panes@.len() && tab.panes@[i].id == tab.focused {
        assert(old(w)@.tabs[t] == tab@);
        assert(old(w)@.tabs[old(w)@.active].has_at(tab.focused, i));
        lemma_left(*old(w), *final(w), t, i, rest);
    }
}

/// The state that is told for a pane is its own, in whichever tab it is, and so is a
/// runtime that is told; the focused pane is the one of the active tab.
pub proof fn law_panes_are_told_as_they_are<R>(
    w: Workspace<R>,
    pane_id: PaneId,
    state: Option<&PaneState>,
    runtime: Option<&R>,
    focused: Option<PaneId>,
    t: int,
    i: int,
)
    requires
        w@.wf(),
        0 <= t < w.tabs@.len(),
        0 <= i < w.tabs@[t].panes@.len(),
        w.tabs@[t].panes@[i].id == pane_id,
    ensures
        call_ensures(Workspace::<R>::pane_state, (&w, pane_id), state) ==> state is Some
            && *state->0 == w.tabs@[t].panes@[i].state,
        call_ensures(Workspace::<R>::runtime, (&w, pane_id), runtime) && runtime is Some
            ==> w.tabs@[t].panes@[i].runtime == Some(*runtime->0),
        call_ensures(Workspace::<R>::focused_pane_id, (&w,), focused) ==> focused == Some(
            w.tabs@[w.active_tab as int].focused,
        ),
{
    assert(w@.tabs[t] == w.tabs@[t]@);
    assert(w@.pane_at(pane_id, t, i));
}

/// A name that the user gave is shown; a tab without one is called by its number.
pub proof fn law_given_names_are_shown<R>(
    w: Workspace<R>,
    tab: Tab<R>,
    facts: Vec<DirectoryFacts>,
    shown: String,
    tab_shown: String,
)
    ensures
        w.custom_name is Some && call_ensures(
            Workspace::<R>::display_name,
            (&w, &facts),
            shown,
        ) ==> shown@ == w.custom_name->0@,
        tab.custom_name is Some && call_ensures(Tab::<R>::display_name, (&tab,), tab_shown)
            ==> tab_shown@ == tab.custom_name->0@,
        tab.custom_name is None && call_ensures(Tab::<R>::display_name, (&tab,), tab_shown)
            ==> tab_shown@ == text::decimal(tab.number as nat),
{
}

/// A pane is shown where it is in the active tab of the active workspace.
pub proof fn law_shown_panes_are_in_the_active_tab<R>(
    workspaces: Vec<Workspace<R>>,
    active: Option<usize>,
    pane_id: PaneId,
    shown: bool,
)
    requires
        call_ensures(is_in_active_tab::<R>, (&workspaces, active, pane_id), shown),
        forall|w: int| 0 <= w < workspaces@.len() ==> (#[trigger] workspaces@[w])@.wf(),
    ensures
        active is None ==> !shown,
        active is Some && active->0 >= workspaces@.len() ==> !shown,
        active is Some && active->0 < workspaces@.len() ==> {
            let w = workspaces@[active->0 as int];
            shown <==> exists|i: int|
                0 <= i < w.tabs@[w.active_tab as int].panes@.len() && (
                #[trigger] w.tabs@[w.active_tab as int].panes@[i]).id == pane_id
        },
{
    if active is Some && active->0 < workspaces@.len() {
        let w = workspaces@[active->0 as int];
        let at = w.active_tab as int;
        assert(w@.wf());
        assert(w@.tabs[at] == w.tabs@[at]@);
        if shown {
            let i = choose|i: int| w@.tabs[at].has_at(pane_id, i);
            assert(w.tabs@[at].panes@[i].id == pane_id);
        }
        if exists|i: int|
            0 <= i < w.tabs@[at].panes@.len() && (#[trigger] w.tabs@[at].panes@[i]).id == pane_id {
            let i = choose|i: int|
                0 <= i < w.tabs@[at].panes@.len() && (#[trigger] w.tabs@[at].panes@[i]).id
                    == pane_id;
            assert(w@.tabs[at].has_at(pane_id, i));
        }
    }
}

} // verus!
