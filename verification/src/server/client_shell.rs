//! What a client that draws its own shell is told: the session as it is, and the
//! surface of the panes.

use vstd::prelude::*;

use crate::geometry;
use crate::geometry::{Direction, Rect};
use crate::text;
use crate::ui::scrollbar::ScrollMetrics;

verus! {

/// Where a name comes from.
#[derive(Debug, Clone, Copy, PartialEq, Eq, Structural)]
pub enum NameSource {
    /// The user gave it.
    Override,
    /// A remote session gave it.
    Mirrored,
    /// It was derived.
    Derived,
}

impl NameSource {
    /// Whether somebody gave the name.
    pub open spec fn explicit(self) -> bool {
        self == NameSource::Override || self == NameSource::Mirrored
    }

    /// Whether somebody gave the name, here or on a remote session.
    pub fn is_explicitly_named(self) -> (explicit: bool)
        ensures
            explicit == self.explicit(),
    {
        match self {
            NameSource::Override | NameSource::Mirrored => true,
            NameSource::Derived => false,
        }
    }
}

/// A named value.
#[derive(Debug)]
pub struct Token {
    pub key: String,
    pub value: String,
}

/// Whether named values stand in the order of their names' bytes.
pub open spec fn in_order(tokens: Seq<Token>) -> bool {
    forall|i: int, j: int|
        0 <= i < j < tokens.len() ==> text::text_le(tokens[i].key@, tokens[j].key@)
}

/// Whether these are the same named values, sorted by name.
pub open spec fn sorted_tokens(source: Seq<Token>, sorted: Seq<Token>) -> bool {
    in_order(sorted) && sorted.to_multiset() == source.to_multiset()
}

fn insert_token(tokens: &mut Vec<Token>, token: Token)
    requires
        in_order(old(tokens)@),
    ensures
        in_order(final(tokens)@),
        final(tokens)@.to_multiset() == old(tokens)@.to_multiset().insert(token),
{
    let ghost before = tokens@;
    let ghost key = token.key@;
    let mut at: usize = tokens.len();
    while at > 0 && !text::is_text_le(tokens[at - 1].key.as_str(), token.key.as_str())
        invariant
            key == token.key@,
            at <= tokens.len(),
            tokens@ == before,
            in_order(before),
            forall|k: int| at <= k < before.len() ==> text::text_le(key, before[k].key@),
        decreases at,
    {
        proof {
            text::lemma_bytes_le_total(
                vstd::utf8::encode_utf8(key),
                vstd::utf8::encode_utf8(before[at - 1].key@),
            );
        }
        at = at - 1;
    }
    tokens.insert(at, token);
    proof {
        vstd::seq_lib::to_multiset_insert(before, at as int, token);
        assert forall|i: int, j: int| 0 <= i < j < tokens@.len() implies text::text_le(
            tokens@[i].key@,
            tokens@[j].key@,
        ) by {
            if j == at && i < at - 1 {
                assert(text::text_le(before[i].key@, before[at - 1].key@));
                assert(text::text_le(before[at - 1].key@, key));
                text::lemma_bytes_le_transitive(
                    vstd::utf8::encode_utf8(before[i].key@),
                    vstd::utf8::encode_utf8(before[at - 1].key@),
                    vstd::utf8::encode_utf8(key),
                );
            }
        }
    }
}

/// Sort named values by the bytes of their names.
pub fn sort_tokens(tokens: Vec<Token>) -> (sorted: Vec<Token>)
    ensures
        sorted_tokens(tokens@, sorted@),
{
    let ghost all = tokens@;
    let mut sorted: Vec<Token> = Vec::new();
    proof {
        all.to_multiset_ensures();
        assert(all.take(0) =~= Seq::<Token>::empty());
        assert(sorted@ =~= all.take(0));
    }
    for token in iter: tokens
        invariant
            iter.seq() == all,
            in_order(sorted@),
            sorted@.to_multiset() == all.take(iter.index() as int).to_multiset(),
    {
        let ghost i = iter.index() as int;
        proof {
            let taken = all.take(i);
            taken.to_multiset_ensures();
            assert(all.take(i + 1) =~= taken.push(all[i]));
        }
        insert_token(&mut sorted, token);
    }
    assert(all.take(all.len() as int) =~= all);
    sorted
}

/// The repository that a workspace is a working tree of.
#[derive(Debug)]
pub struct Worktree {
    pub repo_key: String,
    pub repo_name: String,
    pub is_linked_worktree: bool,
}

/// The repository that a workspace is a working tree of, as a client shows it.
#[derive(Debug)]
pub struct ClientShellWorktree {
    pub key: String,
    pub label: String,
    pub is_linked_worktree: bool,
}

/// The repository that a workspace is a working tree of, as a client shows it.
pub open spec fn shown_worktree(worktree: Option<Worktree>) -> Option<ClientShellWorktree> {
    match worktree {
        Some(worktree) => Some(
            ClientShellWorktree {
                key: worktree.repo_key,
                label: worktree.repo_name,
                is_linked_worktree: worktree.is_linked_worktree,
            },
        ),
        None => None,
    }
}

/// A workspace of the session. `S` is the status of an agent.
#[derive(Debug)]
pub struct SessionWorkspace<S> {
    pub workspace_id: String,
    pub active_tab_id: String,
    pub number: usize,
    pub label: String,
    pub name_source: NameSource,
    pub tokens: Vec<Token>,
    pub worktree: Option<Worktree>,
    pub agent_status: S,
    /// The host that the workspace is mounted from.
    pub federation_origin: Option<String>,
    pub branch: Option<String>,
    pub git_ahead_behind: Option<(usize, usize)>,
    /// The directory that a new workspace would open in, from each tab.
    pub new_workspace_cwds: Vec<String>,
    /// That directory where no tab tells it.
    pub new_workspace_cwd: String,
}

/// A workspace, as a client shows it.
#[derive(Debug)]
pub struct ClientShellWorkspace<S> {
    pub workspace_id: String,
    pub focused: bool,
    pub active_tab_id: String,
    pub new_workspace_cwd: String,
    pub number: usize,
    pub label: String,
    pub name_source: NameSource,
    pub custom_label: bool,
    pub branch: Option<String>,
    pub git_ahead_behind: Option<(usize, usize)>,
    pub tokens: Vec<Token>,
    pub worktree: Option<ClientShellWorktree>,
    pub agent_status: S,
    pub federation_origin: Option<String>,
}

/// What is known of a tab by its public id.
#[derive(Debug)]
pub struct TabFacts {
    pub tab_id: String,
    pub workspace_index: usize,
    pub tab_index: usize,
    /// The public id of its focused pane.
    pub focused_pane_id: Option<String>,
    pub zoomed: bool,
}

/// The first facts on a tab.
pub open spec fn tab_facts(facts: Seq<TabFacts>, tab_id: Seq<char>) -> Option<TabFacts>
    decreases facts.len(),
{
    if facts.len() == 0 {
        None
    } else if facts[0].tab_id@ == tab_id {
        Some(facts[0])
    } else {
        tab_facts(facts.drop_first(), tab_id)
    }
}

fn find_tab<'a>(facts: &'a Vec<TabFacts>, tab_id: &str) -> (found: Option<&'a TabFacts>)
    ensures
        match found {
            Some(found) => tab_facts(facts@, tab_id@) == Some(*found),
            None => tab_facts(facts@, tab_id@) is None,
        },
{
    let mut i: usize = 0;
    assert(facts@.skip(0) =~= facts@);
    while i < facts.len()
        invariant
            i <= facts@.len(),
            tab_facts(facts@, tab_id@) == tab_facts(facts@.skip(i as int), tab_id@),
        decreases facts@.len() - i,
    {
        assert(facts@.skip(i as int)[0] == facts@[i as int]);
        assert(facts@.skip(i as int).drop_first() =~= facts@.skip(i + 1));
        if text::same_text(facts[i].tab_id.as_str(), tab_id) {
            return Some(&facts[i]);
        }
        i = i + 1;
    }
    None
}

/// The tab that a client has active in a workspace.
#[derive(Debug)]
pub struct ActiveTab {
    pub workspace_id: String,
    pub tab_id: String,
}

/// Where a client is in the session, apart from the session's own focus.
#[derive(Debug)]
pub struct ClientShellLocation {
    pub focused_workspace_id: Option<String>,
    pub focused_tab_id: Option<String>,
    pub active_tab_ids: Vec<ActiveTab>,
}

/// The tab that a client has active in a workspace, if it has one of its own.
pub open spec fn client_tab(tabs: Seq<ActiveTab>, workspace_id: Seq<char>) -> Option<String>
    decreases tabs.len(),
{
    if tabs.len() == 0 {
        None
    } else if tabs[0].workspace_id@ == workspace_id {
        Some(tabs[0].tab_id)
    } else {
        client_tab(tabs.drop_first(), workspace_id)
    }
}

fn find_client_tab(tabs: &Vec<ActiveTab>, workspace_id: &str) -> (tab_id: Option<String>)
    ensures
        tab_id == client_tab(tabs@, workspace_id@),
{
    let mut i: usize = 0;
    assert(tabs@.skip(0) =~= tabs@);
    while i < tabs.len()
        invariant
            i <= tabs@.len(),
            client_tab(tabs@, workspace_id@) == client_tab(tabs@.skip(i as int), workspace_id@),
        decreases tabs@.len() - i,
    {
        assert(tabs@.skip(i as int)[0] == tabs@[i as int]);
        assert(tabs@.skip(i as int).drop_first() =~= tabs@.skip(i + 1));
        if text::same_text(tabs[i].workspace_id.as_str(), workspace_id) {
            return Some(tabs[i].tab_id.clone());
        }
        i = i + 1;
    }
    None
}

/// Whether an id is the focused one.
pub open spec fn is_focused(focused: Option<String>, id: Seq<char>) -> bool {
    focused matches Some(focused) && focused@ == id
}

fn same_id(focused: &Option<String>, id: &str) -> (same: bool)
    ensures
        same == is_focused(*focused, id@),
{
    match focused {
        Some(focused) => text::same_text(focused.as_str(), id),
        None => false,
    }
}

/// One id, or else another.
pub open spec fn or_else(first: Option<String>, second: Option<String>) -> Option<String> {
    match first {
        Some(_) => first,
        None => second,
    }
}

/// The workspace that a client is in.
pub open spec fn located_workspace(
    location: Option<ClientShellLocation>,
    session: Option<String>,
) -> Option<String> {
    match location {
        Some(location) => or_else(location.focused_workspace_id, session),
        None => session,
    }
}

/// The tab that a client is in.
pub open spec fn located_tab(
    location: Option<ClientShellLocation>,
    session: Option<String>,
) -> Option<String> {
    match location {
        Some(location) => or_else(location.focused_tab_id, session),
        None => session,
    }
}

/// The facts on the tab that is focused.
pub open spec fn focused_facts(facts: Seq<TabFacts>, focused_tab: Option<String>) -> Option<
    TabFacts,
> {
    match focused_tab {
        Some(tab_id) => tab_facts(facts, tab_id@),
        None => None,
    }
}

/// The pane that a client is in: the focused one of its tab.
pub open spec fn located_pane(
    facts: Seq<TabFacts>,
    focused_tab: Option<String>,
    session: Option<String>,
) -> Option<String> {
    match focused_facts(facts, focused_tab) {
        Some(tab) => or_else(tab.focused_pane_id, session),
        None => session,
    }
}

/// The active tab of a workspace, for a client.
pub open spec fn active_tab_of<S>(
    location: Option<ClientShellLocation>,
    workspace: SessionWorkspace<S>,
) -> String {
    match location {
        Some(location) => match client_tab(location.active_tab_ids@, workspace.workspace_id@) {
            Some(tab_id) => tab_id,
            None => workspace.active_tab_id,
        },
        None => workspace.active_tab_id,
    }
}

/// The directory that a new workspace opens in: that of the active tab, where it
/// is one of the workspace's own.
pub open spec fn cwd_of<S>(
    workspace: SessionWorkspace<S>,
    index: int,
    facts: Seq<TabFacts>,
    active_tab: Seq<char>,
) -> String {
    match tab_facts(facts, active_tab) {
        Some(tab) if tab.workspace_index == index && tab.tab_index
            < workspace.new_workspace_cwds@.len() => workspace.new_workspace_cwds@[
            tab.tab_index as int
        ],
        _ => workspace.new_workspace_cwd,
    }
}

/// Whether a workspace is shown so. A mounted workspace has no branch here.
pub open spec fn shows_workspace<S>(
    workspace: SessionWorkspace<S>,
    index: int,
    location: Option<ClientShellLocation>,
    facts: Seq<TabFacts>,
    focused: Option<String>,
    shown: ClientShellWorkspace<S>,
) -> bool {
    &&& shown.workspace_id == workspace.workspace_id
    &&& shown.focused == is_focused(focused, workspace.workspace_id@)
    &&& shown.active_tab_id == active_tab_of(location, workspace)
    &&& shown.new_workspace_cwd == cwd_of(
        workspace,
        index,
        facts,
        active_tab_of(location, workspace)@,
    )
    &&& shown.number == workspace.number
    &&& shown.label == workspace.label
    &&& shown.name_source == workspace.name_source
    &&& shown.custom_label == workspace.name_source.explicit()
    &&& shown.branch == if workspace.federation_origin is Some {
        None
    } else {
        workspace.branch
    }
    &&& shown.git_ahead_behind == workspace.git_ahead_behind
    &&& sorted_tokens(workspace.tokens@, shown.tokens@)
    &&& shown.worktree == shown_worktree(workspace.worktree)
    &&& shown.agent_status == workspace.agent_status
    &&& shown.federation_origin == workspace.federation_origin
}

fn show_workspace<S>(
    workspace: SessionWorkspace<S>,
    index: usize,
    location: &Option<ClientShellLocation>,
    facts: &Vec<TabFacts>,
    focused: &Option<String>,
) -> (shown: ClientShellWorkspace<S>)
    ensures
        shows_workspace(workspace, index as int, *location, facts@, *focused, shown),
{
    let is_focused = same_id(focused, workspace.workspace_id.as_str());
    let own: Option<String> = match location {
        Some(location) => find_client_tab(
            &location.active_tab_ids,
            workspace.workspace_id.as_str(),
        ),
        None => None,
    };
    let active_tab_id = match own {
        Some(tab_id) => tab_id,
        None => workspace.active_tab_id,
    };
    let cwd = match find_tab(facts, active_tab_id.as_str()) {
        Some(tab) => {
            if tab.workspace_index == index && tab.tab_index < workspace.new_workspace_cwds.len() {
                workspace.new_workspace_cwds[tab.tab_index].clone()
            } else {
                workspace.new_workspace_cwd
            }
        },
        None => workspace.new_workspace_cwd,
    };
    ClientShellWorkspace {
        workspace_id: workspace.workspace_id,
        focused: is_focused,
        active_tab_id,
        new_workspace_cwd: cwd,
        number: workspace.number,
        label: workspace.label,
        name_source: workspace.name_source,
        custom_label: workspace.name_source.is_explicitly_named(),
        branch: if workspace.federation_origin.is_some() {
            None
        } else {
            workspace.branch
        },
        git_ahead_behind: workspace.git_ahead_behind,
        tokens: sort_tokens(workspace.tokens),
        worktree: match workspace.worktree {
            Some(worktree) => Some(
                ClientShellWorktree {
                    key: worktree.repo_key,
                    label: worktree.repo_name,
                    is_linked_worktree: worktree.is_linked_worktree,
                },
            ),
            None => None,
        },
        agent_status: workspace.agent_status,
        federation_origin: workspace.federation_origin,
    }
}

/// A tab of the session.
#[derive(Debug)]
pub struct SessionTab<S> {
    pub tab_id: String,
    pub workspace_id: String,
    pub number: usize,
    pub label: String,
    pub name_source: NameSource,
    pub agent_status: S,
}

/// A tab, as a client shows it.
#[derive(Debug)]
pub struct ClientShellTab<S> {
    pub tab_id: String,
    pub workspace_id: String,
    pub focused: bool,
    pub number: usize,
    pub label: String,
    pub name_source: NameSource,
    pub custom_label: bool,
    pub zoomed: bool,
    pub agent_status: S,
}

/// A tab, as a client shows it.
pub open spec fn shown_tab<S>(
    tab: SessionTab<S>,
    zoomed: bool,
    focused: Option<String>,
) -> ClientShellTab<S> {
    ClientShellTab {
        tab_id: tab.tab_id,
        workspace_id: tab.workspace_id,
        focused: is_focused(focused, tab.tab_id@),
        number: tab.number,
        label: tab.label,
        name_source: tab.name_source,
        custom_label: tab.name_source.explicit(),
        zoomed,
        agent_status: tab.agent_status,
    }
}

/// A pane of the session.
#[derive(Debug)]
pub struct SessionPane {
    pub pane_id: String,
    pub workspace_id: String,
    pub tab_id: String,
    pub label: Option<String>,
    pub name_source: NameSource,
    pub cwd: Option<String>,
    pub foreground_cwd: Option<String>,
    /// Whether right clicks go to its program.
    pub right_click_passthrough: bool,
}

/// A pane, as a client shows it.
#[derive(Debug)]
pub struct ClientShellPane {
    pub pane_id: String,
    pub workspace_id: String,
    pub tab_id: String,
    pub label: Option<String>,
    pub name_source: NameSource,
    pub cwd: Option<String>,
    pub foreground_cwd: Option<String>,
    pub focused: bool,
    pub right_click_passthrough: bool,
}

/// A pane, as a client shows it.
pub open spec fn shown_pane(pane: SessionPane, focused: Option<String>) -> ClientShellPane {
    ClientShellPane {
        pane_id: pane.pane_id,
        workspace_id: pane.workspace_id,
        tab_id: pane.tab_id,
        label: pane.label,
        name_source: pane.name_source,
        cwd: pane.cwd,
        foreground_cwd: pane.foreground_cwd,
        focused: is_focused(focused, pane.pane_id@),
        right_click_passthrough: pane.right_click_passthrough,
    }
}

/// An agent of the session.
#[derive(Debug)]
pub struct SessionAgent<S> {
    pub pane_id: String,
    pub workspace_id: String,
    pub tab_id: String,
    pub name: Option<String>,
    pub label: Option<String>,
    pub name_source: NameSource,
    pub display_agent: Option<String>,
    pub agent: Option<String>,
    pub title: Option<String>,
    pub terminal_title: Option<String>,
    pub terminal_title_stripped: Option<String>,
    pub agent_status: S,
    pub state_change_seq: u64,
    pub state_labels: Vec<Token>,
    pub tokens: Vec<Token>,
}

/// An agent, as a client shows it.
#[derive(Debug)]
pub struct ClientShellAgent<S> {
    pub pane_id: String,
    pub workspace_id: String,
    pub tab_id: String,
    pub name: Option<String>,
    pub label: Option<String>,
    pub name_source: NameSource,
    pub display_agent: Option<String>,
    pub agent: Option<String>,
    pub title: Option<String>,
    pub terminal_title: Option<String>,
    pub terminal_title_stripped: Option<String>,
    pub agent_status: S,
    pub state_change_seq: u64,
    pub state_labels: Vec<Token>,
    pub tokens: Vec<Token>,
    pub focused: bool,
}

/// Whether an agent is shown so.
pub open spec fn shows_agent<S>(
    agent: SessionAgent<S>,
    focused: Option<String>,
    shown: ClientShellAgent<S>,
) -> bool {
    &&& shown.pane_id == agent.pane_id
    &&& shown.workspace_id == agent.workspace_id
    &&& shown.tab_id == agent.tab_id
    &&& shown.name == agent.name
    &&& shown.label == agent.label
    &&& shown.name_source == agent.name_source
    &&& shown.display_agent == agent.display_agent
    &&& shown.agent == agent.agent
    &&& shown.title == agent.title
    &&& shown.terminal_title == agent.terminal_title
    &&& shown.terminal_title_stripped == agent.terminal_title_stripped
    &&& shown.agent_status == agent.agent_status
    &&& shown.state_change_seq == agent.state_change_seq
    &&& sorted_tokens(agent.state_labels@, shown.state_labels@)
    &&& sorted_tokens(agent.tokens@, shown.tokens@)
    &&& shown.focused == is_focused(focused, agent.pane_id@)
}

/// A part of the right end of the tab bar.
#[derive(Debug)]
pub enum TabBarStatusSegment {
    /// A note while the tab is zoomed.
    Zoom,
    /// A text, where there is one.
    Text(Option<String>),
}

/// A part of the right end of the tab bar, as a client shows it.
#[derive(Debug)]
pub struct ClientShellTabStatusSegment {
    pub text: String,
    pub accent: bool,
}

/// What is shown of a part of the tab bar: nothing of an empty one.
pub open spec fn segment_view(segment: TabBarStatusSegment, zoomed: bool) -> Option<
    (Seq<char>, bool),
> {
    match segment {
        TabBarStatusSegment::Zoom => if zoomed {
            Some(("ZOOM"@, true))
        } else {
            None
        },
        TabBarStatusSegment::Text(text) => match text {
            Some(text) => if text@.len() > 0 {
                Some((text@, false))
            } else {
                None
            },
            None => None,
        },
    }
}

/// What is shown of the first parts of the tab bar.
pub open spec fn segments_view(
    segments: Seq<TabBarStatusSegment>,
    zoomed: bool,
    n: int,
) -> Seq<(Seq<char>, bool)>
    decreases n,
{
    if n <= 0 {
        Seq::empty()
    } else {
        match segment_view(segments[n - 1], zoomed) {
            Some(segment) => segments_view(segments, zoomed, n - 1).push(segment),
            None => segments_view(segments, zoomed, n - 1),
        }
    }
}

/// Parts of the tab bar, for contracts.
pub open spec fn shown_segments(segments: Seq<ClientShellTabStatusSegment>) -> Seq<
    (Seq<char>, bool),
> {
    segments.map_values(
        |segment: ClientShellTabStatusSegment| (segment.text@, segment.accent),
    )
}

/// What is shown at the right end of the tab bar.
pub fn tab_bar_segments(segments: Vec<TabBarStatusSegment>, zoomed: bool) -> (shown: Vec<
    ClientShellTabStatusSegment,
>)
    ensures
        shown_segments(shown@) == segments_view(segments@, zoomed, segments@.len() as int),
{
    let ghost all = segments@;
    let mut shown: Vec<ClientShellTabStatusSegment> = Vec::new();
    assert(shown_segments(shown@) =~= segments_view(all, zoomed, 0));
    for segment in iter: segments
        invariant
            iter.seq() == all,
            shown_segments(shown@) == segments_view(all, zoomed, iter.index() as int),
    {
        let ghost before = shown_segments(shown@);
        assert(segment == all[iter.index() as int]);
        match segment {
            TabBarStatusSegment::Zoom => {
                if zoomed {
                    shown.push(
                        ClientShellTabStatusSegment { text: "ZOOM".to_owned(), accent: true },
                    );
                    assert(shown_segments(shown@) =~= before.push(("ZOOM"@, true)));
                }
            },
            TabBarStatusSegment::Text(text) => {
                if let Some(text) = text {
                    if text.as_str().unicode_len() > 0 {
                        let ghost words = text@;
                        shown.push(ClientShellTabStatusSegment { text, accent: false });
                        assert(shown_segments(shown@) =~= before.push((words, false)));
                    }
                }
            },
        }
    }
    shown
}

/// What became of a remote mount.
#[derive(Debug)]
pub enum RemoteMountOutcome {
    Dialling,
    Mounted { workspace_id: Option<String> },
    Failed { reason: String },
}

/// A remote mount that was asked for.
#[derive(Debug)]
pub struct RemoteMountAttempt {
    pub target: String,
    pub outcome: RemoteMountOutcome,
}

/// A remote mount, as a client shows it.
#[derive(Debug, PartialEq, Eq)]
pub struct ClientShellRemoteMountAttempt {
    pub target: String,
    pub mounted: bool,
    pub mounted_workspace_id: Option<String>,
    pub error: Option<String>,
}

/// A remote mount, as a client shows it.
pub open spec fn shown_attempt(attempt: RemoteMountAttempt) -> ClientShellRemoteMountAttempt {
    ClientShellRemoteMountAttempt {
        target: attempt.target,
        mounted: attempt.outcome is Mounted,
        mounted_workspace_id: match attempt.outcome {
            RemoteMountOutcome::Mounted { workspace_id } => workspace_id,
            _ => None,
        },
        error: match attempt.outcome {
            RemoteMountOutcome::Failed { reason } => Some(reason),
            _ => None,
        },
    }
}

/// Show remote mounts to a client.
pub fn show_attempts(attempts: Vec<RemoteMountAttempt>) -> (shown: Vec<
    ClientShellRemoteMountAttempt,
>)
    ensures
        shown@ == attempts@.map_values(|attempt: RemoteMountAttempt| shown_attempt(attempt)),
{
    let ghost all = attempts@.map_values(|attempt: RemoteMountAttempt| shown_attempt(attempt));
    let ghost source = attempts@;
    let mut shown: Vec<ClientShellRemoteMountAttempt> = Vec::new();
    assert(shown@ =~= all.take(0));
    for attempt in iter: attempts
        invariant
            iter.seq() == source,
            all == source.map_values(|attempt: RemoteMountAttempt| shown_attempt(attempt)),
            shown@ == all.take(iter.index() as int),
    {
        assert(attempt == source[iter.index() as int]);
        let (mounted, mounted_workspace_id, error) = match attempt.outcome {
            RemoteMountOutcome::Dialling => (false, None, None),
            RemoteMountOutcome::Mounted { workspace_id } => (true, workspace_id, None),
            RemoteMountOutcome::Failed { reason } => (false, None, Some(reason)),
        };
        shown.push(
            ClientShellRemoteMountAttempt {
                target: attempt.target,
                mounted,
                mounted_workspace_id,
                error,
            },
        );
        assert(shown@ =~= all.take(iter.index() + 1));
    }
    assert(shown@ =~= all);
    shown
}

/// How an integration with an agent is installed.
#[derive(Debug, Clone, Copy, PartialEq, Eq, Structural)]
pub enum IntegrationStatusKind {
    NotInstalled,
    Current,
    Outdated,
}

/// Whether some integration is outdated.
pub fn integration_updates_available(integrations: &Vec<IntegrationStatusKind>) -> (available: bool)
    ensures
        available == integrations@.contains(IntegrationStatusKind::Outdated),
{
    let mut i: usize = 0;
    while i < integrations.len()
        invariant
            i <= integrations@.len(),
            forall|k: int| 0 <= k < i ==> integrations@[k] != IntegrationStatusKind::Outdated,
        decreases integrations@.len() - i,
    {
        if integrations[i] == IntegrationStatusKind::Outdated {
            return true;
        }
        i = i + 1;
    }
    false
}

/// An announcement on the product.
#[derive(Debug)]
pub struct ProductAnnouncement {
    pub version: String,
    pub id: String,
    pub title: String,
    pub body: String,
    pub preview: bool,
}

/// The notes of a release.
#[derive(Debug)]
pub struct ReleaseNotes {
    pub version: String,
    pub body: String,
    pub preview: bool,
}

/// A filter on the list of agents.
#[derive(Debug)]
pub struct AgentViewOverride {
    pub label: Option<String>,
}

/// The session, as the server has it. `S` is the status of an agent and `C` a
/// command that a client can run.
#[derive(Debug)]
pub struct Session<S, C> {
    pub focused_workspace_id: Option<String>,
    pub focused_tab_id: Option<String>,
    pub focused_pane_id: Option<String>,
    pub workspaces: Vec<SessionWorkspace<S>>,
    pub tabs: Vec<SessionTab<S>>,
    /// Whether the tabs are zoomed, workspace by workspace.
    pub tab_zooms: Vec<bool>,
    pub panes: Vec<SessionPane>,
    pub agents: Vec<SessionAgent<S>>,
    pub tab_facts: Vec<TabFacts>,
    pub agent_view_override: Option<AgentViewOverride>,
    /// The public ids of the panes in the agent list; a pane may have none.
    pub agent_panes: Vec<Option<String>>,
    pub tab_bar_right: Vec<TabBarStatusSegment>,
    pub tab_bar_right_separator: String,
    pub product_announcement: Option<ProductAnnouncement>,
    pub update_available: Option<String>,
    pub update_install_command: String,
    pub server_keybindings_toml: Option<String>,
    pub latest_release_notes_available: bool,
    pub latest_release_notes: Option<ReleaseNotes>,
    pub integrations: Vec<IntegrationStatusKind>,
    pub worktree_directory: String,
    pub auto_resize_splits: bool,
    pub commands: C,
    pub remote_mount_attempts: Vec<RemoteMountAttempt>,
    pub recent_remote_mount_targets: Vec<String>,
}

/// The session, as a client shows it.
#[derive(Debug)]
pub struct ClientShellSnapshot<S, C> {
    pub boot_id: String,
    pub revision: u64,
    pub config_diagnostic: Option<String>,
    pub product_announcement: Option<ProductAnnouncement>,
    pub update_available: Option<String>,
    pub update_install_command: String,
    pub server_keybindings_toml: Option<String>,
    pub latest_release_notes_available: bool,
    pub integration_updates_available: bool,
    pub worktree_directory: String,
    pub auto_resize_splits: bool,
    pub release_notes: Option<ReleaseNotes>,
    pub focused_workspace_id: Option<String>,
    pub focused_tab_id: Option<String>,
    pub focused_pane_id: Option<String>,
    pub tab_bar_right: Vec<ClientShellTabStatusSegment>,
    pub tab_bar_right_separator: String,
    pub agent_view_label: Option<String>,
    pub agent_order: Vec<String>,
    pub workspaces: Vec<ClientShellWorkspace<S>>,
    pub tabs: Vec<ClientShellTab<S>>,
    pub panes: Vec<ClientShellPane>,
    pub agents: Vec<ClientShellAgent<S>>,
    pub commands: C,
    pub remote_mount_attempts: Vec<ClientShellRemoteMountAttempt>,
    pub recent_remote_mount_targets: Vec<String>,
}

/// The first panes of the agent list that have public ids.
pub open spec fn ordered(panes: Seq<Option<String>>, n: int) -> Seq<String>
    decreases n,
{
    if n <= 0 {
        Seq::empty()
    } else {
        match panes[n - 1] {
            Some(pane_id) => ordered(panes, n - 1).push(pane_id),
            None => ordered(panes, n - 1),
        }
    }
}

fn agent_order(panes: Vec<Option<String>>) -> (order: Vec<String>)
    ensures
        order@ == ordered(panes@, panes@.len() as int),
{
    let ghost all = panes@;
    let mut order: Vec<String> = Vec::new();
    for pane in iter: panes
        invariant
            iter.seq() == all,
            order@ == ordered(all, iter.index() as int),
    {
        assert(pane == all[iter.index() as int]);
        if let Some(pane_id) = pane {
            order.push(pane_id);
        }
    }
    order
}

/// What the list of agents is called while it is filtered.
pub open spec fn view_label(view: Option<AgentViewOverride>) -> Option<Seq<char>> {
    match view {
        Some(view) => Some(
            match view.label {
                Some(label) => label@,
                None => "filtered"@,
            },
        ),
        None => None,
    }
}

fn show_tabs<S>(tabs: Vec<SessionTab<S>>, zooms: &Vec<bool>, focused: &Option<String>) -> (shown:
    Vec<ClientShellTab<S>>)
    ensures
        shows_tabs(tabs@, zooms@, *focused, shown@),
{
    let ghost all = tabs@;
    let mut shown: Vec<ClientShellTab<S>> = Vec::new();
    let mut i: usize = 0;
    for tab in iter: tabs
        invariant
            iter.seq() == all,
            i == if iter.index() < zooms@.len() {
                iter.index() as int
            } else {
                zooms@.len() as int
            },
            shown@.len() == i,
            forall|k: int|
                0 <= k < i ==> #[trigger] shown@[k] == shown_tab(all[k], zooms@[k], *focused),
    {
        assert(tab == all[iter.index() as int]);
        if i < zooms.len() {
            let is_focused = same_id(focused, tab.tab_id.as_str());
            shown.push(
                ClientShellTab {
                    tab_id: tab.tab_id,
                    workspace_id: tab.workspace_id,
                    focused: is_focused,
                    number: tab.number,
                    label: tab.label,
                    name_source: tab.name_source,
                    custom_label: tab.name_source.is_explicitly_named(),
                    zoomed: zooms[i],
                    agent_status: tab.agent_status,
                },
            );
            i = i + 1;
        }
    }
    shown
}

/// Whether tabs are shown so: each with the state of the tab at its own place.
pub open spec fn shows_tabs<S>(
    tabs: Seq<SessionTab<S>>,
    zooms: Seq<bool>,
    focused: Option<String>,
    shown: Seq<ClientShellTab<S>>,
) -> bool {
    &&& shown.len() == geometry::least(tabs.len() as int, zooms.len() as int)
    &&& forall|i: int|
        0 <= i < shown.len() ==> #[trigger] shown[i] == shown_tab(tabs[i], zooms[i], focused)
}

fn show_panes(panes: Vec<SessionPane>, focused: &Option<String>) -> (shown: Vec<ClientShellPane>)
    ensures
        shown@ == panes@.map_values(|pane: SessionPane| shown_pane(pane, *focused)),
{
    let ghost source = panes@;
    let ghost all = panes@.map_values(|pane: SessionPane| shown_pane(pane, *focused));
    let mut shown: Vec<ClientShellPane> = Vec::new();
    assert(shown@ =~= all.take(0));
    for pane in iter: panes
        invariant
            iter.seq() == source,
            all == source.map_values(|pane: SessionPane| shown_pane(pane, *focused)),
            shown@ == all.take(iter.index() as int),
    {
        assert(pane == source[iter.index() as int]);
        let is_focused = same_id(focused, pane.pane_id.as_str());
        shown.push(
            ClientShellPane {
                pane_id: pane.pane_id,
                workspace_id: pane.workspace_id,
                tab_id: pane.tab_id,
                label: pane.label,
                name_source: pane.name_source,
                cwd: pane.cwd,
                foreground_cwd: pane.foreground_cwd,
                focused: is_focused,
                right_click_passthrough: pane.right_click_passthrough,
            },
        );
        assert(shown@ =~= all.take(iter.index() + 1));
    }
    assert(shown@ =~= all);
    shown
}

/// Whether agents are shown so.
pub open spec fn shows_agents<S>(
    agents: Seq<SessionAgent<S>>,
    focused: Option<String>,
    shown: Seq<ClientShellAgent<S>>,
) -> bool {
    &&& shown.len() == agents.len()
    &&& forall|i: int|
        0 <= i < shown.len() ==> shows_agent(agents[i], focused, #[trigger] shown[i])
}

fn show_agents<S>(agents: Vec<SessionAgent<S>>, focused: &Option<String>) -> (shown: Vec<
    ClientShellAgent<S>,
>)
    ensures
        shows_agents(agents@, *focused, shown@),
{
    let ghost all = agents@;
    let mut shown: Vec<ClientShellAgent<S>> = Vec::new();
    for agent in iter: agents
        invariant
            iter.seq() == all,
            shown@.len() == iter.index(),
            forall|k: int|
                0 <= k < shown@.len() ==> shows_agent(all[k], *focused, #[trigger] shown@[k]),
    {
        assert(agent == all[iter.index() as int]);
        let is_focused = same_id(focused, agent.pane_id.as_str());
        shown.push(
            ClientShellAgent {
                pane_id: agent.pane_id,
                workspace_id: agent.workspace_id,
                tab_id: agent.tab_id,
                name: agent.name,
                label: agent.label,
                name_source: agent.name_source,
                display_agent: agent.display_agent,
                agent: agent.agent,
                title: agent.title,
                terminal_title: agent.terminal_title,
                terminal_title_stripped: agent.terminal_title_stripped,
                agent_status: agent.agent_status,
                state_change_seq: agent.state_change_seq,
                state_labels: sort_tokens(agent.state_labels),
                tokens: sort_tokens(agent.tokens),
                focused: is_focused,
            },
        );
    }
    shown
}

/// Whether workspaces are shown so.
pub open spec fn shows_workspaces<S>(
    workspaces: Seq<SessionWorkspace<S>>,
    location: Option<ClientShellLocation>,
    facts: Seq<TabFacts>,
    focused: Option<String>,
    shown: Seq<ClientShellWorkspace<S>>,
) -> bool {
    &&& shown.len() == workspaces.len()
    &&& forall|i: int|
        0 <= i < shown.len() ==> shows_workspace(
            workspaces[i],
            i,
            location,
            facts,
            focused,
            #[trigger] shown[i],
        )
}

fn show_workspaces<S>(
    workspaces: Vec<SessionWorkspace<S>>,
    location: &Option<ClientShellLocation>,
    facts: &Vec<TabFacts>,
    focused: &Option<String>,
) -> (shown: Vec<ClientShellWorkspace<S>>)
    ensures
        shows_workspaces(workspaces@, *location, facts@, *focused, shown@),
{
    let ghost all = workspaces@;
    let mut shown: Vec<ClientShellWorkspace<S>> = Vec::new();
    for workspace in iter: workspaces
        invariant
            iter.seq() == all,
            shown@.len() == iter.index(),
            forall|k: int|
                0 <= k < shown@.len() ==> shows_workspace(
                    all[k],
                    k,
                    *location,
                    facts@,
                    *focused,
                    #[trigger] shown@[k],
                ),
    {
        assert(workspace == all[iter.index() as int]);
        let index: usize = shown.len();
        shown.push(show_workspace(workspace, index, location, facts, focused));
    }
    shown
}

/// Whether a client is shown the session so. A client with a location of its own
/// sees its own focus; everything else is the same for all clients.
pub open spec fn shows_session<S, C>(
    session: Session<S, C>,
    location: Option<ClientShellLocation>,
    shown: ClientShellSnapshot<S, C>,
) -> bool {
    let workspace = located_workspace(location, session.focused_workspace_id);
    let tab = located_tab(location, session.focused_tab_id);
    let pane = located_pane(session.tab_facts@, tab, session.focused_pane_id);
    &&& shown.focused_workspace_id == workspace
    &&& shown.focused_tab_id == tab
    &&& shown.focused_pane_id == pane
    &&& shows_workspaces(
        session.workspaces@,
        location,
        session.tab_facts@,
        workspace,
        shown.workspaces@,
    )
    &&& shows_tabs(session.tabs@, session.tab_zooms@, tab, shown.tabs@)
    &&& shown.panes@ == session.panes@.map_values(|p: SessionPane| shown_pane(p, pane))
    &&& shows_agents(session.agents@, pane, shown.agents@)
    &&& text::text_of(shown.agent_view_label) == view_label(session.agent_view_override)
    &&& shown.agent_order@ == ordered(
        session.agent_panes@,
        session.agent_panes@.len() as int,
    )
    &&& shown_segments(shown.tab_bar_right@) == segments_view(
        session.tab_bar_right@,
        focused_facts(session.tab_facts@, tab) matches Some(facts) && facts.zoomed,
        session.tab_bar_right@.len() as int,
    )
    &&& shown.tab_bar_right_separator == session.tab_bar_right_separator
    &&& shown.product_announcement == session.product_announcement
    &&& shown.update_available == session.update_available
    &&& shown.update_install_command == session.update_install_command
    &&& shown.server_keybindings_toml == session.server_keybindings_toml
    &&& shown.latest_release_notes_available == session.latest_release_notes_available
    &&& shown.integration_updates_available == session.integrations@.contains(
        IntegrationStatusKind::Outdated,
    )
    &&& shown.worktree_directory == session.worktree_directory
    &&& shown.auto_resize_splits == session.auto_resize_splits
    &&& shown.release_notes == session.latest_release_notes
    &&& shown.commands == session.commands
    &&& shown.remote_mount_attempts@ == session.remote_mount_attempts@.map_values(
        |attempt: RemoteMountAttempt| shown_attempt(attempt),
    )
    &&& shown.recent_remote_mount_targets == session.recent_remote_mount_targets
}

fn first_or(first: Option<String>, second: Option<String>) -> (id: Option<String>)
    ensures
        id == or_else(first, second),
{
    match first {
        Some(id) => Some(id),
        None => second,
    }
}

fn cloned(id: &Option<String>) -> (copy: Option<String>)
    ensures
        copy == *id,
{
    match id {
        Some(id) => Some(id.clone()),
        None => None,
    }
}

/// Show the session to a client.
pub fn snapshot<S, C>(
    session: Session<S, C>,
    boot_id: String,
    revision: u64,
    config_diagnostic: Option<String>,
    location: Option<ClientShellLocation>,
) -> (shown: ClientShellSnapshot<S, C>)
    ensures
        shows_session(session, location, shown),
        shown.boot_id == boot_id,
        shown.revision == revision,
        shown.config_diagnostic == config_diagnostic,
{
    let (own_workspace, own_tab) = match &location {
        Some(location) => (
            cloned(&location.focused_workspace_id),
            cloned(&location.focused_tab_id),
        ),
        None => (None, None),
    };
    let focused_workspace_id = first_or(own_workspace, session.focused_workspace_id);
    let focused_tab_id = first_or(own_tab, session.focused_tab_id);
    let mut zoomed = false;
    let mut own_pane: Option<String> = None;
    if let Some(tab_id) = &focused_tab_id {
        if let Some(facts) = find_tab(&session.tab_facts, tab_id.as_str()) {
            zoomed = facts.zoomed;
            own_pane = cloned(&facts.focused_pane_id);
        }
    }
    let focused_pane_id = first_or(own_pane, session.focused_pane_id);
    let workspaces = show_workspaces(
        session.workspaces,
        &location,
        &session.tab_facts,
        &focused_workspace_id,
    );
    let tabs = show_tabs(session.tabs, &session.tab_zooms, &focused_tab_id);
    let panes = show_panes(session.panes, &focused_pane_id);
    let agents = show_agents(session.agents, &focused_pane_id);
    let agent_view_label = match session.agent_view_override {
        Some(view) => match view.label {
            Some(label) => Some(label),
            None => Some("filtered".to_owned()),
        },
        None => None,
    };
    ClientShellSnapshot {
        boot_id,
        revision,
        config_diagnostic,
        product_announcement: session.product_announcement,
        update_available: session.update_available,
        update_install_command: session.update_install_command,
        server_keybindings_toml: session.server_keybindings_toml,
        latest_release_notes_available: session.latest_release_notes_available,
        integration_updates_available: integration_updates_available(&session.integrations),
        worktree_directory: session.worktree_directory,
        auto_resize_splits: session.auto_resize_splits,
        release_notes: session.latest_release_notes,
        focused_workspace_id,
        focused_tab_id,
        focused_pane_id,
        tab_bar_right: tab_bar_segments(session.tab_bar_right, zoomed),
        tab_bar_right_separator: session.tab_bar_right_separator,
        agent_view_label,
        agent_order: agent_order(session.agent_panes),
        workspaces,
        tabs,
        panes,
        agents,
        commands: session.commands,
        remote_mount_attempts: show_attempts(session.remote_mount_attempts),
        recent_remote_mount_targets: session.recent_remote_mount_targets,
    }
}

/// A mounted workspace is told as explicitly named, as one that the user named
/// is, and a derived name is not; and no mounted workspace is told to be on a
/// branch here.
pub proof fn law_given_names_are_told_apart<S>(
    workspace: SessionWorkspace<S>,
    index: int,
    location: Option<ClientShellLocation>,
    facts: Seq<TabFacts>,
    focused: Option<String>,
    shown: ClientShellWorkspace<S>,
)
    requires
        shows_workspace(workspace, index, location, facts, focused, shown),
    ensures
        shown.name_source == workspace.name_source,
        shown.custom_label <==> workspace.name_source != NameSource::Derived,
        workspace.federation_origin is Some ==> shown.branch is None,
{
}

/// The divider between two panes.
#[derive(Debug)]
pub struct SplitBorder {
    pub pos: u16,
    pub direction: Direction,
    pub area: Rect,
    pub path: Vec<bool>,
}

/// Where a divider can be grabbed, before panes are looked at: its line where
/// panes have borders, the gap before it where they have gaps, or both.
pub open spec fn grab_rect(
    direction: Direction,
    pos: u16,
    area: Rect,
    borders: bool,
    gaps: bool,
) -> Option<Rect> {
    let start = geometry::less(pos as int, 1);
    match direction {
        Direction::Horizontal => if borders && !gaps {
            Some(geometry::rect(pos as int, area.y as int, 1, area.height as int))
        } else if borders {
            Some(geometry::rect(start, area.y as int, pos - start + 1, area.height as int))
        } else if gaps && pos > 0 {
            Some(geometry::rect(pos - 1, area.y as int, 1, area.height as int))
        } else {
            None
        },
        Direction::Vertical => if borders && !gaps {
            Some(geometry::rect(area.x as int, pos as int, area.width as int, 1))
        } else if borders {
            Some(geometry::rect(area.x as int, start, area.width as int, pos - start + 1))
        } else if gaps && pos > 0 {
            Some(geometry::rect(area.x as int, pos - 1, area.width as int, 1))
        } else {
            None
        },
    }
}

/// The end of an extent, at most the last coordinate.
pub open spec fn end(start: u16, size: u16) -> int {
    geometry::least(start + size, u16::MAX as int)
}

/// Whether two rectangles have a cell in common.
pub open spec fn overlap(a: Rect, b: Rect) -> bool {
    &&& a.x < end(b.x, b.width)
    &&& end(a.x, a.width) > b.x
    &&& a.y < end(b.y, b.height)
    &&& end(a.y, a.height) > b.y
}

/// Where a divider can be grabbed. Panes without borders keep all their cells.
pub open spec fn hit_rect(
    split: SplitBorder,
    borders: bool,
    gaps: bool,
    frames: Seq<Rect>,
) -> Option<Rect> {
    match grab_rect(split.direction, split.pos, split.area, borders, gaps) {
        Some(hit) => if !borders && exists|i: int|
            0 <= i < frames.len() && overlap(hit, #[trigger] frames[i]) {
            None
        } else {
            Some(hit)
        },
        None => None,
    }
}

fn overlaps(a: Rect, b: Rect) -> (common: bool)
    ensures
        common == overlap(a, b),
{
    a.x < b.right() && a.right() > b.x && a.y < b.bottom() && a.bottom() > b.y
}

/// Where a divider can be grabbed.
pub fn split_hit_rect(
    split: &SplitBorder,
    pane_borders: bool,
    pane_gaps: bool,
    pane_frames: &Vec<Rect>,
) -> (hit: Option<Rect>)
    ensures
        hit == hit_rect(*split, pane_borders, pane_gaps, pane_frames@),
{
    let pos: u16 = split.pos;
    let area = split.area;
    let start: u16 = pos.saturating_sub(1);
    let width: u16 = if pos > start {
        2
    } else {
        1
    };
    let hit = match split.direction {
        Direction::Horizontal => {
            if pane_borders && !pane_gaps {
                Rect::new(pos, area.y, 1, area.height)
            } else if pane_borders {
                Rect::new(start, area.y, width, area.height)
            } else if pane_gaps && pos > 0 {
                Rect::new(pos - 1, area.y, 1, area.height)
            } else {
                return None;
            }
        },
        Direction::Vertical => {
            if pane_borders && !pane_gaps {
                Rect::new(area.x, pos, area.width, 1)
            } else if pane_borders {
                Rect::new(area.x, start, area.width, width)
            } else if pane_gaps && pos > 0 {
                Rect::new(area.x, pos - 1, area.width, 1)
            } else {
                return None;
            }
        },
    };
    if !pane_borders {
        let mut i: usize = 0;
        while i < pane_frames.len()
            invariant
                i <= pane_frames@.len(),
                !pane_borders,
                grab_rect(split.direction, split.pos, split.area, pane_borders, pane_gaps)
                    == Some(hit),
                forall|k: int| 0 <= k < i ==> !overlap(hit, #[trigger] pane_frames@[k]),
            decreases pane_frames@.len() - i,
        {
            if overlaps(hit, pane_frames[i]) {
                return None;
            }
            i = i + 1;
        }
    }
    Some(hit)
}

/// A divider never takes cells from panes without borders.
pub proof fn law_dividers_leave_the_panes_alone(
    split: SplitBorder,
    gaps: bool,
    frames: Seq<Rect>,
    i: int,
)
    requires
        0 <= i < frames.len(),
    ensures
        hit_rect(split, false, gaps, frames) matches Some(hit) ==> !overlap(hit, frames[i]),
{
}

/// The size of a cell of the client's terminal in pixels, as far as it is known.
#[derive(Debug, Clone, Copy, PartialEq, Eq, Structural)]
pub struct HostCellSize {
    pub width_px: u32,
    pub height_px: u32,
}

impl HostCellSize {
    pub open spec fn known(self) -> bool {
        self.width_px > 0 && self.height_px > 0
    }

    pub fn is_known(self) -> (known: bool)
        ensures
            known == self.known(),
    {
        self.width_px > 0 && self.height_px > 0
    }
}

/// The size of a rectangle in pixels; nothing where it is not known.
pub open spec fn pixels(area: Rect, cell: HostCellSize) -> (int, int) {
    if cell.known() {
        (area.width * cell.width_px, area.height * cell.height_px)
    } else {
        (0, 0)
    }
}

/// Whether the size of a rectangle in pixels can be told.
pub open spec fn measurable(area: Rect, cell: HostCellSize) -> bool {
    pixels(area, cell).0 <= u32::MAX && pixels(area, cell).1 <= u32::MAX
}

/// The size of a rectangle in pixels.
pub fn pixel_size(area: Rect, cell: HostCellSize) -> (size: (u32, u32))
    requires
        measurable(area, cell),
    ensures
        size.0 == pixels(area, cell).0,
        size.1 == pixels(area, cell).1,
{
    if cell.is_known() {
        (area.width as u32 * cell.width_px, area.height as u32 * cell.height_px)
    } else {
        (0, 0)
    }
}

/// The revision of a pane's content: the program's own count where it is even and
/// did not change while the surface was drawn, and otherwise an odd one, which no
/// finished content has.
pub open spec fn stable_revision(before: Option<u64>, after: u64) -> u64 {
    if after % 2 == 1 {
        after
    } else if before == Some(after) {
        after
    } else {
        (after + 1) as u64
    }
}

/// The revision of a pane's content.
pub fn content_revision(before: Option<u64>, after: u64) -> (revision: u64)
    ensures
        revision == stable_revision(before, after),
{
    let unchanged = match before {
        Some(before) => before == after,
        None => false,
    };
    if after % 2 == 1 || unchanged {
        after
    } else {
        after + 1
    }
}

/// A revision is even only where the content was complete and stayed the same
/// while it was drawn.
pub proof fn law_even_revisions_are_stable(before: Option<u64>, after: u64)
    ensures
        stable_revision(before, after) % 2 == 0 ==> before == Some(after) && stable_revision(
            before,
            after,
        ) == after,
{
}

/// What a pane's program tells.
#[derive(Debug, Clone, Copy, PartialEq, Eq, Structural)]
pub struct RuntimeFacts {
    /// The count of its changes before the surface was drawn.
    pub content_before: Option<u64>,
    /// The count of its changes afterwards.
    pub content_after: u64,
    pub scroll: Option<ScrollMetrics>,
    pub mouse_reporting: bool,
    pub sgr_pixel_mouse: bool,
    pub alternate_screen_active: bool,
}

/// A pane of a surface, as the server has it.
#[derive(Debug)]
pub struct SurfaceSource {
    /// Its public id, where it has one.
    pub pane_id: Option<String>,
    pub rect: Rect,
    pub inner_rect: Rect,
    pub scrollbar_rect: Option<Rect>,
    pub focused: bool,
    pub runtime: Option<RuntimeFacts>,
}

/// A pane of a surface, as a client shows it.
#[derive(Debug)]
pub struct PaneSurfacePane {
    pub pane_id: String,
    pub content_revision: u64,
    pub rect: Rect,
    pub inner_rect: Rect,
    pub scrollbar_rect: Option<Rect>,
    pub scroll: Option<ScrollMetrics>,
    pub focused: bool,
    pub mouse_reporting: bool,
    pub sgr_pixel_mouse: bool,
    pub alternate_screen_active: bool,
    pub pixel_width: u32,
    pub pixel_height: u32,
}

/// A pane of a surface, as a client shows it.
pub open spec fn shown_surface(
    pane_id: String,
    source: SurfaceSource,
    cell: HostCellSize,
) -> PaneSurfacePane {
    PaneSurfacePane {
        pane_id,
        content_revision: match source.runtime {
            Some(runtime) => stable_revision(runtime.content_before, runtime.content_after),
            None => 0,
        },
        rect: source.rect,
        inner_rect: source.inner_rect,
        scrollbar_rect: source.scrollbar_rect,
        scroll: match source.runtime {
            Some(runtime) => runtime.scroll,
            None => None,
        },
        focused: source.focused,
        mouse_reporting: source.runtime matches Some(runtime) && runtime.mouse_reporting,
        sgr_pixel_mouse: source.runtime matches Some(runtime) && runtime.sgr_pixel_mouse,
        alternate_screen_active: source.runtime matches Some(runtime)
            && runtime.alternate_screen_active,
        pixel_width: pixels(source.inner_rect, cell).0 as u32,
        pixel_height: pixels(source.inner_rect, cell).1 as u32,
    }
}

/// The first panes of a surface that have public ids.
pub open spec fn surface_panes(sources: Seq<SurfaceSource>, cell: HostCellSize, n: int) -> Seq<
    PaneSurfacePane,
>
    decreases n,
{
    if n <= 0 {
        Seq::empty()
    } else {
        match sources[n - 1].pane_id {
            Some(pane_id) => surface_panes(sources, cell, n - 1).push(
                shown_surface(pane_id, sources[n - 1], cell),
            ),
            None => surface_panes(sources, cell, n - 1),
        }
    }
}

/// Whether the sizes of shown panes in pixels can be told.
pub open spec fn panes_measurable(sources: Seq<SurfaceSource>, cell: HostCellSize) -> bool {
    forall|i: int|
        0 <= i < sources.len() && (#[trigger] sources[i]).pane_id is Some ==> measurable(
            sources[i].inner_rect,
            cell,
        )
}

fn show_surface_panes(sources: Vec<SurfaceSource>, cell: HostCellSize) -> (shown: Vec<
    PaneSurfacePane,
>)
    requires
        panes_measurable(sources@, cell),
    ensures
        shown@ == surface_panes(sources@, cell, sources@.len() as int),
{
    let ghost all = sources@;
    let mut shown: Vec<PaneSurfacePane> = Vec::new();
    for source in iter: sources
        invariant
            iter.seq() == all,
            panes_measurable(all, cell),
            shown@ == surface_panes(all, cell, iter.index() as int),
    {
        assert(source == all[iter.index() as int]);
        if let Some(pane_id) = source.pane_id {
            let (pixel_width, pixel_height) = pixel_size(source.inner_rect, cell);
            let (revision, scroll, mouse, pixel_mouse, alternate) = match source.runtime {
                Some(runtime) => (
                    content_revision(runtime.content_before, runtime.content_after),
                    runtime.scroll,
                    runtime.mouse_reporting,
                    runtime.sgr_pixel_mouse,
                    runtime.alternate_screen_active,
                ),
                None => (0, None, false, false, false),
            };
            shown.push(
                PaneSurfacePane {
                    pane_id,
                    content_revision: revision,
                    rect: source.rect,
                    inner_rect: source.inner_rect,
                    scrollbar_rect: source.scrollbar_rect,
                    scroll,
                    focused: source.focused,
                    mouse_reporting: mouse,
                    sgr_pixel_mouse: pixel_mouse,
                    alternate_screen_active: alternate,
                    pixel_width,
                    pixel_height,
                },
            );
        }
    }
    shown
}

/// A divider, as a client shows it.
#[derive(Debug)]
pub struct PaneSurfaceSplit {
    pub direction: Direction,
    pub pos: u16,
    pub area: Rect,
    pub hit_rect: Rect,
    pub path: Vec<bool>,
}

/// The first dividers that can be grabbed.
pub open spec fn surface_splits(
    splits: Seq<SplitBorder>,
    borders: bool,
    gaps: bool,
    frames: Seq<Rect>,
    n: int,
) -> Seq<PaneSurfaceSplit>
    decreases n,
{
    if n <= 0 {
        Seq::empty()
    } else {
        let split = splits[n - 1];
        match hit_rect(split, borders, gaps, frames) {
            Some(hit) => surface_splits(splits, borders, gaps, frames, n - 1).push(
                PaneSurfaceSplit {
                    direction: split.direction,
                    pos: split.pos,
                    area: split.area,
                    hit_rect: hit,
                    path: split.path,
                },
            ),
            None => surface_splits(splits, borders, gaps, frames, n - 1),
        }
    }
}

fn show_splits(splits: Vec<SplitBorder>, borders: bool, gaps: bool, frames: &Vec<Rect>) -> (shown:
    Vec<PaneSurfaceSplit>)
    ensures
        shown@ == surface_splits(splits@, borders, gaps, frames@, splits@.len() as int),
{
    let ghost all = splits@;
    let mut shown: Vec<PaneSurfaceSplit> = Vec::new();
    for split in iter: splits
        invariant
            iter.seq() == all,
            shown@ == surface_splits(all, borders, gaps, frames@, iter.index() as int),
    {
        assert(split == all[iter.index() as int]);
        if let Some(hit) = split_hit_rect(&split, borders, gaps, frames) {
            shown.push(
                PaneSurfaceSplit {
                    direction: split.direction,
                    pos: split.pos,
                    area: split.area,
                    hit_rect: hit,
                    path: split.path,
                },
            );
        }
    }
    shown
}

/// The rectangles of panes.
pub open spec fn frames_of(sources: Seq<SurfaceSource>) -> Seq<Rect> {
    sources.map_values(|source: SurfaceSource| source.rect)
}

fn pane_frames(sources: &Vec<SurfaceSource>) -> (frames: Vec<Rect>)
    ensures
        frames@ == frames_of(sources@),
{
    let mut frames: Vec<Rect> = Vec::new();
    let mut i: usize = 0;
    while i < sources.len()
        invariant
            i <= sources@.len(),
            frames@ == frames_of(sources@).take(i as int),
        decreases sources@.len() - i,
    {
        frames.push(sources[i].rect);
        i = i + 1;
        assert(frames@ =~= frames_of(sources@).take(i as int));
    }
    assert(frames@ =~= frames_of(sources@));
    frames
}

/// How large a popup wants to be.
#[derive(Debug, Clone, Copy, PartialEq, Eq, Structural)]
pub enum PopupSize {
    Cells(u16),
    Percent(u8),
}

/// A popup over the panes, as the server has it.
#[derive(Debug)]
pub struct PopupSource {
    pub terminal_id: String,
    /// What the popup's own terminal is called; it has no tab to inherit from.
    pub label: Option<String>,
    pub width: Option<PopupSize>,
    pub height: Option<PopupSize>,
    /// The rectangle inside its frame, where it has room on the surface.
    pub inner: Option<Rect>,
    pub runtime: Option<RuntimeFacts>,
    /// Whether a client that is attached to the terminal itself sizes it.
    pub resize_locked: bool,
}

/// A popup, as a client shows it.
#[derive(Debug)]
pub struct ClientShellPopupSurface {
    pub terminal_id: String,
    pub title: String,
    pub width: Option<PopupSize>,
    pub height: Option<PopupSize>,
    /// The area whose content is drawn.
    pub content: Rect,
    pub mouse_reporting: bool,
    pub sgr_pixel_mouse: bool,
    pub pixel_width: u32,
    pub pixel_height: u32,
}

/// The content of a popup.
pub open spec fn popup_content(inner: Rect) -> Rect {
    Rect { x: 0, y: 0, width: inner.width, height: inner.height }
}

/// Whether a popup is shown so: only one with room and a running program.
pub open spec fn shows_popup(
    popup: Option<PopupSource>,
    cell: HostCellSize,
    shown: Option<ClientShellPopupSurface>,
) -> bool {
    match popup {
        Some(popup) => match (popup.inner, popup.runtime) {
            (Some(inner), Some(runtime)) => shown matches Some(shown) && {
                &&& shown.terminal_id == popup.terminal_id
                &&& shown.title@ == match popup.label {
                    Some(label) => label@,
                    None => "popup"@,
                }
                &&& shown.width == popup.width
                &&& shown.height == popup.height
                &&& shown.content == popup_content(inner)
                &&& shown.mouse_reporting == runtime.mouse_reporting
                &&& shown.sgr_pixel_mouse == runtime.sgr_pixel_mouse
                &&& shown.pixel_width == pixels(popup_content(inner), cell).0
                &&& shown.pixel_height == pixels(popup_content(inner), cell).1
            },
            _ => shown is None,
        },
        None => shown is None,
    }
}

/// Whether the size of a shown popup in pixels can be told.
pub open spec fn popup_measurable(popup: Option<PopupSource>, cell: HostCellSize) -> bool {
    popup matches Some(popup) ==> match (popup.inner, popup.runtime) {
        (Some(inner), Some(_)) => measurable(popup_content(inner), cell),
        _ => true,
    }
}

/// Show a popup to a client.
pub fn render_popup_surface(popup: Option<PopupSource>, cell: HostCellSize) -> (shown: Option<
    ClientShellPopupSurface,
>)
    requires
        popup_measurable(popup, cell),
    ensures
        shows_popup(popup, cell, shown),
{
    let popup = match popup {
        Some(popup) => popup,
        None => {
            return None;
        },
    };
    let inner = match popup.inner {
        Some(inner) => inner,
        None => {
            return None;
        },
    };
    let runtime = match popup.runtime {
        Some(runtime) => runtime,
        None => {
            return None;
        },
    };
    let content = Rect { x: 0, y: 0, width: inner.width, height: inner.height };
    let (pixel_width, pixel_height) = pixel_size(content, cell);
    let title = match popup.label {
        Some(label) => label,
        None => "popup".to_owned(),
    };
    Some(
        ClientShellPopupSurface {
            terminal_id: popup.terminal_id,
            title,
            width: popup.width,
            height: popup.height,
            content,
            mouse_reporting: runtime.mouse_reporting,
            sgr_pixel_mouse: runtime.sgr_pixel_mouse,
            pixel_width,
            pixel_height,
        },
    )
}

/// A size that a popup's program is told, in cells and pixels of a cell.
#[derive(Debug, Clone, Copy, PartialEq, Eq, Structural)]
pub struct PopupResize {
    pub rows: u16,
    pub cols: u16,
    pub cell: HostCellSize,
}

/// The size that a popup's program is told: none where it has no room or no
/// program, or another client sizes it.
pub fn resize_popup_runtime(popup: &Option<PopupSource>, cell: HostCellSize) -> (resize: Option<
    PopupResize,
>)
    ensures
        resize == match *popup {
            Some(popup) => match (popup.inner, popup.runtime) {
                (Some(inner), Some(_)) => if popup.resize_locked {
                    None
                } else {
                    Some(PopupResize { rows: inner.height, cols: inner.width, cell })
                },
                _ => None,
            },
            None => None,
        },
{
    if let Some(popup) = popup {
        if let Some(inner) = popup.inner {
            if popup.runtime.is_some() && !popup.resize_locked {
                return Some(PopupResize { rows: inner.height, cols: inner.width, cell });
            }
        }
    }
    None
}

/// The surface of a tab, as the server has it.
#[derive(Debug)]
pub struct SurfaceScene {
    /// The panes, where a tab is shown.
    pub panes: Vec<SurfaceSource>,
    pub has_target: bool,
    pub splits: Vec<SplitBorder>,
    pub pane_borders: bool,
    pub pane_gaps: bool,
    pub popup: Option<PopupSource>,
    pub show_popup: bool,
    pub cell: HostCellSize,
}

/// The surface of a tab, as a client shows it.
#[derive(Debug)]
pub struct RenderedPaneSurface {
    pub panes: Vec<PaneSurfacePane>,
    pub splits: Vec<PaneSurfaceSplit>,
    pub popup: Option<ClientShellPopupSurface>,
}

/// Whether the sizes on a surface in pixels can be told.
pub open spec fn surface_measurable(scene: SurfaceScene) -> bool {
    &&& scene.has_target ==> panes_measurable(scene.panes@, scene.cell)
    &&& scene.show_popup ==> popup_measurable(scene.popup, scene.cell)
}

/// Show the surface of a tab to a client: its panes, where a tab is shown, its
/// dividers, and the popup where it is wanted.
pub fn render_pane_surface(scene: SurfaceScene) -> (surface: RenderedPaneSurface)
    requires
        surface_measurable(scene),
    ensures
        surface.panes@ == if scene.has_target {
            surface_panes(scene.panes@, scene.cell, scene.panes@.len() as int)
        } else {
            Seq::empty()
        },
        surface.splits@ == surface_splits(
            scene.splits@,
            scene.pane_borders,
            scene.pane_gaps,
            frames_of(scene.panes@),
            scene.splits@.len() as int,
        ),
        scene.show_popup ==> shows_popup(scene.popup, scene.cell, surface.popup),
        !scene.show_popup ==> surface.popup is None,
{
    let frames = pane_frames(&scene.panes);
    let panes: Vec<PaneSurfacePane> = if scene.has_target {
        show_surface_panes(scene.panes, scene.cell)
    } else {
        Vec::new()
    };
    let splits = show_splits(scene.splits, scene.pane_borders, scene.pane_gaps, &frames);
    let popup = if scene.show_popup {
        render_popup_surface(scene.popup, scene.cell)
    } else {
        None
    };
    RenderedPaneSurface { panes, splits, popup }
}

/// A client is where its own location says, and where the session is otherwise:
/// workspace and tab each, and the focused pane of that tab.
pub proof fn law_a_client_sees_its_own_place<S, C>(
    session: Session<S, C>,
    location: Option<ClientShellLocation>,
    shown: ClientShellSnapshot<S, C>,
)
    requires
        shows_session(session, location, shown),
    ensures
        location is None ==> shown.focused_workspace_id == session.focused_workspace_id
            && shown.focused_tab_id == session.focused_tab_id,
        location matches Some(own) ==> {
            &&& own.focused_workspace_id is Some ==> shown.focused_workspace_id
                == own.focused_workspace_id
            &&& own.focused_workspace_id is None ==> shown.focused_workspace_id
                == session.focused_workspace_id
            &&& own.focused_tab_id is Some ==> shown.focused_tab_id == own.focused_tab_id
            &&& own.focused_tab_id is None ==> shown.focused_tab_id == session.focused_tab_id
        },
        shown.focused_tab_id is None ==> shown.focused_pane_id == session.focused_pane_id,
{
}

/// The focused pane is that of the tab a client is in, as far as the first facts
/// on that tab tell one.
pub proof fn law_the_tab_tells_the_focused_pane<S, C>(
    session: Session<S, C>,
    location: Option<ClientShellLocation>,
    shown: ClientShellSnapshot<S, C>,
    at: int,
)
    requires
        shows_session(session, location, shown),
        shown.focused_tab_id is Some,
        0 <= at < session.tab_facts@.len(),
        session.tab_facts@[at].tab_id@ == shown.focused_tab_id->0@,
        forall|j: int|
            0 <= j < at ==> (#[trigger] session.tab_facts@[j]).tab_id@ != shown.focused_tab_id->0@,
    ensures
        session.tab_facts@[at].focused_pane_id is Some ==> shown.focused_pane_id
            == session.tab_facts@[at].focused_pane_id,
        session.tab_facts@[at].focused_pane_id is None ==> shown.focused_pane_id
            == session.focused_pane_id,
{
    lemma_tab_facts(session.tab_facts@, shown.focused_tab_id->0@, at);
}

proof fn lemma_tab_facts(facts: Seq<TabFacts>, tab_id: Seq<char>, at: int)
    requires
        0 <= at < facts.len(),
        facts[at].tab_id@ == tab_id,
        forall|j: int| 0 <= j < at ==> (#[trigger] facts[j]).tab_id@ != tab_id,
    ensures
        tab_facts(facts, tab_id) == Some(facts[at]),
    decreases facts.len(),
{
    if at > 0 {
        assert(facts[0].tab_id@ != tab_id);
        let rest = facts.drop_first();
        assert forall|j: int| 0 <= j < at - 1 implies (#[trigger] rest[j]).tab_id@ != tab_id by {
            assert(rest[j] == facts[j + 1]);
        }
        lemma_tab_facts(rest, tab_id, at - 1);
    }
}

/// Every workspace of the session is told, in order and as it is: its id, number,
/// label, status, origin and repository, and its branch where it is not mounted.
/// It is marked exactly where the client is in it.
pub proof fn law_workspaces_are_told_as_they_are<S, C>(
    session: Session<S, C>,
    location: Option<ClientShellLocation>,
    shown: ClientShellSnapshot<S, C>,
)
    requires
        shows_session(session, location, shown),
    ensures
        shown.workspaces@.len() == session.workspaces@.len(),
        forall|i: int|
            0 <= i < session.workspaces@.len() ==> {
                let told = #[trigger] shown.workspaces@[i];
                let own = session.workspaces@[i];
                &&& told.workspace_id == own.workspace_id
                &&& told.number == own.number
                &&& told.label == own.label
                &&& told.agent_status == own.agent_status
                &&& told.federation_origin == own.federation_origin
                &&& told.git_ahead_behind == own.git_ahead_behind
                &&& own.federation_origin is None ==> told.branch == own.branch
                &&& own.federation_origin is Some ==> told.branch is None
                &&& told.focused <==> shown.focused_workspace_id is Some
                    && shown.focused_workspace_id->0@ == own.workspace_id@
                &&& told.tokens@.to_multiset() == own.tokens@.to_multiset()
                &&& own.worktree is None <==> told.worktree is None
                &&& own.worktree is Some ==> told.worktree->0.key == own.worktree->0.repo_key
                    && told.worktree->0.label == own.worktree->0.repo_name
                    && told.worktree->0.is_linked_worktree
                    == own.worktree->0.is_linked_worktree
                &&& location is None ==> told.active_tab_id == own.active_tab_id
            },
{
    assert forall|i: int| 0 <= i < session.workspaces@.len() implies shows_workspace(
        session.workspaces@[i],
        i,
        location,
        session.tab_facts@,
        shown.focused_workspace_id,
        #[trigger] shown.workspaces@[i],
    ) by {}
}

/// The active tab of a workspace is the one that the client has active there, if
/// it has one of its own, and the session's otherwise.
pub proof fn law_a_client_has_its_own_active_tab<S>(
    location: ClientShellLocation,
    workspace: SessionWorkspace<S>,
    at: int,
)
    requires
        0 <= at < location.active_tab_ids@.len(),
        location.active_tab_ids@[at].workspace_id@ == workspace.workspace_id@,
        forall|j: int|
            0 <= j < at ==> (#[trigger] location.active_tab_ids@[j]).workspace_id@
                != workspace.workspace_id@,
    ensures
        active_tab_of(Some(location), workspace) == location.active_tab_ids@[at].tab_id,
{
    lemma_client_tab(location.active_tab_ids@, workspace.workspace_id@, at);
}

proof fn lemma_client_tab(tabs: Seq<ActiveTab>, workspace_id: Seq<char>, at: int)
    requires
        0 <= at < tabs.len(),
        tabs[at].workspace_id@ == workspace_id,
        forall|j: int| 0 <= j < at ==> (#[trigger] tabs[j]).workspace_id@ != workspace_id,
    ensures
        client_tab(tabs, workspace_id) == Some(tabs[at].tab_id),
    decreases tabs.len(),
{
    if at > 0 {
        assert(tabs[0].workspace_id@ != workspace_id);
        let rest = tabs.drop_first();
        assert forall|j: int| 0 <= j < at - 1 implies (#[trigger] rest[j]).workspace_id@
            != workspace_id by {
            assert(rest[j] == tabs[j + 1]);
        }
        lemma_client_tab(rest, workspace_id, at - 1);
    }
}

/// Without an active tab of its own a client has the session's.
pub proof fn law_the_session_tells_the_active_tab<S>(
    location: ClientShellLocation,
    workspace: SessionWorkspace<S>,
)
    requires
        forall|j: int|
            0 <= j < location.active_tab_ids@.len() ==> (
            #[trigger] location.active_tab_ids@[j]).workspace_id@ != workspace.workspace_id@,
    ensures
        active_tab_of(Some(location), workspace) == workspace.active_tab_id,
{
    lemma_no_client_tab(location.active_tab_ids@, workspace.workspace_id@);
}

proof fn lemma_no_client_tab(tabs: Seq<ActiveTab>, workspace_id: Seq<char>)
    requires
        forall|j: int| 0 <= j < tabs.len() ==> (#[trigger] tabs[j]).workspace_id@ != workspace_id,
    ensures
        client_tab(tabs, workspace_id) is None,
    decreases tabs.len(),
{
    if tabs.len() > 0 {
        assert(tabs[0].workspace_id@ != workspace_id);
        let rest = tabs.drop_first();
        assert forall|j: int| 0 <= j < rest.len() implies (#[trigger] rest[j]).workspace_id@
            != workspace_id by {
            assert(rest[j] == tabs[j + 1]);
        }
        lemma_no_client_tab(rest, workspace_id);
    }
}

/// A new workspace opens in the directory of the active tab, where the facts on
/// it are of this workspace and tell one; otherwise in the workspace's own.
pub proof fn law_new_workspaces_open_where_the_tab_is<S>(
    workspace: SessionWorkspace<S>,
    index: int,
    facts: Seq<TabFacts>,
    active_tab: Seq<char>,
    at: int,
)
    requires
        0 <= at < facts.len(),
        facts[at].tab_id@ == active_tab,
        forall|j: int| 0 <= j < at ==> (#[trigger] facts[j]).tab_id@ != active_tab,
    ensures
        facts[at].workspace_index == index && facts[at].tab_index
            < workspace.new_workspace_cwds@.len() ==> cwd_of(workspace, index, facts, active_tab)
            == workspace.new_workspace_cwds@[facts[at].tab_index as int],
        facts[at].workspace_index != index || facts[at].tab_index
            >= workspace.new_workspace_cwds@.len() ==> cwd_of(workspace, index, facts, active_tab)
            == workspace.new_workspace_cwd,
{
    lemma_tab_facts(facts, active_tab, at);
}

/// Every tab of the session is told, in order and as it is, zoomed as the tab at
/// its own place is, and marked exactly where the client is in it.
pub proof fn law_tabs_are_told_as_they_are<S, C>(
    session: Session<S, C>,
    location: Option<ClientShellLocation>,
    shown: ClientShellSnapshot<S, C>,
)
    requires
        shows_session(session, location, shown),
        session.tabs@.len() == session.tab_zooms@.len(),
    ensures
        shown.tabs@.len() == session.tabs@.len(),
        forall|i: int|
            0 <= i < session.tabs@.len() ==> {
                let told = #[trigger] shown.tabs@[i];
                let own = session.tabs@[i];
                &&& told.tab_id == own.tab_id
                &&& told.workspace_id == own.workspace_id
                &&& told.number == own.number
                &&& told.label == own.label
                &&& told.agent_status == own.agent_status
                &&& told.name_source == own.name_source
                &&& told.custom_label <==> own.name_source != NameSource::Derived
                &&& told.zoomed == session.tab_zooms@[i]
                &&& told.focused <==> shown.focused_tab_id is Some && shown.focused_tab_id->0@
                    == own.tab_id@
            },
{
}

/// Every pane and every agent of the session is told, in order and as it is, and
/// marked exactly where the client is in it.
pub proof fn law_panes_and_agents_are_told_as_they_are<S, C>(
    session: Session<S, C>,
    location: Option<ClientShellLocation>,
    shown: ClientShellSnapshot<S, C>,
)
    requires
        shows_session(session, location, shown),
    ensures
        shown.panes@.len() == session.panes@.len(),
        forall|i: int|
            0 <= i < session.panes@.len() ==> {
                let told = #[trigger] shown.panes@[i];
                let own = session.panes@[i];
                &&& told.pane_id == own.pane_id
                &&& told.workspace_id == own.workspace_id
                &&& told.tab_id == own.tab_id
                &&& told.label == own.label
                &&& told.cwd == own.cwd
                &&& told.foreground_cwd == own.foreground_cwd
                &&& told.right_click_passthrough == own.right_click_passthrough
                &&& told.focused <==> shown.focused_pane_id is Some && shown.focused_pane_id->0@
                    == own.pane_id@
            },
        shown.agents@.len() == session.agents@.len(),
        forall|i: int|
            0 <= i < session.agents@.len() ==> {
                let told = #[trigger] shown.agents@[i];
                let own = session.agents@[i];
                &&& told.pane_id == own.pane_id
                &&& told.workspace_id == own.workspace_id
                &&& told.tab_id == own.tab_id
                &&& told.name == own.name
                &&& told.label == own.label
                &&& told.agent == own.agent
                &&& told.title == own.title
                &&& told.agent_status == own.agent_status
                &&& told.state_change_seq == own.state_change_seq
                &&& told.tokens@.to_multiset() == own.tokens@.to_multiset()
                &&& told.state_labels@.to_multiset() == own.state_labels@.to_multiset()
                &&& told.focused <==> shown.focused_pane_id is Some && shown.focused_pane_id->0@
                    == own.pane_id@
            },
{
    assert forall|i: int| 0 <= i < session.agents@.len() implies shows_agent(
        session.agents@[i],
        shown.focused_pane_id,
        #[trigger] shown.agents@[i],
    ) by {}
}

/// A list that is filtered is called by the filter's own label, or just filtered;
/// one that is not has no such name.
pub proof fn law_filtered_lists_are_labelled(view: AgentViewOverride)
    ensures
        view.label matches Some(label) ==> view_label(Some(view)) == Some(label@),
        view.label is None ==> view_label(Some(view)) == Some("filtered"@),
        view_label(None) is None,
{
}

/// The agent list names each of its panes that has a public id, in order.
pub proof fn law_the_agent_list_is_in_order(panes: Seq<Option<String>>, n: int)
    requires
        0 <= n < panes.len(),
    ensures
        panes[n] matches Some(pane_id) ==> ordered(panes, n + 1) == ordered(panes, n).push(pane_id),
        panes[n] is None ==> ordered(panes, n + 1) == ordered(panes, n),
        ordered(panes, 0).len() == 0,
{
}

/// The right end of the tab bar shows each part that has something to show, in
/// order: the zoom note exactly while the tab is zoomed, and every text that is
/// not empty.
pub proof fn law_the_tab_bar_shows_what_is_there(
    segments: Seq<TabBarStatusSegment>,
    zoomed: bool,
    n: int,
)
    requires
        0 <= n < segments.len(),
    ensures
        ({
            let before = segments_view(segments, zoomed, n);
            let after = segments_view(segments, zoomed, n + 1);
            &&& segments[n] is Zoom && zoomed ==> after == before.push(("ZOOM"@, true))
            &&& segments[n] is Zoom && !zoomed ==> after == before
            &&& segments[n] is Text ==> {
                let text = segments[n]->Text_0;
                &&& text is Some && text->0@.len() > 0 ==> after == before.push((text->0@, false))
                &&& text is None || text->0@.len() == 0 ==> after == before
            }
            &&& segments_view(segments, zoomed, 0).len() == 0
        }),
{
}

/// A remote mount is told by its target: as mounted with its workspace, as
/// failed with the reason, or as neither while it is dialled.
pub proof fn law_mounts_are_told_as_they_are(attempt: RemoteMountAttempt)
    ensures
        shown_attempt(attempt).target == attempt.target,
        attempt.outcome is Dialling ==> !shown_attempt(attempt).mounted && shown_attempt(
            attempt,
        ).error is None && shown_attempt(attempt).mounted_workspace_id is None,
        attempt.outcome is Mounted ==> shown_attempt(attempt).mounted && shown_attempt(
            attempt,
        ).error is None && shown_attempt(attempt).mounted_workspace_id
            == attempt.outcome->workspace_id,
        attempt.outcome is Failed ==> !shown_attempt(attempt).mounted && shown_attempt(
            attempt,
        ).error == Some(attempt.outcome->reason),
{
}

/// A divider can be grabbed along its whole length: on its own line where panes
/// have borders, on the cell before it where they have gaps, and on both where
/// they have both. Without either it cannot be grabbed.
pub proof fn law_dividers_are_grabbed_along_their_length(
    pos: u16,
    area: Rect,
    borders: bool,
    gaps: bool,
)
    requires
        area.x + area.width <= u16::MAX,
        area.y + area.height <= u16::MAX,
        0 < pos < u16::MAX,
    ensures
        ({
            let upright = grab_rect(Direction::Horizontal, pos, area, borders, gaps);
            let level = grab_rect(Direction::Vertical, pos, area, borders, gaps);
            let first = if gaps {
                pos - 1
            } else {
                pos as int
            };
            let last = if borders {
                pos as int
            } else {
                pos - 1
            };
            &&& upright is Some <==> borders || gaps
            &&& level is Some <==> borders || gaps
            &&& upright matches Some(hit) ==> hit.x == first && hit.x + hit.width == last + 1
                && hit.y == area.y && hit.height == area.height
            &&& level matches Some(hit) ==> hit.y == first && hit.y + hit.height == last + 1
                && hit.x == area.x && hit.width == area.width
        }),
{
}

/// A divider that can be grabbed is told with its own place and path; one whose
/// place belongs to panes without borders is not told.
pub proof fn law_dividers_are_told(
    splits: Seq<SplitBorder>,
    borders: bool,
    gaps: bool,
    frames: Seq<Rect>,
    n: int,
)
    requires
        0 <= n < splits.len(),
    ensures
        ({
            let before = surface_splits(splits, borders, gaps, frames, n);
            let after = surface_splits(splits, borders, gaps, frames, n + 1);
            let grab = grab_rect(splits[n].direction, splits[n].pos, splits[n].area, borders, gaps);
            let taken = !borders && exists|i: int|
                0 <= i < frames.len() && overlap(grab->0, #[trigger] frames[i]);
            &&& grab is Some && !taken ==> after.len() == before.len() + 1 && after.drop_last()
                == before && after.last().hit_rect == grab->0 && after.last().pos == splits[n].pos
                && after.last().direction == splits[n].direction && after.last().area
                == splits[n].area && after.last().path == splits[n].path
            &&& grab is None || taken ==> after == before
            &&& surface_splits(splits, borders, gaps, frames, 0).len() == 0
        }),
{
}

/// Two areas overlap exactly where they have a cell in common.
pub proof fn law_overlap_means_a_common_cell(a: Rect, b: Rect, x: int, y: int)
    requires
        a.x + a.width <= u16::MAX,
        a.y + a.height <= u16::MAX,
        b.x + b.width <= u16::MAX,
        b.y + b.height <= u16::MAX,
    ensures
        a.x <= x < a.x + a.width && b.x <= x < b.x + b.width && a.y <= y < a.y + a.height && b.y
            <= y < b.y + b.height ==> overlap(a, b),
        overlap(a, b) && a.width > 0 && a.height > 0 && b.width > 0 && b.height > 0 ==> {
            let left = if a.x < b.x {
                b.x
            } else {
                a.x
            };
            let top = if a.y < b.y {
                b.y
            } else {
                a.y
            };
            &&& a.x <= left < a.x + a.width && b.x <= left < b.x + b.width
            &&& a.y <= top < a.y + a.height && b.y <= top < b.y + b.height
        },
{
}

/// Every pane with a public id is told, in order and as it is: its place, its
/// scroll state and what its program asks for; without a program it asks for
/// nothing.
pub proof fn law_surface_panes_are_told_as_they_are(
    sources: Seq<SurfaceSource>,
    cell: HostCellSize,
    n: int,
)
    requires
        0 <= n < sources.len(),
        panes_measurable(sources, cell),
    ensures
        ({
            let before = surface_panes(sources, cell, n);
            let after = surface_panes(sources, cell, n + 1);
            let own = sources[n];
            let told = after.last();
            &&& own.pane_id is None ==> after == before
            &&& own.pane_id is Some ==> {
                &&& after.len() == before.len() + 1 && after.drop_last() == before
                &&& told.pane_id == own.pane_id->0
                &&& told.rect == own.rect
                &&& told.inner_rect == own.inner_rect
                &&& told.scrollbar_rect == own.scrollbar_rect
                &&& told.focused == own.focused
                &&& own.runtime is Some ==> {
                    let runtime = own.runtime->0;
                    &&& told.scroll == runtime.scroll
                    &&& told.mouse_reporting == runtime.mouse_reporting
                    &&& told.sgr_pixel_mouse == runtime.sgr_pixel_mouse
                    &&& told.alternate_screen_active == runtime.alternate_screen_active
                }
                &&& own.runtime is None ==> told.content_revision == 0 && told.scroll is None
                    && !told.mouse_reporting && !told.sgr_pixel_mouse
                    && !told.alternate_screen_active
                &&& cell.width_px > 0 && cell.height_px > 0 ==> told.pixel_width
                    == own.inner_rect.width * cell.width_px && told.pixel_height
                    == own.inner_rect.height * cell.height_px
                &&& cell.width_px == 0 || cell.height_px == 0 ==> told.pixel_width == 0
                    && told.pixel_height == 0
            }
            &&& surface_panes(sources, cell, 0).len() == 0
        }),
{
    let area = sources[n].inner_rect;
    if sources[n].pane_id is Some {
        assert(measurable(area, cell));
        assert(area.width * cell.width_px >= 0) by (nonlinear_arith);
        assert(area.height * cell.height_px >= 0) by (nonlinear_arith);
    }
}

/// The revision of a pane's content follows the program's own count: an odd one
/// is passed on, an even one where nothing changed while it was drawn, and the
/// next, odd one where something did.
pub proof fn law_revisions_follow_the_program(before: Option<u64>, after: u64)
    ensures
        after % 2 == 1 ==> stable_revision(before, after) == after,
        after % 2 == 0 && before == Some(after) ==> stable_revision(before, after) == after,
        after % 2 == 0 && before != Some(after) ==> stable_revision(before, after) == after + 1,
{
}

/// A popup with room and a running program is told by its own terminal, title
/// and size, filling the surface it is drawn on; any other is not told.
pub proof fn law_popups_are_told_as_they_are(
    popup: PopupSource,
    cell: HostCellSize,
    shown: Option<ClientShellPopupSurface>,
)
    requires
        shows_popup(Some(popup), cell, shown),
    ensures
        shown is Some <==> popup.inner is Some && popup.runtime is Some,
        shown is Some ==> {
            let told = shown->0;
            &&& told.terminal_id == popup.terminal_id
            &&& popup.label matches Some(label) ==> told.title@ == label@
            &&& popup.label is None ==> told.title@ == "popup"@
            &&& told.width == popup.width && told.height == popup.height
            &&& told.content.x == 0 && told.content.y == 0
            &&& told.content.width == popup.inner->0.width
            &&& told.content.height == popup.inner->0.height
            &&& told.mouse_reporting == popup.runtime->0.mouse_reporting
            &&& told.sgr_pixel_mouse == popup.runtime->0.sgr_pixel_mouse
        },
{
}

/// Updates are available where some integration is outdated.
pub proof fn law_outdated_integrations_want_updates(
    integrations: Vec<IntegrationStatusKind>,
    available: bool,
)
    requires
        call_ensures(integration_updates_available, (&integrations,), available),
    ensures
        available <==> exists|i: int|
            0 <= i < integrations@.len() && integrations@[i] is Outdated,
{
    if available {
        let i = integrations@.index_of(IntegrationStatusKind::Outdated);
        assert(integrations@[i] is Outdated);
    }
    if exists|i: int| 0 <= i < integrations@.len() && integrations@[i] is Outdated {
        let i = choose|i: int| 0 <= i < integrations@.len() && integrations@[i] is Outdated;
        assert(integrations@[i] == IntegrationStatusKind::Outdated);
    }
}

/// A popup with a runtime is resized to its inside, unless it keeps its size.
pub proof fn law_popups_follow_their_inside(
    popup: Option<PopupSource>,
    cell: HostCellSize,
    resize: Option<PopupResize>,
)
    requires
        call_ensures(resize_popup_runtime, (&popup, cell), resize),
    ensures
        resize is Some <==> popup is Some && popup->0.inner is Some && popup->0.runtime is Some
            && !popup->0.resize_locked,
        resize is Some ==> {
            let inner = popup->0.inner->0;
            &&& resize->0.rows == inner.height
            &&& resize->0.cols == inner.width
            &&& resize->0.cell == cell
        },
{
}

/// A rectangle is as many pixels wide and high as its cells are, where the size of
/// a cell is known, and none where it is not.
pub proof fn law_pixels_are_those_of_the_cells(
    area: Rect,
    cell: HostCellSize,
    size: (u32, u32),
    known: bool,
)
    ensures
        call_ensures(HostCellSize::is_known, (cell,), known) ==> (known <==> cell.width_px > 0
            && cell.height_px > 0),
        call_ensures(pixel_size, (area, cell), size) ==> {
            &&& cell.width_px > 0 && cell.height_px > 0 ==> size.0 == area.width * cell.width_px
                && size.1 == area.height * cell.height_px
            &&& cell.width_px == 0 || cell.height_px == 0 ==> size.0 == 0 && size.1 == 0
        },
{
}

/// Sorting named values keeps each of them, as often as it was there, and puts a
/// name before those that follow it.
pub proof fn law_sorted_values_are_kept(tokens: Vec<Token>, sorted: Vec<Token>)
    requires
        call_ensures(sort_tokens, (tokens,), sorted),
    ensures
        sorted@.len() == tokens@.len(),
        forall|token: Token| #[trigger] sorted@.contains(token) <==> tokens@.contains(token),
        forall|i: int, j: int|
            0 <= i < j < sorted@.len() ==> text::bytes_le(
                vstd::utf8::encode_utf8((#[trigger] sorted@[i]).key@),
                vstd::utf8::encode_utf8((#[trigger] sorted@[j]).key@),
            ),
{
    broadcast use vstd::seq_lib::group_to_multiset_ensures;

    assert(sorted@.to_multiset().len() == tokens@.to_multiset().len());
    assert forall|token: Token| #[trigger] sorted@.contains(token) <==> tokens@.contains(token) by {
        assert(sorted@.to_multiset().count(token) == tokens@.to_multiset().count(token));
    }
    assert forall|i: int, j: int| 0 <= i < j < sorted@.len() implies text::bytes_le(
        vstd::utf8::encode_utf8((#[trigger] sorted@[i]).key@),
        vstd::utf8::encode_utf8((#[trigger] sorted@[j]).key@),
    ) by {
        assert(text::text_le(sorted@[i].key@, sorted@[j].key@));
    }
}

} // verus!
