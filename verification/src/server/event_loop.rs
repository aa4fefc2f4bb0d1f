//! The order of the server's work: what one turn of its loop does, when it
//! renders, how long it sleeps, and which scheduled tasks are due.

use vstd::prelude::*;

verus! {

/// How often an idle loop looks for new clients, in milliseconds.
pub const CLIENT_ACCEPT_POLL_INTERVAL_MS: u64 = 250;

/// What a turn of the loop starts with.
#[derive(Debug, Clone, Copy, PartialEq, Eq, Structural)]
pub enum LoopPhase {
    /// Finish the shutdown and leave the loop.
    CompleteShutdown,
    /// Begin the shutdown, then start over.
    InitiateShutdown,
    /// Work as usual.
    Work,
}

/// Decide what a turn of the loop starts with. A shutdown that began is finished
/// before anything else.
pub fn loop_phase(shutting_down: bool, session_quits: bool, signalled: bool) -> (phase: LoopPhase)
    ensures
        phase == if shutting_down {
            LoopPhase::CompleteShutdown
        } else if session_quits || signalled {
            LoopPhase::InitiateShutdown
        } else {
            LoopPhase::Work
        },
{
    if shutting_down {
        LoopPhase::CompleteShutdown
    } else if session_quits || signalled {
        LoopPhase::InitiateShutdown
    } else {
        LoopPhase::Work
    }
}

/// Requests that the session left for the loop.
#[derive(Debug, Clone, Copy, PartialEq, Eq, Structural)]
pub struct DeferredRequests {
    pub complete_onboarding: bool,
    pub new_workspace: bool,
    pub new_tab: bool,
    pub reload_config: bool,
}

/// A request that the loop carries out.
#[derive(Debug, Clone, Copy, PartialEq, Eq, Structural)]
pub enum DeferredAction {
    OpenSettingsFromOnboarding,
    CreateWorkspace,
    CreateTab,
    ReloadConfig,
}

impl DeferredAction {
    /// The place of the request in the order in which requests are carried out.
    pub open spec fn place(self) -> int {
        match self {
            DeferredAction::OpenSettingsFromOnboarding => 0,
            DeferredAction::CreateWorkspace => 1,
            DeferredAction::CreateTab => 2,
            DeferredAction::ReloadConfig => 3,
        }
    }
}

/// The place behind the last request that was carried out in a turn.
pub open spec fn place_after(done: Option<DeferredAction>) -> int {
    match done {
        Some(action) => action.place() + 1,
        None => 0,
    }
}

impl DeferredRequests {
    /// Whether a request is left.
    pub open spec fn asks(self, action: DeferredAction) -> bool {
        match action {
            DeferredAction::OpenSettingsFromOnboarding => self.complete_onboarding,
            DeferredAction::CreateWorkspace => self.new_workspace,
            DeferredAction::CreateTab => self.new_tab,
            DeferredAction::ReloadConfig => self.reload_config,
        }
    }

    /// The requests without one of them.
    pub open spec fn without(self, action: DeferredAction) -> DeferredRequests {
        match action {
            DeferredAction::OpenSettingsFromOnboarding => DeferredRequests {
                complete_onboarding: false,
                ..self
            },
            DeferredAction::CreateWorkspace => DeferredRequests { new_workspace: false, ..self },
            DeferredAction::CreateTab => DeferredRequests { new_tab: false, ..self },
            DeferredAction::ReloadConfig => DeferredRequests { reload_config: false, ..self },
        }
    }

    /// Take the next request of a turn, after the last one that was carried out in
    /// it. What a request leaves for a later place is still carried out in the same
    /// turn. Each request that is taken asks for a render.
    pub fn take_after(&mut self, done: Option<DeferredAction>) -> (next: Option<DeferredAction>)
        ensures
            match next {
                Some(action) => {
                    &&& old(self).asks(action)
                    &&& action.place() >= place_after(done)
                    &&& forall|other: DeferredAction|
                        place_after(done) <= other.place() < action.place()
                            ==> !#[trigger] old(self).asks(other)
                    &&& *final(self) == old(self).without(action)
                },
                None => {
                    &&& forall|other: DeferredAction|
                        other.place() >= place_after(done) ==> !#[trigger] old(self).asks(other)
                    &&& *final(self) == *old(self)
                },
            },
    {
        let place: u8 = match done {
            None => 0,
            Some(DeferredAction::OpenSettingsFromOnboarding) => 1,
            Some(DeferredAction::CreateWorkspace) => 2,
            Some(DeferredAction::CreateTab) => 3,
            Some(DeferredAction::ReloadConfig) => 4,
        };
        if place <= 0 && self.complete_onboarding {
            self.complete_onboarding = false;
            return Some(DeferredAction::OpenSettingsFromOnboarding);
        }
        if place <= 1 && self.new_workspace {
            self.new_workspace = false;
            return Some(DeferredAction::CreateWorkspace);
        }
        if place <= 2 && self.new_tab {
            self.new_tab = false;
            return Some(DeferredAction::CreateTab);
        }
        if place <= 3 && self.reload_config {
            self.reload_config = false;
            return Some(DeferredAction::ReloadConfig);
        }
        None
    }
}

/// When to wake up again: at the session's own deadline, but soon enough to
/// notice new clients.
pub fn next_deadline(session_deadline_ms: Option<u64>, now_ms: u64) -> (deadline_ms: u64)
    requires
        now_ms + CLIENT_ACCEPT_POLL_INTERVAL_MS <= u64::MAX,
    ensures
        deadline_ms <= now_ms + CLIENT_ACCEPT_POLL_INTERVAL_MS,
        match session_deadline_ms {
            Some(deadline) => deadline_ms == if deadline < now_ms + CLIENT_ACCEPT_POLL_INTERVAL_MS {
                deadline as int
            } else {
                now_ms + CLIENT_ACCEPT_POLL_INTERVAL_MS
            },
            None => deadline_ms == now_ms + CLIENT_ACCEPT_POLL_INTERVAL_MS,
        },
{
    let poll: u64 = now_ms + CLIENT_ACCEPT_POLL_INTERVAL_MS;
    match session_deadline_ms {
        Some(deadline) => {
            if deadline < poll {
                deadline
            } else {
                poll
            }
        },
        None => poll,
    }
}

/// What came of the loop's sleep, or of other work.
#[derive(Debug, Clone, Copy, PartialEq, Eq, Structural)]
pub enum LoopEvent {
    /// Time passed, or a channel closed.
    Timer,
    /// Events of the session, requests or events of clients were handled; tells
    /// whether they ask for a render.
    Handled { render: bool },
    /// A pane has new output; tells whether the screen is dirty.
    RenderRequested { dirty: bool },
}

impl LoopEvent {
    /// Whether the screen has to be rendered after it.
    pub open spec fn renders(self) -> bool {
        self == (LoopEvent::Handled { render: true }) || self == (LoopEvent::RenderRequested {
            dirty: true,
        })
    }
}

/// Whether a render is wanted after an event.
pub fn render_wanted(needs_render: bool, event: LoopEvent) -> (wanted: bool)
    ensures
        wanted == (needs_render || event.renders()),
{
    needs_render || match event {
        LoopEvent::Timer => false,
        LoopEvent::Handled { render } => render,
        LoopEvent::RenderRequested { dirty } => dirty,
    }
}

/// A part of a turn's work.
#[derive(Debug, Clone, Copy, PartialEq, Eq, Structural)]
pub enum Work {
    /// Handle the events of the session that wait.
    InternalEvents,
    /// Handle the requests that wait.
    ApiRequests,
    /// Bring the session's focus events and its save schedule up to date.
    SyncSession,
    /// Accept the clients that wait.
    AcceptClients,
    /// Handle the events of clients that wait.
    ServerEvents,
    /// Do the scheduled tasks that are due.
    ScheduledTasks,
    /// Carry out what the session left for the loop.
    DeferredRequests,
    /// Pass a changed sound configuration on to the clients.
    ClientSounds,
    /// Set the animation's timer.
    AnimationTimer,
}

impl Work {
    /// How many parts of the turn's work come after this one.
    pub open spec fn parts_after(self) -> nat {
        match self {
            Work::InternalEvents => 8,
            Work::ApiRequests => 7,
            Work::SyncSession => 6,
            Work::AcceptClients => 5,
            Work::ServerEvents => 4,
            Work::ScheduledTasks => 3,
            Work::DeferredRequests => 2,
            Work::ClientSounds => 1,
            Work::AnimationTimer => 0,
        }
    }

    /// The part that comes next; none after the last.
    pub fn following(self) -> (next: Option<Work>)
        ensures
            next is Some <==> self.parts_after() > 0,
            next matches Some(next) ==> next.parts_after() == self.parts_after() - 1,
    {
        match self {
            Work::InternalEvents => Some(Work::ApiRequests),
            Work::ApiRequests => Some(Work::SyncSession),
            Work::SyncSession => Some(Work::AcceptClients),
            Work::AcceptClients => Some(Work::ServerEvents),
            Work::ServerEvents => Some(Work::ScheduledTasks),
            Work::ScheduledTasks => Some(Work::DeferredRequests),
            Work::DeferredRequests => Some(Work::ClientSounds),
            Work::ClientSounds => Some(Work::AnimationTimer),
            Work::AnimationTimer => None,
        }
    }
}

/// What the loop does.
#[derive(Debug, Clone, Copy, PartialEq, Eq, Structural)]
pub enum LoopAction {
    /// Begin the shutdown.
    InitiateShutdown,
    /// Finish the shutdown.
    CompleteShutdown,
    Work(Work),
    /// Render and send the clients their screens.
    RenderAndStream,
    /// Sleep until something happens or the deadline is over.
    Wait,
    /// Leave the loop: save the session and end.
    Leave,
}

/// What the loop meets once it did something.
#[derive(Debug, Clone, Copy, PartialEq, Eq, Structural)]
pub struct LoopFacts {
    pub shutting_down: bool,
    pub session_quits: bool,
    pub signalled: bool,
    /// Whether panes have output that is not on screen yet.
    pub dirty: bool,
    /// What came of the last action.
    pub outcome: LoopEvent,
    /// Whether the last render is long enough ago.
    pub can_render_now: bool,
}

/// Where the loop stands: what it did last, and whether a render is wanted.
#[derive(Debug, Clone, Copy, PartialEq, Eq, Structural)]
pub struct LoopState {
    pub last: LoopAction,
    pub needs_render: bool,
}

impl LoopState {
    /// Where a turn begins: shutdown first, or else the first part of the work,
    /// with a render for what panes wrote.
    pub open spec fn turned(needs_render: bool, facts: LoopFacts) -> LoopState {
        if facts.shutting_down {
            LoopState { last: LoopAction::CompleteShutdown, needs_render }
        } else if facts.session_quits || facts.signalled {
            LoopState { last: LoopAction::InitiateShutdown, needs_render }
        } else {
            LoopState {
                last: LoopAction::Work(Work::InternalEvents),
                needs_render: needs_render || facts.dirty,
            }
        }
    }

    /// Where the loop stands next: the parts of the work follow one another, then
    /// the screen is rendered where that is wanted and may be, and else the loop
    /// sleeps. Either ends the turn.
    pub open spec fn stepped(self, facts: LoopFacts, next: LoopState) -> bool {
        let wanted = self.needs_render || facts.outcome.renders();
        match self.last {
            LoopAction::CompleteShutdown | LoopAction::Leave => next == (LoopState {
                last: LoopAction::Leave,
                needs_render: self.needs_render,
            }),
            LoopAction::InitiateShutdown | LoopAction::RenderAndStream => next
                == LoopState::turned(self.needs_render, facts),
            LoopAction::Wait => next == LoopState::turned(wanted, facts),
            LoopAction::Work(work) => if work.parts_after() > 0 {
                &&& next.last matches LoopAction::Work(part)
                &&& part.parts_after() == work.parts_after() - 1
                &&& next.needs_render == wanted
            } else if wanted && facts.can_render_now {
                next == (LoopState { last: LoopAction::RenderAndStream, needs_render: false })
            } else {
                next == (LoopState { last: LoopAction::Wait, needs_render: wanted })
            },
        }
    }

    /// Where the loop begins: with a render that is wanted.
    pub fn new() -> (state: LoopState)
        ensures
            state == (LoopState { last: LoopAction::RenderAndStream, needs_render: true }),
    {
        LoopState { last: LoopAction::RenderAndStream, needs_render: true }
    }

    fn turn(&mut self, facts: &LoopFacts)
        ensures
            *final(self) == LoopState::turned(old(self).needs_render, *facts),
    {
        match loop_phase(facts.shutting_down, facts.session_quits, facts.signalled) {
            LoopPhase::CompleteShutdown => {
                self.last = LoopAction::CompleteShutdown;
            },
            LoopPhase::InitiateShutdown => {
                self.last = LoopAction::InitiateShutdown;
            },
            LoopPhase::Work => {
                self.last = LoopAction::Work(Work::InternalEvents);
                self.needs_render = self.needs_render || facts.dirty;
            },
        }
    }

    /// Decide what to do next.
    pub fn step(&mut self, facts: &LoopFacts) -> (action: LoopAction)
        ensures
            action == final(self).last,
            old(self).stepped(*facts, *final(self)),
    {
        match self.last {
            LoopAction::CompleteShutdown | LoopAction::Leave => {
                self.last = LoopAction::Leave;
            },
            LoopAction::InitiateShutdown | LoopAction::RenderAndStream => {
                self.turn(facts);
            },
            LoopAction::Wait => {
                self.needs_render = render_wanted(self.needs_render, facts.outcome);
                self.turn(facts);
            },
            LoopAction::Work(work) => {
                self.needs_render = render_wanted(self.needs_render, facts.outcome);
                match work.following() {
                    Some(part) => {
                        self.last = LoopAction::Work(part);
                    },
                    None => {
                        if self.needs_render && facts.can_render_now {
                            self.last = LoopAction::RenderAndStream;
                            self.needs_render = false;
                        } else {
                            self.last = LoopAction::Wait;
                        }
                    },
                }
            },
        }
        self.last
    }
}

/// A render that is wanted stays wanted until the screen is rendered.
pub proof fn law_wanted_renders_are_not_lost(state: LoopState, facts: LoopFacts, next: LoopState)
    requires
        state.stepped(facts, next),
        state.needs_render,
    ensures
        next.needs_render || next.last == LoopAction::RenderAndStream,
{
}

/// A turn works through each part once, in order, before the loop renders or
/// sleeps: a part leads to the one with fewer parts after it, and the last part to
/// one of the two.
pub proof fn law_turns_come_to_an_end(state: LoopState, facts: LoopFacts, next: LoopState)
    requires
        state.stepped(facts, next),
        state.last is Work,
    ensures
        match next.last {
            LoopAction::Work(part) => part.parts_after() + 1 == state.last->Work_0.parts_after(),
            LoopAction::RenderAndStream => state.last->Work_0.parts_after() == 0
                && facts.can_render_now,
            LoopAction::Wait => state.last->Work_0.parts_after() == 0,
            _ => false,
        },
{
}

/// Once the server shuts down, a turn that begins finishes the shutdown, and the
/// loop is left after it.
pub proof fn law_shutdown_leaves_the_loop(
    state: LoopState,
    facts: LoopFacts,
    next: LoopState,
    later: LoopFacts,
    end: LoopState,
)
    requires
        state.stepped(facts, next),
        next.stepped(later, end),
        facts.shutting_down,
        state.last is Wait || state.last is RenderAndStream || state.last is InitiateShutdown,
    ensures
        next.last == LoopAction::CompleteShutdown,
        end.last == LoopAction::Leave,
{
}

/// The session's deadlines, in milliseconds.
#[derive(Debug, Clone, Copy, PartialEq, Eq, Structural)]
pub struct Deadlines {
    pub config_diagnostic: Option<u64>,
    pub toast: Option<u64>,
    pub animation: Option<u64>,
    pub git_refresh: Option<u64>,
    pub auto_update: Option<u64>,
    pub session_save: Option<u64>,
}

/// A task whose time has come.
#[derive(Debug, Clone, Copy, PartialEq, Eq, Structural)]
pub enum ScheduledTask {
    /// Take the configuration warning down.
    ClearConfigDiagnostic,
    /// Take the toast down.
    ClearToast,
    /// Advance the animation.
    AdvanceAnimation,
    /// Look at the upstream state of every workspace.
    RefreshGitStatus,
    /// Look for an update.
    CheckForUpdate,
    /// Save the session.
    SaveSession,
}

impl ScheduledTask {
    /// Whether the task changes what is on screen.
    pub open spec fn is_visible(self) -> bool {
        !(self is CheckForUpdate) && !(self is SaveSession)
    }
}

pub open spec fn is_due(deadline: Option<u64>, now: u64) -> bool {
    deadline matches Some(deadline) && now >= deadline
}

fn due(deadline: Option<u64>, now: u64) -> (due: bool)
    ensures
        due == is_due(deadline, now),
{
    match deadline {
        Some(deadline) => now >= deadline,
        None => false,
    }
}

impl Deadlines {
    /// The tasks that are due, in the order in which they are done.
    pub open spec fn tasks(self, now: u64) -> Seq<ScheduledTask> {
        (if is_due(self.config_diagnostic, now) {
            seq![ScheduledTask::ClearConfigDiagnostic]
        } else {
            seq![]
        }) + (if is_due(self.toast, now) {
            seq![ScheduledTask::ClearToast]
        } else {
            seq![]
        }) + (if is_due(self.animation, now) {
            seq![ScheduledTask::AdvanceAnimation]
        } else {
            seq![]
        }) + (if is_due(self.git_refresh, now) {
            seq![ScheduledTask::RefreshGitStatus]
        } else {
            seq![]
        }) + (if is_due(self.auto_update, now) {
            seq![ScheduledTask::CheckForUpdate]
        } else {
            seq![]
        }) + (if is_due(self.session_save, now) {
            seq![ScheduledTask::SaveSession]
        } else {
            seq![]
        })
    }
}

/// What the scheduled tasks of a turn come to.
#[derive(Debug)]
pub struct ScheduledWork {
    pub tasks: Vec<ScheduledTask>,
    /// Whether any of them changes what is on screen.
    pub changed: bool,
}

/// Collect the tasks that are due. A warning and a toast are over with their
/// deadline; the animation goes on at its interval, by `step` ticks.
pub fn handle_scheduled_tasks_headless(
    deadlines: &mut Deadlines,
    spinner_tick: &mut u32,
    now_ms: u64,
    animation_step: u32,
    animation_interval_ms: u64,
) -> (work: ScheduledWork)
    requires
        now_ms + animation_interval_ms <= u64::MAX,
    ensures
        work.tasks@ == old(deadlines).tasks(now_ms),
        work.changed == exists|i: int|
            0 <= i < work.tasks@.len() && (#[trigger] work.tasks@[i]).is_visible(),
        *final(deadlines) == (Deadlines {
            config_diagnostic: if is_due(old(deadlines).config_diagnostic, now_ms) {
                None
            } else {
                old(deadlines).config_diagnostic
            },
            toast: if is_due(old(deadlines).toast, now_ms) {
                None
            } else {
                old(deadlines).toast
            },
            animation: if is_due(old(deadlines).animation, now_ms) {
                Some((now_ms + animation_interval_ms) as u64)
            } else {
                old(deadlines).animation
            },
            ..*old(deadlines)
        }),
        *final(spinner_tick) == if is_due(old(deadlines).animation, now_ms) {
            vstd::wrapping::u32_specs::wrapping_add(*old(spinner_tick), animation_step)
        } else {
            *old(spinner_tick)
        },
{
    let mut tasks: Vec<ScheduledTask> = Vec::new();
    let mut changed = false;
    if due(deadlines.config_diagnostic, now_ms) {
        deadlines.config_diagnostic = None;
        tasks.push(ScheduledTask::ClearConfigDiagnostic);
        changed = true;
    }
    if due(deadlines.toast, now_ms) {
        deadlines.toast = None;
        tasks.push(ScheduledTask::ClearToast);
        changed = true;
    }
    if due(deadlines.animation, now_ms) {
        *spinner_tick = spinner_tick.wrapping_add(animation_step);
        deadlines.animation = Some(now_ms + animation_interval_ms);
        tasks.push(ScheduledTask::AdvanceAnimation);
        changed = true;
    }
    if due(deadlines.git_refresh, now_ms) {
        tasks.push(ScheduledTask::RefreshGitStatus);
        changed = true;
    }
    proof {
        if changed {
            assert(tasks@[0].is_visible());
        }
    }
    if due(deadlines.auto_update, now_ms) {
        tasks.push(ScheduledTask::CheckForUpdate);
    }
    if due(deadlines.session_save, now_ms) {
        tasks.push(ScheduledTask::SaveSession);
    }
    proof {
        assert(tasks@ =~= old(deadlines).tasks(now_ms));
        if changed {
            assert(tasks@[0].is_visible());
        }
    }
    ScheduledWork { tasks, changed }
}

/// A render that is wanted and may be done is done at the end of the turn's
/// work, and is not wanted any more then. Otherwise the loop sleeps, and a
/// render that is still wanted stays so.
pub proof fn law_a_turn_ends_with_its_render(state: LoopState, facts: LoopFacts, next: LoopState)
    requires
        state.stepped(facts, next),
        state.last == LoopAction::Work(Work::AnimationTimer),
    ensures
        ({
            let asked = facts.outcome == (LoopEvent::Handled { render: true }) || facts.outcome == (
            LoopEvent::RenderRequested { dirty: true });
            let wanted = state.needs_render || asked;
            &&& wanted && facts.can_render_now ==> next.last == LoopAction::RenderAndStream
                && !next.needs_render
            &&& !(wanted && facts.can_render_now) ==> next.last == LoopAction::Wait
                && next.needs_render == wanted
        }),
{
}

/// The work of a turn follows one order, and what a part of it brought counts
/// for the render.
pub proof fn law_the_work_follows_its_order(state: LoopState, facts: LoopFacts, next: LoopState)
    requires
        state.stepped(facts, next),
        state.last is Work,
        state.last != LoopAction::Work(Work::AnimationTimer),
    ensures
        next.last == LoopAction::Work(
            match state.last->Work_0 {
                Work::InternalEvents => Work::ApiRequests,
                Work::ApiRequests => Work::SyncSession,
                Work::SyncSession => Work::AcceptClients,
                Work::AcceptClients => Work::ServerEvents,
                Work::ServerEvents => Work::ScheduledTasks,
                Work::ScheduledTasks => Work::DeferredRequests,
                Work::DeferredRequests => Work::ClientSounds,
                Work::ClientSounds => Work::AnimationTimer,
                Work::AnimationTimer => Work::AnimationTimer,
            },
        ),
        next.needs_render == (state.needs_render || facts.outcome == (LoopEvent::Handled {
            render: true,
        }) || facts.outcome == (LoopEvent::RenderRequested { dirty: true })),
{
}

/// A turn begins after a sleep or a render: with the shutdown where one is under
/// way or asked for, and else with the first part of the work; then what panes
/// wrote asks for a render.
pub proof fn law_a_turn_begins_with_shutdown_or_work(
    state: LoopState,
    facts: LoopFacts,
    next: LoopState,
)
    requires
        state.stepped(facts, next),
        state.last is Wait || state.last is RenderAndStream || state.last is InitiateShutdown,
    ensures
        facts.shutting_down ==> next.last is CompleteShutdown,
        !facts.shutting_down && (facts.session_quits || facts.signalled) ==> next.last
            is InitiateShutdown,
        !facts.shutting_down && !facts.session_quits && !facts.signalled ==> next.last
            == LoopAction::Work(Work::InternalEvents) && (facts.dirty ==> next.needs_render),
        !facts.shutting_down && !facts.session_quits && !facts.signalled && !facts.dirty
            && !state.needs_render && !(state.last is Wait) ==> !next.needs_render,
{
}

/// Each kind of request is one of its own: taking one leaves the others, and
/// they are taken in the order onboarding, workspace, tab, configuration.
pub proof fn law_requests_are_taken_one_by_one(requests: DeferredRequests, action: DeferredAction)
    ensures
        requests.asks(DeferredAction::OpenSettingsFromOnboarding) == requests.complete_onboarding,
        requests.asks(DeferredAction::CreateWorkspace) == requests.new_workspace,
        requests.asks(DeferredAction::CreateTab) == requests.new_tab,
        requests.asks(DeferredAction::ReloadConfig) == requests.reload_config,
        !requests.without(action).asks(action),
        forall|other: DeferredAction|
            other != action ==> #[trigger] requests.without(action).asks(other) == requests.asks(
                other,
            ),
        DeferredAction::OpenSettingsFromOnboarding.place()
            < DeferredAction::CreateWorkspace.place() < DeferredAction::CreateTab.place()
            < DeferredAction::ReloadConfig.place(),
        place_after(Some(action)) == action.place() + 1,
        place_after(None) <= DeferredAction::OpenSettingsFromOnboarding.place(),
{
}

impl ScheduledTask {
    /// When a task is due, as the deadlines tell.
    pub open spec fn deadline(self, deadlines: Deadlines) -> Option<u64> {
        match self {
            ScheduledTask::ClearConfigDiagnostic => deadlines.config_diagnostic,
            ScheduledTask::ClearToast => deadlines.toast,
            ScheduledTask::AdvanceAnimation => deadlines.animation,
            ScheduledTask::RefreshGitStatus => deadlines.git_refresh,
            ScheduledTask::CheckForUpdate => deadlines.auto_update,
            ScheduledTask::SaveSession => deadlines.session_save,
        }
    }
}

/// The tasks with one more behind them, where that is due.
spec fn with_due(tasks: Seq<ScheduledTask>, due: bool, task: ScheduledTask) -> Seq<ScheduledTask> {
    tasks + if due {
        seq![task]
    } else {
        seq![]
    }
}

proof fn lemma_with_due(
    tasks: Seq<ScheduledTask>,
    due: bool,
    last: ScheduledTask,
    task: ScheduledTask,
)
    requires
        tasks.no_duplicates(),
        !tasks.contains(last),
    ensures
        with_due(tasks, due, last).contains(task) <==> tasks.contains(task) || due && task == last,
        with_due(tasks, due, last).no_duplicates(),
{
    let all = with_due(tasks, due, last);
    if tasks.contains(task) {
        let i = choose|i: int| 0 <= i < tasks.len() && tasks[i] == task;
        assert(all[i] == task);
    }
    if due {
        assert(all[tasks.len() as int] == last);
    }
    if all.contains(task) {
        let i = choose|i: int| 0 <= i < all.len() && all[i] == task;
        if i < tasks.len() {
            assert(tasks[i] == task);
        }
    }
    assert forall|i: int, j: int| 0 <= i < all.len() && 0 <= j < all.len() && i != j implies all[i]
        != all[j] by {
        if i < tasks.len() && j < tasks.len() {
            assert(tasks[i] != tasks[j]);
        } else if i < tasks.len() {
            assert(tasks.contains(tasks[i]));
        } else {
            assert(tasks.contains(tasks[j]));
        }
    }
}

/// A task is done exactly where its deadline has come, and once.
pub proof fn law_due_tasks_are_done_once(deadlines: Deadlines, now: u64, task: ScheduledTask)
    ensures
        deadlines.tasks(now).contains(task) <==> (task.deadline(deadlines) matches Some(deadline)
            && deadline <= now),
        deadlines.tasks(now).no_duplicates(),
{
    let none = Seq::<ScheduledTask>::empty();
    let due = |task: ScheduledTask| is_due(task.deadline(deadlines), now);
    let t0 = ScheduledTask::ClearConfigDiagnostic;
    let t1 = ScheduledTask::ClearToast;
    let t2 = ScheduledTask::AdvanceAnimation;
    let t3 = ScheduledTask::RefreshGitStatus;
    let t4 = ScheduledTask::CheckForUpdate;
    let t5 = ScheduledTask::SaveSession;
    let s0 = with_due(none, due(t0), t0);
    let s1 = with_due(s0, due(t1), t1);
    let s2 = with_due(s1, due(t2), t2);
    let s3 = with_due(s2, due(t3), t3);
    let s4 = with_due(s3, due(t4), t4);
    let s5 = with_due(s4, due(t5), t5);
    assert(deadlines.tasks(now) =~= s5);
    assert forall|t: ScheduledTask| #[trigger] s0.contains(t) <==> due(t) && t == t0 by {
        lemma_with_due(none, due(t0), t0, t);
    }
    lemma_with_due(none, due(t0), t0, t0);
    assert forall|t: ScheduledTask| #[trigger] s1.contains(t) <==> due(t) && (t == t0 || t == t1) by {
        lemma_with_due(s0, due(t1), t1, t);
    }
    lemma_with_due(s0, due(t1), t1, t1);
    assert forall|t: ScheduledTask| #[trigger]
        s2.contains(t) <==> due(t) && (t == t0 || t == t1 || t == t2) by {
        lemma_with_due(s1, due(t2), t2, t);
    }
    lemma_with_due(s1, due(t2), t2, t2);
    assert forall|t: ScheduledTask| #[trigger]
        s3.contains(t) <==> due(t) && (t == t0 || t == t1 || t == t2 || t == t3) by {
        lemma_with_due(s2, due(t3), t3, t);
    }
    lemma_with_due(s2, due(t3), t3, t3);
    assert forall|t: ScheduledTask| #[trigger]
        s4.contains(t) <==> due(t) && (t == t0 || t == t1 || t == t2 || t == t3 || t == t4) by {
        lemma_with_due(s3, due(t4), t4, t);
    }
    lemma_with_due(s3, due(t4), t4, t4);
    lemma_with_due(s4, due(t5), t5, task);
}

/// What a task does is on screen, but for looking for an update and saving.
pub proof fn law_visible_tasks(task: ScheduledTask)
    ensures
        task is ClearConfigDiagnostic || task is ClearToast || task is AdvanceAnimation || task
            is RefreshGitStatus ==> task.is_visible(),
        task is CheckForUpdate || task is SaveSession ==> !task.is_visible(),
{
}

/// The loop sleeps until the session's own deadline, but never longer than a
/// quarter of a second.
pub proof fn law_sleeps_are_short(
    session_deadline_ms: Option<u64>,
    now_ms: u64,
    deadline_ms: u64,
)
    requires
        now_ms + 250 <= u64::MAX,
        call_ensures(next_deadline, (session_deadline_ms, now_ms), deadline_ms),
    ensures
        deadline_ms <= now_ms + 250,
        session_deadline_ms matches Some(deadline) ==> deadline_ms <= deadline,
        deadline_ms == now_ms + 250 || session_deadline_ms == Some(deadline_ms),
{
}

/// A server that is shutting down completes that first; one that was told to quit,
/// by its session or by a signal, begins to; any other works.
pub proof fn law_quitting_comes_before_work(
    shutting_down: bool,
    session_quits: bool,
    signalled: bool,
    phase: LoopPhase,
)
    requires
        call_ensures(loop_phase, (shutting_down, session_quits, signalled), phase),
    ensures
        shutting_down ==> phase is CompleteShutdown,
        !shutting_down && session_quits ==> phase is InitiateShutdown,
        !shutting_down && signalled ==> phase is InitiateShutdown,
        !shutting_down && !session_quits && !signalled ==> phase is Work,
{
}

/// A wish to render stays until it is met, and an event adds one where it changed
/// something that is shown.
pub proof fn law_changes_are_rendered(needs_render: bool, event: LoopEvent, wanted: bool)
    requires
        call_ensures(render_wanted, (needs_render, event), wanted),
    ensures
        needs_render ==> wanted,
        !needs_render && event is Timer ==> !wanted,
        !needs_render && event is Handled ==> wanted == event->render,
        !needs_render && event is RenderRequested ==> wanted == event->dirty,
{
}

/// Nobody sleeps past the deadline of the session, nor for longer than new clients
/// may wait.
pub proof fn law_nobody_sleeps_past_a_deadline(
    session_deadline_ms: Option<u64>,
    now_ms: u64,
    deadline_ms: u64,
)
    requires
        call_ensures(next_deadline, (session_deadline_ms, now_ms), deadline_ms),
        now_ms + CLIENT_ACCEPT_POLL_INTERVAL_MS <= u64::MAX,
    ensures
        deadline_ms <= now_ms + CLIENT_ACCEPT_POLL_INTERVAL_MS,
        session_deadline_ms is Some ==> deadline_ms <= session_deadline_ms->0,
        session_deadline_ms is None ==> deadline_ms == now_ms + CLIENT_ACCEPT_POLL_INTERVAL_MS,
        session_deadline_ms is Some ==> deadline_ms == session_deadline_ms->0 || deadline_ms
            == now_ms + CLIENT_ACCEPT_POLL_INTERVAL_MS,
{
}

/// A notice and a toast that are due are taken down, the animation goes on from
/// now, and the spinner turns with it; what is not due stays.
pub proof fn law_due_notices_are_taken_down(
    deadlines: &mut Deadlines,
    spinner_tick: &mut u32,
    now_ms: u64,
    animation_step: u32,
    animation_interval_ms: u64,
    work: ScheduledWork,
)
    requires
        now_ms + animation_interval_ms <= u64::MAX,
        call_ensures(
            handle_scheduled_tasks_headless,
            (deadlines, spinner_tick, now_ms, animation_step, animation_interval_ms),
            work,
        ),
    ensures
        old(deadlines).toast is Some && old(deadlines).toast->0 <= now_ms ==> final(deadlines).toast
            is None,
        old(deadlines).toast is Some && old(deadlines).toast->0 > now_ms ==> final(deadlines).toast
            == old(deadlines).toast,
        old(deadlines).config_diagnostic is Some && old(deadlines).config_diagnostic->0 <= now_ms
            ==> final(deadlines).config_diagnostic is None,
        old(deadlines).config_diagnostic is Some && old(deadlines).config_diagnostic->0 > now_ms
            ==> final(deadlines).config_diagnostic == old(deadlines).config_diagnostic,
        old(deadlines).animation is Some && old(deadlines).animation->0 <= now_ms ==> {
            &&& final(deadlines).animation == Some((now_ms + animation_interval_ms) as u64)
            &&& *old(spinner_tick) + animation_step <= u32::MAX ==> *final(spinner_tick) == *old(
                spinner_tick,
            ) + animation_step
        },
        old(deadlines).animation is Some && old(deadlines).animation->0 > now_ms ==> final(deadlines).animation == old(deadlines).animation && *final(spinner_tick) == *old(spinner_tick),
        old(deadlines).animation is None ==> final(deadlines).animation is None && *final(spinner_tick) == *old(spinner_tick),
{
}

} // verus!
