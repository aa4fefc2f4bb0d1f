//! Which notifications reach the clients, and how they read.

use vstd::prelude::*;

use crate::text;

verus! {

/// Where toasts are shown.
#[derive(Debug, Clone, Copy, PartialEq, Eq, Structural)]
pub enum ToastDelivery {
    Off,
    /// Inside the interface.
    Herdr,
    /// By the client's terminal.
    Terminal,
    /// By the client's desktop.
    System,
}

/// How a client shows a notification.
#[derive(Debug, Clone, Copy, PartialEq, Eq, Structural)]
pub enum NotifyKind {
    Sound,
    Toast,
    SystemToast,
}

/// What a toast is about.
#[derive(Debug, Clone, Copy, PartialEq, Eq, Structural)]
pub enum ToastKind {
    NeedsAttention,
    Finished,
    UpdateInstalled,
}

/// A notification inside the interface.
#[derive(Debug)]
pub struct ToastNotification {
    pub kind: ToastKind,
    pub title: String,
    pub context: String,
}

/// How a client is asked to show toasts that are delivered this way.
pub fn toast_notify_kind(delivery: ToastDelivery) -> (kind: Option<NotifyKind>)
    ensures
        kind == (match delivery {
            ToastDelivery::Terminal => Some(NotifyKind::Toast),
            ToastDelivery::System => Some(NotifyKind::SystemToast),
            ToastDelivery::Off | ToastDelivery::Herdr => None,
        }),
{
    match delivery {
        ToastDelivery::Terminal => Some(NotifyKind::Toast),
        ToastDelivery::System => Some(NotifyKind::SystemToast),
        ToastDelivery::Off | ToastDelivery::Herdr => None,
    }
}

/// Whether toasts are the clients' to show.
pub fn should_forward_toast_to_clients(delivery: ToastDelivery) -> (forwarded: bool)
    ensures
        forwarded == (delivery == ToastDelivery::Terminal || delivery == ToastDelivery::System),
{
    toast_notify_kind(delivery).is_some()
}

/// What a toast says happened.
pub open spec fn event_text(kind: ToastKind) -> Seq<char> {
    match kind {
        ToastKind::NeedsAttention => "needs attention"@,
        ToastKind::Finished => "finished"@,
        ToastKind::UpdateInstalled => "updated"@,
    }
}

pub fn toast_event_text(kind: ToastKind) -> (text: &'static str)
    ensures
        text@ == event_text(kind),
{
    match kind {
        ToastKind::NeedsAttention => "needs attention",
        ToastKind::Finished => "finished",
        ToastKind::UpdateInstalled => "updated",
    }
}

/// A pane where a tab shows it, with the agent it runs and where it stands.
#[derive(Debug)]
pub struct PaneMention {
    pub pane_id: u64,
    pub agent_label: Option<String>,
    /// Where the pane stands, in words.
    pub context: String,
}

impl PaneMention {
    pub open spec fn names(self, pane_id: u64) -> bool {
        self.pane_id == pane_id && self.agent_label is Some
    }
}

/// `agent event: context`.
pub open spec fn toast_text(agent: Seq<char>, kind: ToastKind, context: Seq<char>) -> Seq<char> {
    agent + " "@ + event_text(kind) + ": "@ + context
}

pub fn toast_line(agent: &str, kind: ToastKind, context: &str) -> (line: String)
    ensures
        line@ == toast_text(agent@, kind, context@),
{
    let mut line = agent.to_owned();
    line.append(" ");
    line.append(toast_event_text(kind));
    line.append(": ");
    line.append(context);
    line
}

/// The first tab, in order, that shows the pane with a known agent.
pub open spec fn named_mention(mentions: Seq<PaneMention>, pane_id: u64) -> Option<int>
    decreases mentions.len(),
{
    if mentions.len() == 0 {
        None
    } else if mentions[0].names(pane_id) {
        Some(0)
    } else {
        match named_mention(mentions.drop_first(), pane_id) {
            Some(i) => Some(i + 1),
            None => None,
        }
    }
}

/// What the first of two found indices says about the whole list.
pub proof fn lemma_named_mention(mentions: Seq<PaneMention>, pane_id: u64)
    ensures
        named_mention(mentions, pane_id) matches Some(i) ==> 0 <= i < mentions.len()
            && mentions[i].names(pane_id) && forall|j: int|
            0 <= j < i ==> !mentions[j].names(pane_id),
        named_mention(mentions, pane_id) is None ==> forall|j: int|
            0 <= j < mentions.len() ==> !mentions[j].names(pane_id),
    decreases mentions.len(),
{
    if mentions.len() > 0 && !mentions[0].names(pane_id) {
        let rest = mentions.drop_first();
        lemma_named_mention(rest, pane_id);
        assert forall|j: int| 0 < j < mentions.len() implies rest[j - 1] == #[trigger] mentions[j] by {}
    }
}

/// The toast about a change of a pane's state: it names the agent of the first
/// tab that shows the pane with a known agent. There is none where the change is
/// not worth a toast (`kind`), or no tab names an agent.
pub open spec fn state_change_toast(
    mentions: Seq<PaneMention>,
    pane_id: u64,
    kind: Option<ToastKind>,
) -> Option<Seq<char>> {
    match (kind, named_mention(mentions, pane_id)) {
        (Some(kind), Some(i)) => Some(
            toast_text(mentions[i].agent_label->0@, kind, mentions[i].context@),
        ),
        _ => None,
    }
}

/// The toast about a change of a pane's state, if it is worth one.
pub fn toast_message_from_state_change(
    mentions: &Vec<PaneMention>,
    pane_id: u64,
    kind: Option<ToastKind>,
) -> (message: Option<String>)
    ensures
        text::text_of(message) == state_change_toast(mentions@, pane_id, kind),
{
    let event = match kind {
        Some(event) => event,
        None => {
            return None;
        },
    };
    proof {
        lemma_named_mention(mentions@, pane_id);
    }
    let mut i: usize = 0;
    while i < mentions.len()
        invariant
            i <= mentions.len(),
            kind == Some(event),
            forall|j: int| 0 <= j < i ==> !mentions@[j].names(pane_id),
            named_mention(mentions@, pane_id) matches Some(k) ==> 0 <= k < mentions@.len()
                && mentions@[k].names(pane_id) && forall|j: int|
                0 <= j < k ==> !mentions@[j].names(pane_id),
            named_mention(mentions@, pane_id) is None ==> forall|j: int|
                0 <= j < mentions@.len() ==> !mentions@[j].names(pane_id),
        decreases mentions.len() - i,
    {
        if mentions[i].pane_id == pane_id {
            if let Some(agent) = &mentions[i].agent_label {
                let line = toast_line(agent.as_str(), event, mentions[i].context.as_str());
                assert(mentions@[i as int].names(pane_id));
                return Some(line);
            }
        }
        assert(!mentions@[i as int].names(pane_id));
        i = i + 1;
    }
    None
}

/// The toast about a change of a pane's state names the agent of the first tab
/// that shows the pane with a known agent, what happened and where. There is
/// none where the change is not worth one, or no tab names an agent.
pub proof fn law_toasts_name_the_first_agent(
    mentions: Seq<PaneMention>,
    pane_id: u64,
    kind: ToastKind,
    at: int,
)
    requires
        0 <= at < mentions.len(),
        mentions[at].pane_id == pane_id,
        mentions[at].agent_label is Some,
        forall|j: int|
            0 <= j < at ==> (#[trigger] mentions[j]).pane_id != pane_id || mentions[j].agent_label
                is None,
    ensures
        ({
            let happened = if kind is NeedsAttention {
                "needs attention"@
            } else if kind is Finished {
                "finished"@
            } else {
                "updated"@
            };
            state_change_toast(mentions, pane_id, Some(kind)) == Some(
                mentions[at].agent_label->0@ + " "@ + happened + ": "@ + mentions[at].context@,
            )
        }),
        state_change_toast(mentions, pane_id, None) is None,
{
    lemma_named_mention(mentions, pane_id);
    assert(mentions[at].names(pane_id));
    let i = named_mention(mentions, pane_id)->0;
    if i < at {
        assert(!mentions[i].names(pane_id));
    }
}

/// Without a tab that names an agent in the pane there is no toast.
pub proof fn law_nameless_panes_raise_no_toast(
    mentions: Seq<PaneMention>,
    pane_id: u64,
    kind: Option<ToastKind>,
)
    requires
        forall|j: int|
            0 <= j < mentions.len() ==> (#[trigger] mentions[j]).pane_id != pane_id
                || mentions[j].agent_label is None,
    ensures
        state_change_toast(mentions, pane_id, kind) is None,
{
    lemma_named_mention(mentions, pane_id);
    if let Some(i) = named_mention(mentions, pane_id) {
        assert(mentions[i].names(pane_id));
    }
}

/// A toast goes out as it is meant to be delivered: in the terminal or by the
/// system, and otherwise not at all.
pub proof fn law_toasts_go_where_they_belong(
    delivery: ToastDelivery,
    kind: Option<NotifyKind>,
    forwarded: bool,
)
    ensures
        call_ensures(toast_notify_kind, (delivery,), kind) ==> {
            &&& delivery is Terminal ==> kind == Some(NotifyKind::Toast)
            &&& delivery is System ==> kind == Some(NotifyKind::SystemToast)
            &&& delivery is Off || delivery is Herdr ==> kind is None
        },
        call_ensures(should_forward_toast_to_clients, (delivery,), forwarded) ==> (forwarded
            <==> delivery is Terminal || delivery is System),
{
}

/// What happened is said in a few words.
pub proof fn law_events_have_their_words(kind: ToastKind, text: &'static str)
    requires
        call_ensures(toast_event_text, (kind,), text),
    ensures
        kind is NeedsAttention ==> text@ == "needs attention"@,
        kind is Finished ==> text@ == "finished"@,
        kind is UpdateInstalled ==> text@ == "updated"@,
{
}

} // verus!
