//! How the proxy keeps up with the policies that are distributed to it.
//!
//! Each action is to be carried out, and the event that came of it handed to
//! the next step. There is no last one.
use vstd::prelude::*;

verus! {

/// What came of an action.
#[derive(Debug)]
pub enum PolicyEvent {
    /// The stream of policies gave a policy, or had none.
    Received { policy: Option<Vec<u8>> },
    /// The stream of policies failed.
    ReceiveFailed,
    /// There is a new stream of policies, or there is none.
    Reopened { done: bool },
    /// The sessions were told of a policy, or could not be.
    Broadcast { done: bool },
}

/// What is to be done next.
#[derive(Debug)]
pub enum PolicyAction {
    /// Wait for the stream of policies.
    Receive,
    /// Ask for a new stream of policies.
    Reopen,
    /// Tell the sessions of `policy`.
    Broadcast { policy: Vec<u8> },
}

/// What an event says.
pub enum PolicyEventView {
    Received { policy: Option<Seq<u8>> },
    ReceiveFailed,
    Reopened { done: bool },
    Broadcast { done: bool },
}

/// What an action says.
pub enum PolicyActionView {
    Receive,
    Reopen,
    Broadcast { policy: Seq<u8> },
}

impl View for PolicyEvent {
    type V = PolicyEventView;

    open spec fn view(&self) -> PolicyEventView {
        match self {
            PolicyEvent::Received { policy } => PolicyEventView::Received {
                policy: match policy {
                    Some(p) => Some(p@),
                    None => None,
                },
            },
            PolicyEvent::ReceiveFailed => PolicyEventView::ReceiveFailed,
            PolicyEvent::Reopened { done } => PolicyEventView::Reopened { done: *done },
            PolicyEvent::Broadcast { done } => PolicyEventView::Broadcast { done: *done },
        }
    }
}

impl View for PolicyAction {
    type V = PolicyActionView;

    open spec fn view(&self) -> PolicyActionView {
        match self {
            PolicyAction::Receive => PolicyActionView::Receive,
            PolicyAction::Reopen => PolicyActionView::Reopen,
            PolicyAction::Broadcast { policy } => PolicyActionView::Broadcast { policy: policy@ },
        }
    }
}

/// What follows `event`.
pub open spec fn next_action(event: PolicyEventView) -> PolicyActionView {
    match event {
        PolicyEventView::Received { policy: Some(policy) } => PolicyActionView::Broadcast {
            policy,
        },
        PolicyEventView::Received { policy: None } => PolicyActionView::Receive,
        PolicyEventView::ReceiveFailed => PolicyActionView::Reopen,
        PolicyEventView::Reopened { done } => if done {
            PolicyActionView::Receive
        } else {
            PolicyActionView::Reopen
        },
        PolicyEventView::Broadcast { .. } => PolicyActionView::Receive,
    }
}

/// Says what is to be done after `event`.
pub fn watch_policies(event: PolicyEvent) -> (action: PolicyAction)
    ensures
        action@ == next_action(event@),
{
    match event {
        PolicyEvent::Received { policy } => match policy {
            Some(policy) => PolicyAction::Broadcast { policy },
            None => PolicyAction::Receive,
        },
        PolicyEvent::ReceiveFailed => PolicyAction::Reopen,
        PolicyEvent::Reopened { done } => if done {
            PolicyAction::Receive
        } else {
            PolicyAction::Reopen
        },
        PolicyEvent::Broadcast { .. } => PolicyAction::Receive,
    }
}

/// Whether `event` can come of `action`.
pub open spec fn comes_of(action: PolicyActionView, event: PolicyEventView) -> bool {
    match action {
        PolicyActionView::Receive => event is Received || event is ReceiveFailed,
        PolicyActionView::Reopen => event is Reopened,
        PolicyActionView::Broadcast { .. } => event is Broadcast,
    }
}

/// The policies that were received, in their order.
pub open spec fn received(events: Seq<PolicyEventView>) -> Seq<Seq<u8>>
    decreases events.len(),
{
    if events.len() == 0 {
        Seq::empty()
    } else {
        match events.last() {
            PolicyEventView::Received { policy: Some(policy) } => received(
                events.drop_last(),
            ).push(policy),
            _ => received(events.drop_last()),
        }
    }
}

/// The policies that the sessions were to be told of after `events`, in their
/// order.
pub open spec fn told(events: Seq<PolicyEventView>) -> Seq<Seq<u8>>
    decreases events.len(),
{
    if events.len() == 0 {
        Seq::empty()
    } else {
        match next_action(events.last()) {
            PolicyActionView::Broadcast { policy } => told(events.drop_last()).push(policy),
            _ => told(events.drop_last()),
        }
    }
}

/// The sessions are told of every policy that is received, in order, and of
/// nothing else.
pub proof fn lemma_every_policy_told(events: Seq<PolicyEventView>)
    ensures
        told(events) == received(events),
    decreases events.len(),
{
    if events.len() > 0 {
        lemma_every_policy_told(events.drop_last());
    }
}

/// When the stream fails, the proxy asks for a new one until it has one, and
/// waits for no policy before that.
pub proof fn lemma_reopens_until_done(events: Seq<PolicyEventView>, i: int, j: int)
    requires
        0 <= i < j < events.len(),
        forall|k: int|
            0 <= k < events.len() - 1 ==> comes_of(
                next_action(#[trigger] events[k]),
                events[k + 1],
            ),
        events[i] is ReceiveFailed,
        forall|k: int| i < k < j ==> #[trigger] events[k] != (PolicyEventView::Reopened {
            done: true,
        }),
    ensures
        events[j] is Reopened,
    decreases j - i,
{
    if i == j - 1 {
        assert(comes_of(next_action(events[i]), events[i + 1]));
    } else {
        lemma_reopens_until_done(events, i, j - 1);
        assert(events[j - 1] != (PolicyEventView::Reopened { done: true }));
        assert(comes_of(next_action(events[j - 1]), events[j - 1 + 1]));
    }
}

/// An event and an action are seen as they are, with the whole policy.
pub proof fn lemma_policy_views(event: PolicyEvent, action: PolicyAction)
    ensures
        event matches PolicyEvent::Received { policy: Some(policy) } ==> event@ == (
        PolicyEventView::Received { policy: Some(policy@) }),
        event matches PolicyEvent::Received { policy: None } ==> event@ == (
        PolicyEventView::Received { policy: None }),
        event@ is ReceiveFailed <==> event is ReceiveFailed,
        event matches PolicyEvent::Reopened { done } ==> event@ == (PolicyEventView::Reopened {
            done,
        }),
        event matches PolicyEvent::Broadcast { done } ==> event@ == (PolicyEventView::Broadcast {
            done,
        }),
        action@ is Receive <==> action is Receive,
        action@ is Reopen <==> action is Reopen,
        action matches PolicyAction::Broadcast { policy } ==> action@ == (
        PolicyActionView::Broadcast { policy: policy@ }),
{
}

/// A stream that is there is waited for: once it was reopened, once it gave
/// nothing, and once the sessions were told, or could not be.
pub proof fn lemma_goes_on_waiting(event: PolicyEventView)
    ensures
        next_action(event) is Receive <==> match event {
            PolicyEventView::Received { policy } => policy is None,
            PolicyEventView::ReceiveFailed => false,
            PolicyEventView::Reopened { done } => done,
            PolicyEventView::Broadcast { .. } => true,
        },
{
}

} // verus!
