//! One client's session: what passes between the client and the target.
//!
//! Each turn takes an event, and says what is to be done before the next one.
use sqlparser::ast::Statement;
use vstd::prelude::*;

use crate::config::{connection_settings, PostgresConfig};
use crate::handshake::{text_view, Handshake, Phase};
use crate::message::{FrontendMessage, FrontendView};
use crate::query::{parsed_sql, rewrite_query, rewrites_all_of, rewritten};
use crate::tables::TableInfo;

verus! {

/// What a turn begins with.
#[derive(Debug)]
pub enum RelayEvent {
    /// There is a new policy; `None` where no more can come.
    PolicyChanged { policy: Option<Vec<u8>> },
    /// The target sent bytes, none at its end; `None` where reading failed.
    TargetRead { bytes: Option<Vec<u8>> },
    /// The client sent a message; `None` where reading failed.
    ClientMessage { message: Option<FrontendMessage> },
    /// What was to be sent was sent, or was not.
    Sent { done: bool },
}

/// What is to be done before the next turn.
#[derive(Debug)]
pub enum RelayAction {
    /// Nothing.
    Wait,
    /// Evaluate with `policy` from now on.
    LoadPolicy { policy: Vec<u8> },
    /// Send `bytes` to the client.
    SendToClient { bytes: Vec<u8> },
    /// Send `message` to the target.
    SendToTarget { message: FrontendMessage },
    /// End the session.
    Stop,
}

/// What an event says.
pub enum RelayEventView {
    PolicyChanged { policy: Option<Seq<u8>> },
    TargetRead { bytes: Option<Seq<u8>> },
    ClientMessage { message: Option<FrontendView> },
    Sent { done: bool },
}

/// What an action says.
pub enum RelayActionView {
    Wait,
    LoadPolicy { policy: Seq<u8> },
    SendToClient { bytes: Seq<u8> },
    SendToTarget { message: FrontendView },
    Stop,
}

/// The bytes that `bytes` hold, if they hold any.
pub open spec fn bytes_view(bytes: Option<Vec<u8>>) -> Option<Seq<u8>> {
    match bytes {
        Some(b) => Some(b@),
        None => None,
    }
}

impl View for RelayEvent {
    type V = RelayEventView;

    open spec fn view(&self) -> RelayEventView {
        match self {
            RelayEvent::PolicyChanged { policy } => RelayEventView::PolicyChanged {
                policy: bytes_view(*policy),
            },
            RelayEvent::TargetRead { bytes } => RelayEventView::TargetRead {
                bytes: bytes_view(*bytes),
            },
            RelayEvent::ClientMessage { message } => RelayEventView::ClientMessage {
                message: match message {
                    Some(m) => Some(m@),
                    None => None,
                },
            },
            RelayEvent::Sent { done } => RelayEventView::Sent { done: *done },
        }
    }
}

impl View for RelayAction {
    type V = RelayActionView;

    open spec fn view(&self) -> RelayActionView {
        match self {
            RelayAction::Wait => RelayActionView::Wait,
            RelayAction::LoadPolicy { policy } => RelayActionView::LoadPolicy { policy: policy@ },
            RelayAction::SendToClient { bytes } => RelayActionView::SendToClient { bytes: bytes@ },
            RelayAction::SendToTarget { message } => RelayActionView::SendToTarget {
                message: message@,
            },
            RelayAction::Stop => RelayActionView::Stop,
        }
    }
}

/// The policy in force after `event`.
pub open spec fn policy_after_event(policy: Seq<u8>, event: RelayEventView) -> Seq<u8> {
    match event {
        RelayEventView::PolicyChanged { policy: Some(changed) } => changed,
        _ => policy,
    }
}

/// Whether `action` answers `event`, where `allowed` is what the policy says of
/// the client's message, if there is one. Of a message that is allowed this
/// says where it goes; `handled` says what becomes of it.
pub open spec fn answers(event: RelayEventView, allowed: bool, action: RelayActionView) -> bool {
    match event {
        RelayEventView::PolicyChanged { policy: Some(policy) } => action == (
        RelayActionView::LoadPolicy { policy }),
        RelayEventView::PolicyChanged { policy: None } => action is Wait,
        RelayEventView::TargetRead { bytes: Some(bytes) } => if bytes.len() == 0 {
            action is Stop
        } else {
            action == (RelayActionView::SendToClient { bytes })
        },
        RelayEventView::TargetRead { bytes: None } => action is Stop,
        RelayEventView::ClientMessage { message: Some(_) } => if allowed {
            action is SendToTarget
        } else {
            action is Wait
        },
        RelayEventView::ClientMessage { message: None } => action is Stop,
        RelayEventView::Sent { done } => if done {
            action is Wait
        } else {
            action is Stop
        },
    }
}

/// Whether `verdict` is what `allows` may say of `message`, sent by a client of
/// `groups`, under `policy`.
pub open spec fn judged<G>(
    message: FrontendView,
    policy: Seq<u8>,
    groups: &Vec<String>,
    allows: G,
    verdict: bool,
) -> bool where G: FnOnce(&FrontendMessage, &Vec<u8>, &Vec<String>) -> bool {
    exists|given: FrontendMessage, in_force: Vec<u8>|
        given@ == message && in_force@ == policy && #[trigger] call_ensures(
            allows,
            (&given, &in_force, groups),
            verdict,
        )
}

/// Whether `allowed` is what `allows` may say of the message that `event`
/// brings, if it brings one.
pub open spec fn judged_event<G>(
    event: RelayEventView,
    policy: Seq<u8>,
    groups: &Vec<String>,
    allows: G,
    allowed: bool,
) -> bool where G: FnOnce(&FrontendMessage, &Vec<u8>, &Vec<String>) -> bool {
    event matches RelayEventView::ClientMessage { message: Some(message) } ==> judged(
        message,
        policy,
        groups,
        allows,
        allowed,
    )
}

/// Whether `after`, with `result`, is what the proxy makes of the client's
/// message `before`: a query as it is rewritten, and anything else as it was.
pub open spec fn handled<F, E>(
    before: FrontendView,
    after: FrontendView,
    tables: &TableInfo,
    rewrite: F,
    result: Result<(), E>,
) -> bool where F: FnOnce(Vec<Statement>, &TableInfo) -> Result<Vec<Statement>, E> {
    match before {
        FrontendView::Query { query_string } => after is Query && rewritten(
            query_string,
            parsed_sql(query_string),
            tables,
            rewrite,
            after->query_string,
            result,
        ),
        _ => after == before && result is Ok,
    }
}

/// Whether `rewrite` takes the statements of `message`, if it is a query that has
/// any, and returns none that cannot be written.
pub open spec fn rewrites_message<F, E>(
    message: FrontendView,
    tables: &TableInfo,
    rewrite: F,
) -> bool where F: FnOnce(Vec<Statement>, &TableInfo) -> Result<Vec<Statement>, E> {
    message matches FrontendView::Query { query_string } ==> rewrites_all_of(
        parsed_sql(query_string),
        tables,
        rewrite,
    )
}

/// Whether `outcome` is what a turn makes of `event`, where `allowed` is what
/// the policy says of the client's message, if there is one: the answer, with
/// the message as it is handled, or the error that its rewriting met.
pub open spec fn relays<F, E>(
    event: RelayEventView,
    allowed: bool,
    tables: &TableInfo,
    rewrite: F,
    outcome: Result<RelayActionView, E>,
) -> bool where F: FnOnce(Vec<Statement>, &TableInfo) -> Result<Vec<Statement>, E> {
    match outcome {
        Ok(action) => {
            &&& answers(event, allowed, action)
            &&& action matches RelayActionView::SendToTarget { message } ==> handled(
                event->message->0,
                message,
                tables,
                rewrite,
                Ok::<(), E>(()),
            )
        },
        Err(error) => {
            &&& allowed
            &&& event matches RelayEventView::ClientMessage { message: Some(before) }
            &&& handled(before, before, tables, rewrite, Err::<(), E>(error))
        },
    }
}

/// What an action says, if there is one.
pub open spec fn action_view<E>(action: Result<RelayAction, E>) -> Result<RelayActionView, E> {
    match action {
        Ok(a) => Ok(a@),
        Err(error) => Err(error),
    }
}

/// A session between a client and the target.
#[derive(Debug)]
pub struct ProtocolHandler {
    /// The policy in force, as it was distributed.
    pub policy: Vec<u8>,
    /// The groups that the client belongs to.
    pub groups: Vec<String>,
    /// The settings of the target.
    pub config: PostgresConfig,
    /// The database that the client is connected to.
    pub connected_db: String,
}

impl ProtocolHandler {
    /// The session that `handshake` has opened for a client of `groups`, under
    /// `policy`.
    pub fn initialize(handshake: Handshake, policy: Vec<u8>, groups: Vec<String>) -> (handler:
        ProtocolHandler)
        requires
            handshake@.phase == Phase::Established,
        ensures
            handler.policy == policy,
            handler.groups == groups,
            Some(handler.connected_db@) == handshake@.database,
            text_view(handler.config.target_addr) == Some(handshake@.addr),
            text_view(handler.config.target_username) == handshake@.username,
            text_view(handler.config.target_password) == handshake@.password,
            handler.config.target_username is Some,
    {
        let (config, connected_db) = handshake.into_session();
        ProtocolHandler { policy, groups, config, connected_db }
    }

    /// The settings with which the proxy asks for the tables of the client's
    /// database.
    pub fn connection_string(&self) -> (settings: String)
        requires
            self.config.target_username is Some,
            self.config.target_password is Some,
        ensures
            settings@ == connection_settings(
                self.config.target_username->0@,
                self.connected_db@,
                self.config.target_password->0@,
            ),
    {
        self.config.connection_string(&self.connected_db)
    }

    /// Rewrites the client's message where it is a query.
    pub fn handle_frontend_message<F, E>(
        &self,
        msg: &mut FrontendMessage,
        tables: &TableInfo,
        rewrite: F,
    ) -> (result: Result<(), E>) where
        F: FnOnce(Vec<Statement>, &TableInfo) -> Result<Vec<Statement>, E>,

        requires
            rewrites_message(old(msg)@, tables, rewrite),
        ensures
            handled(old(msg)@, final(msg)@, tables, rewrite, result),
    {
        match msg {
            FrontendMessage::Query { query_string } => rewrite_query(query_string, tables, rewrite),
            _ => Ok(()),
        }
    }

    /// Takes one turn: says what is to be done about `event`. A client's message
    /// goes on to the target only where `allows` says so, which is asked about
    /// the message as it came, the policy in force and the client's groups.
    pub fn serve<F, G, E>(
        &mut self,
        event: RelayEvent,
        tables: &TableInfo,
        allows: G,
        rewrite: F,
    ) -> (action: Result<RelayAction, E>) where
        F: FnOnce(Vec<Statement>, &TableInfo) -> Result<Vec<Statement>, E>,
        G: FnOnce(&FrontendMessage, &Vec<u8>, &Vec<String>) -> bool,

        requires
            event matches RelayEvent::ClientMessage { message: Some(message) } ==> {
                &&& call_requires(allows, (&message, &old(self).policy, &old(self).groups))
                &&& judged(message@, old(self).policy@, &old(self).groups, allows, true)
                    ==> rewrites_message(message@, tables, rewrite)
            },
        ensures
            final(self).policy@ == policy_after_event(old(self).policy@, event@),
            final(self).groups == old(self).groups,
            final(self).config == old(self).config,
            final(self).connected_db == old(self).connected_db,
            exists|allowed: bool| #[trigger]
                judged_event(event@, old(self).policy@, &old(self).groups, allows, allowed)
                    && relays(event@, allowed, tables, rewrite, action_view(action)),
            event matches RelayEvent::ClientMessage { message: Some(message) } ==> exists|
                allowed: bool,
            | #[trigger]
                call_ensures(
                    allows,
                    (&message, &old(self).policy, &old(self).groups),
                    allowed,
                ) && (allowed <==> !(action matches Ok(RelayAction::Wait))),
    {
        assert(!(event@ is ClientMessage && event@->message is Some) ==> judged_event(
            event@,
            self.policy@,
            &self.groups,
            allows,
            true,
        ));
        match event {
            RelayEvent::PolicyChanged { policy } => match policy {
                Some(policy) => {
                    self.policy = policy.clone();
                    Ok(RelayAction::LoadPolicy { policy })
                },
                None => Ok(RelayAction::Wait),
            },
            RelayEvent::TargetRead { bytes } => match bytes {
                Some(bytes) => {
                    if bytes.len() == 0 {
                        Ok(RelayAction::Stop)
                    } else {
                        Ok(RelayAction::SendToClient { bytes })
                    }
                },
                None => Ok(RelayAction::Stop),
            },
            RelayEvent::ClientMessage { message } => match message {
                Some(message) => {
                    let allowed = allows(&message, &self.policy, &self.groups);
                    assert(judged(message@, self.policy@, &self.groups, allows, allowed));
                    assert(judged_event(event@, self.policy@, &self.groups, allows, allowed));
                    if !allowed {
                        return Ok(RelayAction::Wait);
                    }
                    let ghost before = message@;
                    let mut msg = message;
                    let result: Result<(), E> = self.handle_frontend_message(
                        &mut msg,
                        tables,
                        rewrite,
                    );
                    match result {
                        Ok(_) => Ok(RelayAction::SendToTarget { message: msg }),
                        Err(error) => {
                            assert(msg@ == before);
                            Err(error)
                        },
                    }
                },
                None => Ok(RelayAction::Stop),
            },
            RelayEvent::Sent { done } => if done {
                Ok(RelayAction::Wait)
            } else {
                Ok(RelayAction::Stop)
            },
        }
    }
}

} // verus!
