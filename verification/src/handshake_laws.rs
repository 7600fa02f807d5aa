//! What holds of every handshake, whatever the target does.
use vstd::prelude::*;

use crate::auth::md5_password_text;
use crate::handshake::{
    text_view, Action, ActionView, Event, EventView, HandshakeError, HandshakeView, Phase,
};
use crate::message::{BackendView, FrontendView, ACCEPT_SSL_ENCRYPTION};
use crate::params::{distinct_keys, lookup};

verus! {

/// The handshake that began as `start`, after `events`.
pub open spec fn after(start: HandshakeView, events: Seq<EventView>) -> HandshakeView
    decreases events.len(),
{
    if events.len() == 0 {
        start
    } else {
        after(start, events.drop_last()).next(events.last()).0
    }
}

/// Whether the event at `i` can come of the action that the events before it
/// lead to.
pub open spec fn possible_at(start: HandshakeView, events: Seq<EventView>, i: int) -> bool {
    after(start, events.take(i)).accepts(events[i])
}

/// Whether `events` can come one after the other of the actions that they lead
/// to.
pub open spec fn possible(start: HandshakeView, events: Seq<EventView>) -> bool {
    forall|i: int| 0 <= i < events.len() ==> #[trigger] possible_at(start, events, i)
}

/// The action that follows the event at `i`.
pub open spec fn action_at(start: HandshakeView, events: Seq<EventView>, i: int) -> ActionView {
    after(start, events.take(i)).next(events[i]).1
}

/// How far a phase lies from the beginning.
spec fn rank(phase: Phase) -> int {
    match phase {
        Phase::Connecting => 0,
        Phase::RequestingSsl => 1,
        Phase::AwaitingSslReply => 2,
        Phase::Upgrading => 3,
        Phase::Reconnecting => 3,
        Phase::StartingUp => 4,
        Phase::Authenticating => 5,
        Phase::SendingPassword => 5,
        Phase::NotifyingClient => 6,
        Phase::Established => 7,
        Phase::Failed => 8,
    }
}

proof fn lemma_after_next(start: HandshakeView, events: Seq<EventView>, i: int)
    requires
        0 <= i < events.len(),
    ensures
        after(start, events.take(i + 1)) == after(start, events.take(i)).next(events[i]).0,
{
    assert(events.take(i + 1).drop_last() =~= events.take(i));
}

/// A handshake never goes back.
proof fn lemma_rank_grows(start: HandshakeView, events: Seq<EventView>, i: int, j: int)
    requires
        possible(start, events),
        0 <= i <= j <= events.len(),
    ensures
        rank(after(start, events.take(i)).phase) <= rank(after(start, events.take(j)).phase),
    decreases j - i,
{
    if i < j {
        lemma_rank_grows(start, events, i, j - 1);
        lemma_after_next(start, events, j - 1);
        assert(possible_at(start, events, j - 1));
    }
}

/// What the proxy knows of the target and of the client does not change during
/// a handshake.
pub proof fn lemma_settings_kept(start: HandshakeView, events: Seq<EventView>)
    ensures
        after(start, events) == start.at(after(start, events).phase),
    decreases events.len(),
{
    if events.len() > 0 {
        lemma_settings_kept(start, events.drop_last());
    }
}

/// TLS is asked for at most once.
pub proof fn lemma_ssl_requested_once(start: HandshakeView, events: Seq<EventView>, i: int, j: int)
    requires
        possible(start, events),
        0 <= i < j < events.len(),
        action_at(start, events, i) == (ActionView::Send { message: FrontendView::SslRequest }),
    ensures
        action_at(start, events, j) != (ActionView::Send { message: FrontendView::SslRequest }),
{
    lemma_after_next(start, events, i);
    lemma_rank_grows(start, events, i + 1, j);
    assert(possible_at(start, events, i));
    assert(possible_at(start, events, j));
}

/// Where the target refuses TLS, the proxy connects anew, goes on without it
/// and does not ask again.
pub proof fn lemma_no_tls_after_refusal(
    start: HandshakeView,
    events: Seq<EventView>,
    i: int,
    j: int,
)
    requires
        possible(start, events),
        0 <= i < j < events.len(),
        events[i] is SslReply,
        events[i]->answer != ACCEPT_SSL_ENCRYPTION,
    ensures
        action_at(start, events, i) == (ActionView::Connect { addr: start.addr }),
        action_at(start, events, j) !is Upgrade,
        action_at(start, events, j) != (ActionView::Send { message: FrontendView::SslRequest }),
{
    lemma_settings_kept(start, events.take(i));
    lemma_after_next(start, events, i);
    lemma_rank_grows(start, events, i + 1, j);
    assert(possible_at(start, events, i));
    assert(possible_at(start, events, j));
}

/// Where the target agrees to TLS, the startup message is sent only once the
/// connection is secured.
pub proof fn lemma_startup_after_upgrade(
    start: HandshakeView,
    events: Seq<EventView>,
    i: int,
    j: int,
)
    requires
        possible(start, events),
        0 <= i < j < events.len(),
        events[i] is SslReply,
        events[i]->answer == ACCEPT_SSL_ENCRYPTION,
        action_at(start, events, j) matches ActionView::Send { message } && message is Startup,
    ensures
        action_at(start, events, i) is Upgrade,
        j == i + 1,
        events[j] is Upgraded,
{
    lemma_after_next(start, events, i);
    lemma_after_next(start, events, i + 1);
    assert(possible_at(start, events, i));
    assert(possible_at(start, events, i + 1));
    assert(possible_at(start, events, j));
    if j > i + 1 {
        lemma_rank_grows(start, events, i + 2, j);
    }
}

/// A connection that is secured, from the beginning or by an upgrade, is kept:
/// the startup message is sent over it at once, and it is neither asked for TLS,
/// nor secured again, nor replaced by another.
pub proof fn lemma_secured_connection_kept(
    start: HandshakeView,
    events: Seq<EventView>,
    i: int,
    j: int,
)
    requires
        possible(start, events),
        0 <= i <= j < events.len(),
        events[i] == (EventView::Connected { secured: true }) || events[i] is Upgraded,
    ensures
        action_at(start, events, i) == (ActionView::Send { message: start.startup() }),
        action_at(start, events, j) != (ActionView::Send { message: FrontendView::SslRequest }),
        action_at(start, events, j) !is ReadSslReply,
        action_at(start, events, j) !is Upgrade,
        action_at(start, events, j) !is Connect,
{
    lemma_settings_kept(start, events.take(i));
    lemma_after_next(start, events, i);
    assert(possible_at(start, events, i));
    assert(possible_at(start, events, j));
    if i < j {
        lemma_rank_grows(start, events, i + 1, j);
    }
}

/// To upgrade a secured connection changes nothing: a handshake goes on from a
/// connection that is secured already as it does from one that was just
/// upgraded.
pub proof fn lemma_upgrade_changes_nothing_secured(handshake: HandshakeView)
    ensures
        handshake.at(Phase::Connecting).next(EventView::Connected { secured: true })
            == handshake.at(Phase::Upgrading).next(EventView::Upgraded),
        handshake.at(Phase::Connecting).accepts(EventView::Connected { secured: true })
            == handshake.at(Phase::Upgrading).accepts(EventView::Upgraded),
{
}

/// A session is opened at most once, with the client's database and the
/// proxy's own user.
pub proof fn lemma_startup_sent_once(start: HandshakeView, events: Seq<EventView>, i: int, j: int)
    requires
        possible(start, events),
        0 <= i < j < events.len(),
        action_at(start, events, i) matches ActionView::Send { message } && message is Startup,
    ensures
        action_at(start, events, i) == (ActionView::Send { message: start.startup() }),
        !(action_at(start, events, j) matches ActionView::Send { message } && message is Startup),
{
    lemma_settings_kept(start, events.take(i));
    lemma_after_next(start, events, i);
    lemma_rank_grows(start, events, i + 1, j);
    assert(possible_at(start, events, i));
    assert(possible_at(start, events, j));
}

/// A handshake has come past the startup message only by sending it.
proof fn lemma_startup_before(start: HandshakeView, events: Seq<EventView>) -> (i: int)
    requires
        possible(start, events),
        start.phase == Phase::Connecting,
        after(start, events).started(),
    ensures
        0 <= i < events.len(),
        action_at(start, events, i) == (ActionView::Send { message: start.startup() }),
    decreases events.len(),
{
    let earlier = events.drop_last();
    let last = events.len() - 1;
    assert(earlier =~= events.take(last));
    assert(possible_at(start, events, last));
    if after(start, earlier).started() {
        assert forall|k: int| 0 <= k < earlier.len() implies #[trigger] possible_at(
            start,
            earlier,
            k,
        ) by {
            assert(earlier.take(k) =~= events.take(k));
            assert(possible_at(start, events, k));
        }
        let i = lemma_startup_before(start, earlier);
        assert(earlier.take(i) =~= events.take(i));
        i
    } else {
        lemma_settings_kept(start, earlier);
        last
    }
}

/// A password goes to the target only when the target has asked for one, in the
/// form that it has asked for, and after the session's startup message.
pub proof fn lemma_password_only_on_request(
    start: HandshakeView,
    events: Seq<EventView>,
    j: int,
    password: Seq<char>,
)
    requires
        possible(start, events),
        start.phase == Phase::Connecting,
        0 <= j < events.len(),
        action_at(start, events, j) == (ActionView::Send {
            message: FrontendView::PasswordMessage { password },
        }),
    ensures
        events[j] is Received,
        match events[j]->message {
            BackendView::AuthenticationMD5Password { salt } => password == md5_password_text(
                start.username->0,
                start.password->0,
                salt,
            ),
            BackendView::AuthenticationCleartextPassword => Some(password) == start.password,
            _ => false,
        },
        exists|i: int|
            0 <= i < j && #[trigger] action_at(start, events, i) == (ActionView::Send {
                message: start.startup(),
            }),
{
    let earlier = events.take(j);
    lemma_settings_kept(start, earlier);
    assert(possible_at(start, events, j));
    assert forall|k: int| 0 <= k < earlier.len() implies #[trigger] possible_at(
        start,
        earlier,
        k,
    ) by {
        assert(earlier.take(k) =~= events.take(k));
        assert(possible_at(start, events, k));
    }
    let i = lemma_startup_before(start, earlier);
    assert(earlier.take(i) =~= events.take(i));
    assert(action_at(start, events, i) == action_at(start, earlier, i));
}

/// The client hears that it is authenticated only when the target has just
/// said so of the proxy.
pub proof fn lemma_client_told_what_target_said(
    start: HandshakeView,
    events: Seq<EventView>,
    i: int,
)
    requires
        possible(start, events),
        0 <= i < events.len(),
        action_at(start, events, i) is Notify,
    ensures
        events[i] == (EventView::Received { message: BackendView::AuthenticationOk }),
        action_at(start, events, i) == (ActionView::Notify { reply: BackendView::AuthenticationOk }),
{
    assert(possible_at(start, events, i));
}

/// A session is open only when the target has authenticated the proxy, and the
/// client has been told.
pub proof fn lemma_open_session_is_authenticated(start: HandshakeView, events: Seq<EventView>)
    requires
        possible(start, events),
        start.phase == Phase::Connecting,
        after(start, events).phase == Phase::Established,
    ensures
        events.len() >= 2,
        events[events.len() - 2] == (EventView::Received {
            message: BackendView::AuthenticationOk,
        }),
        action_at(start, events, events.len() - 2) == (ActionView::Notify {
            reply: BackendView::AuthenticationOk,
        }),
        events.last() == EventView::Sent,
{
    let last = events.len() - 1;
    assert(events.drop_last() =~= events.take(last));
    assert(possible_at(start, events, last));
    if last > 0 {
        lemma_after_next(start, events, last - 1);
        assert(possible_at(start, events, last - 1));
    }
}

/// Nothing follows an open session or a failure.
pub proof fn lemma_end_is_final(handshake: HandshakeView, event: EventView)
    requires
        handshake.phase == Phase::Established || handshake.phase == Phase::Failed,
    ensures
        !handshake.accepts(event),
{
}

/// A message of the target that has no place in a handshake ends it.
pub proof fn lemma_unexpected_message_fails(handshake: HandshakeView, tag: u8, body: Seq<u8>)
    requires
        handshake.phase == Phase::Authenticating,
    ensures
        handshake.accepts(EventView::Received { message: BackendView::Other { tag, body } }),
        handshake.next(
            EventView::Received { message: BackendView::Other { tag, body } },
        ).0.phase == Phase::Failed,
{
}

/// The startup message gives the target exactly the database that the client
/// names and the proxy's own user, with two settings of the proxy's, and nothing
/// else.
pub proof fn lemma_startup_names_database_and_user(handshake: HandshakeView, key: Seq<char>)
    requires
        handshake.can_start_up(),
    ensures
        ({
            let params = handshake.startup()->params;
            &&& handshake.startup() is Startup
            &&& handshake.startup()->version == 0x3_0000
            &&& params.len() == 4
            &&& distinct_keys(params)
            &&& lookup(params, "database"@) == handshake.database
            &&& lookup(params, "user"@) == handshake.username
            &&& lookup(params, "client_encoding"@) == Some("UTF8"@)
            &&& lookup(params, "application_name"@) == Some("inspektor"@)
            &&& lookup(params, key) is Some ==> key == "database"@ || key == "user"@ || key
                == "client_encoding"@ || key == "application_name"@
        }),
{
    reveal_strlit("database");
    reveal_strlit("user");
    reveal_strlit("client_encoding");
    reveal_strlit("application_name");
    assert("database"@.len() == 8);
    assert("user"@.len() == 4);
    assert("client_encoding"@.len() == 15);
    assert("application_name"@.len() == 16);
    let params = handshake.startup()->params;
    assert(params[0].0 == "database"@);
    assert(params[1].0 == "user"@);
    assert(params[2].0 == "client_encoding"@);
    assert(params[3].0 == "application_name"@);
}

/// The text of a setting is seen whole.
pub proof fn lemma_setting_seen_whole(setting: Option<String>)
    ensures
        setting matches Some(text) ==> text_view(setting) == Some(text@),
        setting is None ==> text_view(setting) is None,
{
}

/// What happens, and what is to be done, is seen as it is.
pub proof fn lemma_handshake_views(event: Event, action: Action)
    ensures
        event matches Event::Connected { secured } ==> event@ == (EventView::Connected { secured }),
        event@ is Sent <==> event is Sent,
        event matches Event::SslReply { answer } ==> event@ == (EventView::SslReply { answer }),
        event@ is Upgraded <==> event is Upgraded,
        event matches Event::Received { message } ==> event@ == (EventView::Received {
            message: message@,
        }),
        event@ is Failed <==> event is Failed,
        action matches Action::Connect { addr } ==> action@ == (ActionView::Connect { addr: addr@ }),
        action matches Action::Send { message } ==> action@ == (ActionView::Send {
            message: message@,
        }),
        action@ is ReadSslReply <==> action is ReadSslReply,
        action@ is Upgrade <==> action is Upgrade,
        action@ is Receive <==> action is Receive,
        action matches Action::Notify { reply } ==> action@ == (ActionView::Notify {
            reply: reply@,
        }),
        action@ is Open <==> action is Open,
        action matches Action::Fail { error } ==> action@ == (ActionView::Fail { error }),
{
}

/// Whether `event` can come of carrying out `action`.
pub open spec fn comes_of(action: ActionView, event: EventView) -> bool {
    match action {
        ActionView::Connect { .. } => event is Connected || event is Failed,
        ActionView::Send { .. } => event is Sent || event is Failed,
        ActionView::ReadSslReply => event is SslReply || event is Failed,
        ActionView::Upgrade => event is Upgraded || event is Failed,
        ActionView::Receive => event is Received || event is Failed,
        ActionView::Notify { .. } => event is Sent || event is Failed,
        ActionView::Open => false,
        ActionView::Fail { .. } => false,
    }
}

/// Whatever comes of the last action is accepted, where the settings are there
/// that it calls for: a user and a database once there is a connection, and a
/// password once the target asks for one.
pub proof fn lemma_what_comes_is_accepted(
    handshake: HandshakeView,
    event: EventView,
    following: EventView,
)
    requires
        handshake.accepts(event),
        comes_of(handshake.next(event).1, following),
        following is Connected || following is Upgraded ==> handshake.username is Some
            && handshake.database is Some,
        following matches EventView::Received { message } ==> message is AuthenticationOk
            || message is Other || handshake.password is Some,
    ensures
        handshake.next(event).0.accepts(following),
{
}

/// The first connection is accepted, secured or not, and so is a failure to
/// connect, which ends the handshake. What has no place then is not.
pub proof fn lemma_beginning_accepted(handshake: HandshakeView, event: EventView)
    requires
        handshake.phase == Phase::Connecting,
    ensures
        event == (EventView::Connected { secured: false }) ==> handshake.accepts(event),
        event == (EventView::Connected { secured: true }) ==> (handshake.accepts(event)
            <==> handshake.username is Some && handshake.database is Some),
        event is Failed ==> handshake.accepts(event),
        !(event is Connected || event is Failed) ==> !handshake.accepts(event),
        event is Failed ==> handshake.next(event) == (
            handshake.at(Phase::Failed),
            ActionView::Fail { error: HandshakeError::Connect },
        ),
{
}

/// Over a connection that is not secured the proxy asks for TLS first. Where the
/// target answers `S` it secures the connection, and else it makes a new one to
/// the same address.
pub proof fn lemma_tls_is_tried(start: HandshakeView, answer: u8)
    requires
        start.phase == Phase::Connecting,
    ensures
        ({
            let requesting = start.next(EventView::Connected { secured: false });
            let awaiting = requesting.0.next(EventView::Sent);
            let answered = awaiting.0.next(EventView::SslReply { answer });
            &&& requesting.1 == (ActionView::Send { message: FrontendView::SslRequest })
            &&& awaiting.1 is ReadSslReply
            &&& answer == 'S' as u8 ==> answered.1 is Upgrade
            &&& answer != 'S' as u8 ==> answered.1 == (ActionView::Connect { addr: start.addr })
            &&& awaiting.0.accepts(EventView::SslReply { answer })
        }),
{
}

/// Once there is a connection to go on with, the startup message is sent, and
/// then the target is listened to.
pub proof fn lemma_startup_follows(handshake: HandshakeView, event: EventView)
    requires
        handshake.accepts(event),
        event is Upgraded || event == (EventView::Connected { secured: true }) || (event
            is Connected && handshake.phase == Phase::Reconnecting),
    ensures
        handshake.next(event).1 == (ActionView::Send { message: handshake.startup() }),
        handshake.next(event).0.next(EventView::Sent).1 is Receive,
        handshake.next(event).0.next(EventView::Sent).0 == handshake.at(Phase::Authenticating),
{
}

/// A request for a password is answered with the whole password, as it is or
/// hashed with the target's salt, and then the target is listened to again.
pub proof fn lemma_request_answered(handshake: HandshakeView, salt: Seq<u8>)
    requires
        handshake.phase == Phase::Authenticating,
        handshake.username is Some,
        handshake.password is Some,
    ensures
        ({
            let clear = handshake.next(
                EventView::Received { message: BackendView::AuthenticationCleartextPassword },
            );
            let hashed = handshake.next(
                EventView::Received { message: BackendView::AuthenticationMD5Password { salt } },
            );
            &&& clear.1 == (ActionView::Send {
                message: FrontendView::PasswordMessage { password: handshake.password->0 },
            })
            &&& hashed.1 == (ActionView::Send {
                message: FrontendView::PasswordMessage {
                    password: md5_password_text(
                        handshake.username->0,
                        handshake.password->0,
                        salt,
                    ),
                },
            })
            &&& clear.0.next(EventView::Sent) == (handshake, ActionView::Receive)
            &&& hashed.0.next(EventView::Sent) == (handshake, ActionView::Receive)
        }),
{
}

/// When the target has authenticated the proxy, the client is told, and then the
/// session is open.
pub proof fn lemma_authentication_opens_session(handshake: HandshakeView)
    requires
        handshake.phase == Phase::Authenticating,
    ensures
        ({
            let told = handshake.next(
                EventView::Received { message: BackendView::AuthenticationOk },
            );
            let open = told.0.next(EventView::Sent);
            &&& handshake.accepts(EventView::Received { message: BackendView::AuthenticationOk })
            &&& told.1 == (ActionView::Notify { reply: BackendView::AuthenticationOk })
            &&& told.0.accepts(EventView::Sent)
            &&& open.1 is Open
            &&& open.0 == handshake.at(Phase::Established)
        }),
{
}

/// A failure ends the handshake, whatever failed, with an error that says which
/// action it was.
pub proof fn lemma_failure_ends(handshake: HandshakeView, event: EventView)
    requires
        handshake.accepts(event),
        handshake.next(event).0.accepts(EventView::Failed),
    ensures
        ({
            let (after, action) = handshake.next(event);
            let (failed, failure) = after.next(EventView::Failed);
            &&& failed == handshake.at(Phase::Failed)
            &&& failure == (ActionView::Fail {
                error: match action {
                    ActionView::Connect { .. } => HandshakeError::Connect,
                    ActionView::Send { message } => match message {
                        FrontendView::SslRequest => HandshakeError::SslRequest,
                        FrontendView::Startup { .. } => HandshakeError::Startup,
                        _ => HandshakeError::Password,
                    },
                    ActionView::ReadSslReply => HandshakeError::SslReply,
                    ActionView::Upgrade => HandshakeError::SslUpgrade,
                    ActionView::Receive => HandshakeError::Receive,
                    _ => HandshakeError::Notify,
                },
            })
        }),
{
}

} // verus!
