//! How the proxy opens a session with the target.
//!
//! The steps alternate with input and output: each action is to be carried out,
//! and the event that came of it handed to the next step.
use vstd::prelude::*;

use crate::auth::{md5_password, md5_password_text};
use crate::config::PostgresConfig;
use crate::message::{
    BackendMessage, BackendView, FrontendMessage, FrontendView, ACCEPT_SSL_ENCRYPTION, VERSION_3,
};
use crate::params::{lookup, names, Params};

verus! {

/// What the handshake waits for.
#[derive(Debug, Clone, Copy, PartialEq, Eq, Structural)]
pub enum Phase {
    /// A connection to the target.
    Connecting,
    /// The request for TLS to be sent.
    RequestingSsl,
    /// The byte that answers it.
    AwaitingSslReply,
    /// The connection to be secured.
    Upgrading,
    /// A second connection, after TLS was refused on the first.
    Reconnecting,
    /// The startup message to be sent.
    StartingUp,
    /// The target's next message.
    Authenticating,
    /// A password to be sent.
    SendingPassword,
    /// The client to be told that it is authenticated.
    NotifyingClient,
    /// Nothing more: the session is open.
    Established,
    /// Nothing more: there is no session.
    Failed,
}

/// Why there is no session.
#[derive(Debug, Clone, Copy, PartialEq, Eq, Structural)]
pub enum HandshakeError {
    /// The target could not be reached.
    Connect,
    /// The request for TLS could not be sent.
    SslRequest,
    /// The answer to it could not be read.
    SslReply,
    /// The connection could not be secured.
    SslUpgrade,
    /// The startup message could not be sent.
    Startup,
    /// A message of the target could not be read.
    Receive,
    /// A password could not be sent.
    Password,
    /// The client could not be told.
    Notify,
    /// The target sent a message that has no place in a handshake.
    UnexpectedMessage,
}

/// What came of an action.
#[derive(Debug)]
pub enum Event {
    /// There is a connection, which may be secured already.
    Connected { secured: bool },
    /// The message was sent.
    Sent,
    /// The target answered the request for TLS.
    SslReply { answer: u8 },
    /// The connection is secured.
    Upgraded,
    /// The target sent a message.
    Received { message: BackendMessage },
    /// The action failed.
    Failed,
}

/// What is to be done next.
#[derive(Debug)]
pub enum Action {
    /// Connect to the target, in place of any connection that there is.
    Connect { addr: String },
    /// Send `message` to the target.
    Send { message: FrontendMessage },
    /// Read the one byte that answers a request for TLS.
    ReadSslReply,
    /// Secure the connection.
    Upgrade,
    /// Read a message of the target.
    Receive,
    /// Send `reply` to the client.
    Notify { reply: BackendMessage },
    /// Serve the session.
    Open,
    /// Give up.
    Fail { error: HandshakeError },
}

/// What an event says.
pub enum EventView {
    Connected { secured: bool },
    Sent,
    SslReply { answer: u8 },
    Upgraded,
    Received { message: BackendView },
    Failed,
}

/// What an action says.
pub enum ActionView {
    Connect { addr: Seq<char> },
    Send { message: FrontendView },
    ReadSslReply,
    Upgrade,
    Receive,
    Notify { reply: BackendView },
    Open,
    Fail { error: HandshakeError },
}

impl View for Event {
    type V = EventView;

    open spec fn view(&self) -> EventView {
        match self {
            Event::Connected { secured } => EventView::Connected { secured: *secured },
            Event::Sent => EventView::Sent,
            Event::SslReply { answer } => EventView::SslReply { answer: *answer },
            Event::Upgraded => EventView::Upgraded,
            Event::Received { message } => EventView::Received { message: message@ },
            Event::Failed => EventView::Failed,
        }
    }
}

impl View for Action {
    type V = ActionView;

    open spec fn view(&self) -> ActionView {
        match self {
            Action::Connect { addr } => ActionView::Connect { addr: addr@ },
            Action::Send { message } => ActionView::Send { message: message@ },
            Action::ReadSslReply => ActionView::ReadSslReply,
            Action::Upgrade => ActionView::Upgrade,
            Action::Receive => ActionView::Receive,
            Action::Notify { reply } => ActionView::Notify { reply: reply@ },
            Action::Open => ActionView::Open,
            Action::Fail { error } => ActionView::Fail { error: *error },
        }
    }
}

/// A handshake: how far it has come, and what it says to the target.
pub struct HandshakeView {
    pub phase: Phase,
    pub addr: Seq<char>,
    pub username: Option<Seq<char>>,
    pub password: Option<Seq<char>>,
    pub database: Option<Seq<char>>,
}

/// The parameters with which the proxy opens a session: the client's database,
/// the proxy's own user, and how it wants to be spoken to.
pub open spec fn startup_params(database: Seq<char>, username: Seq<char>) -> Seq<
    (Seq<char>, Seq<char>),
> {
    seq![
        ("database"@, database),
        ("user"@, username),
        ("client_encoding"@, "UTF8"@),
        ("application_name"@, "inspektor"@),
    ]
}

impl HandshakeView {
    /// Whether the startup message can be built.
    pub open spec fn can_start_up(self) -> bool {
        self.username is Some && self.database is Some
    }

    /// Whether `event` can come of what was to be done last, and says nothing
    /// that takes a setting which is missing.
    pub open spec fn accepts(self, event: EventView) -> bool {
        match (self.phase, event) {
            (Phase::Connecting, EventView::Connected { secured }) => secured
                ==> self.can_start_up(),
            (Phase::RequestingSsl, EventView::Sent) => true,
            (Phase::AwaitingSslReply, EventView::SslReply { .. }) => true,
            (Phase::Upgrading, EventView::Upgraded) => self.can_start_up(),
            (Phase::Reconnecting, EventView::Connected { .. }) => self.can_start_up(),
            (Phase::StartingUp, EventView::Sent) => true,
            (Phase::Authenticating, EventView::Received { message }) => {
                message is AuthenticationMD5Password || message is AuthenticationCleartextPassword
                    ==> self.password is Some
            },
            (Phase::SendingPassword, EventView::Sent) => true,
            (Phase::NotifyingClient, EventView::Sent) => true,
            (Phase::Established, _) => false,
            (Phase::Failed, _) => false,
            (_, EventView::Failed) => true,
            (_, _) => false,
        }
    }

    /// What has failed when the action of this phase failed.
    pub open spec fn failure(self) -> HandshakeError {
        match self.phase {
            Phase::Connecting => HandshakeError::Connect,
            Phase::RequestingSsl => HandshakeError::SslRequest,
            Phase::AwaitingSslReply => HandshakeError::SslReply,
            Phase::Upgrading => HandshakeError::SslUpgrade,
            Phase::Reconnecting => HandshakeError::Connect,
            Phase::StartingUp => HandshakeError::Startup,
            Phase::Authenticating => HandshakeError::Receive,
            Phase::SendingPassword => HandshakeError::Password,
            _ => HandshakeError::Notify,
        }
    }

    /// The handshake in another phase.
    pub open spec fn at(self, phase: Phase) -> HandshakeView {
        HandshakeView { phase, ..self }
    }

    /// The startup message.
    pub open spec fn startup(self) -> FrontendView {
        FrontendView::Startup {
            params: startup_params(self.database->0, self.username->0),
            version: VERSION_3,
        }
    }

    /// The answer to a message of the target while it authenticates the proxy.
    pub open spec fn reply(self, message: BackendView) -> (HandshakeView, ActionView) {
        match message {
            BackendView::AuthenticationMD5Password { salt } => (
                self.at(Phase::SendingPassword),
                ActionView::Send {
                    message: FrontendView::PasswordMessage {
                        password: md5_password_text(self.username->0, self.password->0, salt),
                    },
                },
            ),
            BackendView::AuthenticationCleartextPassword => (
                self.at(Phase::SendingPassword),
                ActionView::Send {
                    message: FrontendView::PasswordMessage { password: self.password->0 },
                },
            ),
            BackendView::AuthenticationOk => (
                self.at(Phase::NotifyingClient),
                ActionView::Notify { reply: message },
            ),
            BackendView::Other { .. } => (
                self.at(Phase::Failed),
                ActionView::Fail { error: HandshakeError::UnexpectedMessage },
            ),
        }
    }

    /// What follows `event`: the handshake's new state, and what is to be done.
    pub open spec fn next(self, event: EventView) -> (HandshakeView, ActionView) {
        match event {
            EventView::Failed => (
                self.at(Phase::Failed),
                ActionView::Fail { error: self.failure() },
            ),
            EventView::Connected { secured } => if self.phase == Phase::Connecting && !secured {
                (
                    self.at(Phase::RequestingSsl),
                    ActionView::Send { message: FrontendView::SslRequest },
                )
            } else {
                (self.at(Phase::StartingUp), ActionView::Send { message: self.startup() })
            },
            EventView::SslReply { answer } => if answer == ACCEPT_SSL_ENCRYPTION {
                (self.at(Phase::Upgrading), ActionView::Upgrade)
            } else {
                (self.at(Phase::Reconnecting), ActionView::Connect { addr: self.addr })
            },
            EventView::Upgraded => (
                self.at(Phase::StartingUp),
                ActionView::Send { message: self.startup() },
            ),
            EventView::Received { message } => self.reply(message),
            EventView::Sent => match self.phase {
                Phase::RequestingSsl => (
                    self.at(Phase::AwaitingSslReply),
                    ActionView::ReadSslReply,
                ),
                Phase::NotifyingClient => (self.at(Phase::Established), ActionView::Open),
                _ => (self.at(Phase::Authenticating), ActionView::Receive),
            },
        }
    }

    /// Whether the startup message has been built.
    pub open spec fn started(self) -> bool {
        self.phase == Phase::StartingUp || self.phase == Phase::Authenticating || self.phase
            == Phase::SendingPassword || self.phase == Phase::NotifyingClient || self.phase
            == Phase::Established
    }
}

/// The text that `text` holds, if it holds any.
pub open spec fn text_view(text: Option<String>) -> Option<Seq<char>> {
    match text {
        Some(t) => Some(t@),
        None => None,
    }
}

/// A handshake with the target on behalf of one client.
#[derive(Debug)]
pub struct Handshake {
    phase: Phase,
    config: PostgresConfig,
    client_params: Params,
}

impl View for Handshake {
    type V = HandshakeView;

    closed spec fn view(&self) -> HandshakeView {
        HandshakeView {
            phase: self.phase,
            addr: self.config.target_addr->0@,
            username: text_view(self.config.target_username),
            password: text_view(self.config.target_password),
            database: lookup(self.client_params@, "database"@),
        }
    }
}

impl Handshake {
    #[verifier::type_invariant]
    spec fn wf(self) -> bool {
        &&& self.config.target_addr is Some
        &&& self@.started() ==> self@.can_start_up()
    }

    /// A handshake for the client that sent `client_params`, and what is to be
    /// done first.
    pub fn new(config: PostgresConfig, client_params: Params) -> (started: (Handshake, Action))
        requires
            config.target_addr is Some,
        ensures
            started.0@ == (HandshakeView {
                phase: Phase::Connecting,
                addr: config.target_addr->0@,
                username: text_view(config.target_username),
                password: text_view(config.target_password),
                database: lookup(client_params@, "database"@),
            }),
            started.1@ == (ActionView::Connect { addr: config.target_addr->0@ }),
    {
        let addr = match &config.target_addr {
            Some(addr) => addr.clone(),
            None => String::new(),
        };
        let handshake = Handshake { phase: Phase::Connecting, config, client_params };
        (handshake, Action::Connect { addr })
    }

    /// Whether the startup message can be built.
    fn can_start_up(&self) -> (able: bool)
        ensures
            able == self@.can_start_up(),
    {
        let key = "database".to_owned();
        self.config.target_username.is_some() && self.client_params.get(&key).is_some()
    }

    /// Whether `step` can be given `event`.
    pub fn accepts(&self, event: &Event) -> (accepted: bool)
        ensures
            accepted == self@.accepts(event@),
    {
        match (self.phase, event) {
            (Phase::Connecting, Event::Connected { secured }) => !*secured || self.can_start_up(),
            (Phase::RequestingSsl, Event::Sent) => true,
            (Phase::AwaitingSslReply, Event::SslReply { .. }) => true,
            (Phase::Upgrading, Event::Upgraded) => self.can_start_up(),
            (Phase::Reconnecting, Event::Connected { .. }) => self.can_start_up(),
            (Phase::StartingUp, Event::Sent) => true,
            (Phase::Authenticating, Event::Received { message }) => match message {
                BackendMessage::AuthenticationMD5Password { .. } =>
                    self.config.target_password.is_some(),
                BackendMessage::AuthenticationCleartextPassword =>
                    self.config.target_password.is_some(),
                _ => true,
            },
            (Phase::SendingPassword, Event::Sent) => true,
            (Phase::NotifyingClient, Event::Sent) => true,
            (Phase::Established, _) => false,
            (Phase::Failed, _) => false,
            (_, Event::Failed) => true,
            (_, _) => false,
        }
    }

    /// What has failed when the action of this phase failed.
    fn failure(&self) -> (error: HandshakeError)
        ensures
            error == self@.failure(),
    {
        match self.phase {
            Phase::Connecting => HandshakeError::Connect,
            Phase::RequestingSsl => HandshakeError::SslRequest,
            Phase::AwaitingSslReply => HandshakeError::SslReply,
            Phase::Upgrading => HandshakeError::SslUpgrade,
            Phase::Reconnecting => HandshakeError::Connect,
            Phase::StartingUp => HandshakeError::Startup,
            Phase::Authenticating => HandshakeError::Receive,
            Phase::SendingPassword => HandshakeError::Password,
            _ => HandshakeError::Notify,
        }
    }

    /// The startup message.
    fn startup(&self) -> (message: FrontendMessage)
        requires
            self@.can_start_up(),
        ensures
            message@ == self@.startup(),
    {
        let key = "database".to_owned();
        let database = match self.client_params.get(&key) {
            Some(database) => database.clone(),
            None => String::new(),
        };
        let username = match &self.config.target_username {
            Some(username) => username.clone(),
            None => String::new(),
        };
        let mut params = Params::new();
        proof {
            reveal_strlit("database");
            reveal_strlit("user");
            reveal_strlit("client_encoding");
            reveal_strlit("application_name");
            assert("database"@.len() == 8);
            assert("user"@.len() == 4);
            assert("client_encoding"@.len() == 15);
            assert("application_name"@.len() == 16);
            assert(!names(params@, "database"@));
        }
        params.insert(key, database);
        assert(!names(params@, "user"@));
        params.insert("user".to_owned(), username);
        assert(!names(params@, "client_encoding"@));
        params.insert("client_encoding".to_owned(), "UTF8".to_owned());
        assert(!names(params@, "application_name"@));
        params.insert("application_name".to_owned(), "inspektor".to_owned());
        assert(params@ =~= startup_params(self@.database->0, self@.username->0));
        FrontendMessage::Startup { params, version: VERSION_3 }
    }

    /// The password as it is.
    fn clear_password(&self) -> (password: String)
        requires
            self@.password is Some,
        ensures
            password@ == self@.password->0,
    {
        match &self.config.target_password {
            Some(password) => password.clone(),
            None => String::new(),
        }
    }

    /// The password hashed with `salt`.
    fn hashed_password(&self, salt: Vec<u8>) -> (password: String)
        requires
            self@.username is Some,
            self@.password is Some,
        ensures
            password@ == md5_password_text(self@.username->0, self@.password->0, salt@),
    {
        match (&self.config.target_username, &self.config.target_password) {
            (Some(username), Some(password)) => md5_password(username, password, salt),
            _ => String::new(),
        }
    }

    /// Takes the event that came of the last action, and says what is to be
    /// done next.
    pub fn step(&mut self, event: Event) -> (action: Action)
        requires
            old(self)@.accepts(event@),
        ensures
            (final(self)@, action@) == old(self)@.next(event@),
    {
        proof {
            use_type_invariant(&*self);
        }
        match event {
            Event::Failed => {
                let error = self.failure();
                self.phase = Phase::Failed;
                Action::Fail { error }
            },
            Event::Connected { secured } => {
                if self.phase == Phase::Connecting && !secured {
                    self.phase = Phase::RequestingSsl;
                    Action::Send { message: FrontendMessage::SslRequest }
                } else {
                    let message = self.startup();
                    self.phase = Phase::StartingUp;
                    Action::Send { message }
                }
            },
            Event::SslReply { answer } => {
                if answer == ACCEPT_SSL_ENCRYPTION {
                    self.phase = Phase::Upgrading;
                    Action::Upgrade
                } else {
                    let addr = match &self.config.target_addr {
                        Some(addr) => addr.clone(),
                        None => String::new(),
                    };
                    self.phase = Phase::Reconnecting;
                    Action::Connect { addr }
                }
            },
            Event::Upgraded => {
                let message = self.startup();
                self.phase = Phase::StartingUp;
                Action::Send { message }
            },
            Event::Received { message } => match message {
                BackendMessage::AuthenticationMD5Password { salt } => {
                    let password = self.hashed_password(salt);
                    self.phase = Phase::SendingPassword;
                    Action::Send { message: FrontendMessage::PasswordMessage { password } }
                },
                BackendMessage::AuthenticationCleartextPassword => {
                    let password = self.clear_password();
                    self.phase = Phase::SendingPassword;
                    Action::Send { message: FrontendMessage::PasswordMessage { password } }
                },
                BackendMessage::AuthenticationOk => {
                    self.phase = Phase::NotifyingClient;
                    Action::Notify { reply: BackendMessage::AuthenticationOk }
                },
                BackendMessage::Other { .. } => {
                    self.phase = Phase::Failed;
                    Action::Fail { error: HandshakeError::UnexpectedMessage }
                },
            },
            Event::Sent => match self.phase {
                Phase::RequestingSsl => {
                    self.phase = Phase::AwaitingSslReply;
                    Action::ReadSslReply
                },
                Phase::NotifyingClient => {
                    self.phase = Phase::Established;
                    Action::Open
                },
                _ => {
                    self.phase = Phase::Authenticating;
                    Action::Receive
                },
            },
        }
    }

    /// What an open session goes on with: the settings of the target, and the
    /// client's database.
    pub fn into_session(self) -> (session: (PostgresConfig, String))
        requires
            self@.phase == Phase::Established,
        ensures
            session.0.target_addr is Some,
            session.0.target_addr->0@ == self@.addr,
            text_view(session.0.target_username) == self@.username,
            text_view(session.0.target_password) == self@.password,
            Some(session.1@) == self@.database,
            self@.username is Some,
    {
        proof {
            use_type_invariant(&self);
        }
        let key = "database".to_owned();
        let database = match self.client_params.get(&key) {
            Some(database) => database.clone(),
            None => String::new(),
        };
        (self.config, database)
    }
}

impl HandshakeError {
    /// What is said of the error, where it is not told by the input or output
    /// that failed.
    pub fn description(&self) -> (text: Option<&'static str>)
        ensures
            match *self {
                HandshakeError::Connect => text is Some && text->0@
                    == "unable to connect to target postgres server"@,
                HandshakeError::SslRequest => text is Some && text->0@
                    == "unable to send ssl upgrade request"@,
                HandshakeError::SslReply => text is Some && text->0@
                    == "error while reading response message after ssl request"@,
                HandshakeError::SslUpgrade => text is Some && text->0@
                    == "error while upgrading target connection to ssl stream"@,
                HandshakeError::UnexpectedMessage => text is Some && text->0@
                    == "unexpected backend message from target"@,
                _ => text is None,
            },
    {
        match *self {
            HandshakeError::Connect => Some("unable to connect to target postgres server"),
            HandshakeError::SslRequest => Some("unable to send ssl upgrade request"),
            HandshakeError::SslReply => Some(
                "error while reading response message after ssl request",
            ),
            HandshakeError::SslUpgrade => Some(
                "error while upgrading target connection to ssl stream",
            ),
            HandshakeError::UnexpectedMessage => Some("unexpected backend message from target"),
            _ => None,
        }
    }
}

} // verus!
