//! The messages of version 3 of PostgreSQL's protocol that the proxy builds or
//! looks into, and their bytes.
//!
//! A message is a tag byte, a length and a body. The length is four bytes, the
//! most significant first; it counts itself and the body. What a client sends
//! before its startup message is answered has no tag.
use vstd::prelude::*;
use vstd::utf8::{decode_utf8, encode_utf8, valid_utf8};

use crate::params::Params;

verus! {

/// The protocol's version in a startup message: 3.0.
pub const VERSION_3: u32 = 196608;

/// What stands in place of a version in a request for TLS.
pub const SSL_REQUEST_CODE: u32 = 80877103;

/// The byte with which a server agrees to TLS: `S`.
pub const ACCEPT_SSL_ENCRYPTION: u8 = 83;

/// The tag of a query: `Q`.
pub const QUERY_TAG: u8 = 81;

/// The tag of a password: `p`.
pub const PASSWORD_TAG: u8 = 112;

/// The tag of what a server says of authentication: `R`.
pub const AUTHENTICATION_TAG: u8 = 82;

/// The code in the body of a message that ends authentication.
pub const AUTHENTICATION_OK_CODE: u32 = 0;

/// The code in the body of a request for a password in clear text.
pub const CLEARTEXT_PASSWORD_CODE: u32 = 3;

/// The code in the body of a request for a password hashed with MD5.
pub const MD5_PASSWORD_CODE: u32 = 5;

/// The largest length that a message can give: what a signed number of four
/// bytes holds.
pub const MAX_LENGTH: u32 = 2147483647;

/// A message from a client, or from the proxy as a client.
#[derive(Debug)]
pub enum FrontendMessage {
    /// Asks the server to go on with TLS.
    SslRequest,
    /// Opens a session.
    Startup { params: Params, version: u32 },
    /// Answers a request for a password.
    PasswordMessage { password: String },
    /// Asks for the execution of SQL text.
    Query { query_string: String },
    /// Any other message.
    Other { tag: u8, body: Vec<u8> },
}

/// A message from a server.
#[derive(Debug)]
pub enum BackendMessage {
    /// The client is who it says.
    AuthenticationOk,
    /// The client is to send its password.
    AuthenticationCleartextPassword,
    /// The client is to send its password hashed with `salt`.
    AuthenticationMD5Password { salt: Vec<u8> },
    /// Any other message.
    Other { tag: u8, body: Vec<u8> },
}

/// What a frontend message says.
pub enum FrontendView {
    SslRequest,
    Startup { params: Seq<(Seq<char>, Seq<char>)>, version: u32 },
    PasswordMessage { password: Seq<char> },
    Query { query_string: Seq<char> },
    Other { tag: u8, body: Seq<u8> },
}

/// What a backend message says.
pub enum BackendView {
    AuthenticationOk,
    AuthenticationCleartextPassword,
    AuthenticationMD5Password { salt: Seq<u8> },
    Other { tag: u8, body: Seq<u8> },
}

impl View for FrontendMessage {
    type V = FrontendView;

    open spec fn view(&self) -> FrontendView {
        match self {
            FrontendMessage::SslRequest => FrontendView::SslRequest,
            FrontendMessage::Startup { params, version } => FrontendView::Startup {
                params: params@,
                version: *version,
            },
            FrontendMessage::PasswordMessage { password } => FrontendView::PasswordMessage {
                password: password@,
            },
            FrontendMessage::Query { query_string } => FrontendView::Query {
                query_string: query_string@,
            },
            FrontendMessage::Other { tag, body } => FrontendView::Other { tag: *tag, body: body@ },
        }
    }
}

impl View for BackendMessage {
    type V = BackendView;

    open spec fn view(&self) -> BackendView {
        match self {
            BackendMessage::AuthenticationOk => BackendView::AuthenticationOk,
            BackendMessage::AuthenticationCleartextPassword =>
                BackendView::AuthenticationCleartextPassword,
            BackendMessage::AuthenticationMD5Password { salt } =>
                BackendView::AuthenticationMD5Password { salt: salt@ },
            BackendMessage::Other { tag, body } => BackendView::Other { tag: *tag, body: body@ },
        }
    }
}

/// Why a message has no bytes.
#[derive(Debug, Clone, Copy, PartialEq, Eq, Structural)]
pub enum EncodeError {
    /// The message is longer than its length field can say.
    TooLong,
}

/// Why bytes are no message.
#[derive(Debug, Clone, Copy, PartialEq, Eq, Structural)]
pub enum DecodeError {
    /// The length is less than its own four bytes, or negative.
    BadLength,
    /// The body does not have the form that its tag asks for.
    BadBody,
}

/// The four bytes of `n`, the most significant first.
pub open spec fn be_bytes(n: u32) -> Seq<u8> {
    seq![
        (n / 16777216) as u8,
        (n / 65536 % 256) as u8,
        (n / 256 % 256) as u8,
        (n % 256) as u8,
    ]
}

/// The number that four bytes hold, the most significant first.
pub open spec fn be_value(b0: u8, b1: u8, b2: u8, b3: u8) -> int {
    b0 * 16777216 + b1 * 65536 + b2 * 256 + b3
}

/// `text` as bytes, with the zero byte that ends it.
pub open spec fn terminated(text: Seq<char>) -> Seq<u8> {
    encode_utf8(text).push(0)
}

/// The keys and values of `params`, each ended by a zero byte.
pub open spec fn params_bytes(params: Seq<(Seq<char>, Seq<char>)>) -> Seq<u8>
    decreases params.len(),
{
    if params.len() == 0 {
        Seq::empty()
    } else {
        params_bytes(params.drop_last()) + terminated(params.last().0) + terminated(params.last().1)
    }
}

impl FrontendView {
    /// The tag, where the message has one.
    pub open spec fn tag(self) -> Seq<u8> {
        match self {
            FrontendView::SslRequest => Seq::empty(),
            FrontendView::Startup { .. } => Seq::empty(),
            FrontendView::PasswordMessage { .. } => seq![PASSWORD_TAG],
            FrontendView::Query { .. } => seq![QUERY_TAG],
            FrontendView::Other { tag, .. } => seq![tag],
        }
    }

    /// What follows the length.
    pub open spec fn body(self) -> Seq<u8> {
        match self {
            FrontendView::SslRequest => be_bytes(SSL_REQUEST_CODE),
            FrontendView::Startup { params, version } => (be_bytes(version) + params_bytes(
                params,
            )).push(0),
            FrontendView::PasswordMessage { password } => terminated(password),
            FrontendView::Query { query_string } => terminated(query_string),
            FrontendView::Other { body, .. } => body,
        }
    }

    /// Whether the length field can say how long the message is.
    pub open spec fn fits(self) -> bool {
        self.body().len() + 4 <= MAX_LENGTH
    }

    /// The bytes of the message.
    pub open spec fn bytes(self) -> Seq<u8> {
        self.tag() + be_bytes((self.body().len() + 4) as u32) + self.body()
    }
}

impl BackendView {
    /// The tag of the message.
    pub open spec fn tag(self) -> u8 {
        match self {
            BackendView::Other { tag, .. } => tag,
            _ => AUTHENTICATION_TAG,
        }
    }

    /// What follows the length.
    pub open spec fn body(self) -> Seq<u8> {
        match self {
            BackendView::AuthenticationOk => be_bytes(AUTHENTICATION_OK_CODE),
            BackendView::AuthenticationCleartextPassword => be_bytes(CLEARTEXT_PASSWORD_CODE),
            BackendView::AuthenticationMD5Password { salt } => be_bytes(MD5_PASSWORD_CODE) + salt,
            BackendView::Other { body, .. } => body,
        }
    }

    /// Whether the length field can say how long the message is.
    pub open spec fn fits(self) -> bool {
        self.body().len() + 4 <= MAX_LENGTH
    }

    /// The bytes of the message.
    pub open spec fn bytes(self) -> Seq<u8> {
        seq![self.tag()] + be_bytes((self.body().len() + 4) as u32) + self.body()
    }
}

/// Appends the four bytes of `n`.
fn put_u32(bytes: &mut Vec<u8>, n: u32)
    ensures
        final(bytes)@ == old(bytes)@ + be_bytes(n),
{
    bytes.push((n / 16777216) as u8);
    bytes.push((n / 65536 % 256) as u8);
    bytes.push((n / 256 % 256) as u8);
    bytes.push((n % 256) as u8);
    assert(bytes@ =~= old(bytes)@ + be_bytes(n));
}

/// Appends `text` and the zero byte that ends it.
fn put_terminated(bytes: &mut Vec<u8>, text: &String)
    ensures
        final(bytes)@ == old(bytes)@ + terminated(text@),
{
    bytes.extend_from_slice(text.as_str().as_bytes());
    bytes.push(0);
    assert(bytes@ =~= old(bytes)@ + terminated(text@));
}

/// Puts the length before `body` and `tag`, if there is one, before both.
fn frame(tag: Option<u8>, body: &Vec<u8>) -> (message: Result<Vec<u8>, EncodeError>)
    ensures
        body@.len() + 4 > MAX_LENGTH <==> message == Err::<Vec<u8>, EncodeError>(
            EncodeError::TooLong,
        ),
        body@.len() + 4 <= MAX_LENGTH ==> message is Ok && message->Ok_0@ == (match tag {
            Some(t) => seq![t],
            None => Seq::empty(),
        }) + be_bytes((body@.len() + 4) as u32) + body@,
{
    if body.len() > (MAX_LENGTH - 4) as usize {
        return Err(EncodeError::TooLong);
    }
    let mut message: Vec<u8> = Vec::new();
    if let Some(t) = tag {
        message.push(t);
    }
    assert(message@ =~= match tag {
        Some(t) => seq![t],
        None => Seq::empty(),
    });
    put_u32(&mut message, body.len() as u32 + 4);
    message.extend_from_slice(body.as_slice());
    Ok(message)
}

impl FrontendMessage {
    /// The bytes of the message.
    pub fn encode(&self) -> (message: Result<Vec<u8>, EncodeError>)
        ensures
            match message {
                Ok(bytes) => self@.fits() && bytes@ == self@.bytes(),
                Err(error) => !self@.fits() && error == EncodeError::TooLong,
            },
    {
        let mut body: Vec<u8> = Vec::new();
        let mut tag: Option<u8> = None;
        match self {
            FrontendMessage::SslRequest => {
                put_u32(&mut body, SSL_REQUEST_CODE);
            },
            FrontendMessage::Startup { params, version } => {
                put_u32(&mut body, *version);
                let count = params.len();
                for i in 0..count
                    invariant
                        count == params@.len(),
                        body@ == be_bytes(*version) + params_bytes(params@.take(i as int)),
                {
                    let entry = params.entry(i);
                    put_terminated(&mut body, entry.0);
                    put_terminated(&mut body, entry.1);
                    assert(params@.take(i + 1).drop_last() =~= params@.take(i as int));
                }
                body.push(0);
                assert(params@.take(params@.len() as int) =~= params@);
            },
            FrontendMessage::PasswordMessage { password } => {
                tag = Some(PASSWORD_TAG);
                put_terminated(&mut body, password);
            },
            FrontendMessage::Query { query_string } => {
                tag = Some(QUERY_TAG);
                put_terminated(&mut body, query_string);
            },
            FrontendMessage::Other { tag: other, body: rest } => {
                return frame(Some(*other), rest);
            },
        }
        assert(body@ =~= self@.body());
        frame(tag, &body)
    }
}

impl BackendMessage {
    /// The bytes of the message.
    pub fn encode(&self) -> (message: Result<Vec<u8>, EncodeError>)
        ensures
            match message {
                Ok(bytes) => self@.fits() && bytes@ == self@.bytes(),
                Err(error) => !self@.fits() && error == EncodeError::TooLong,
            },
    {
        let mut body: Vec<u8> = Vec::new();
        match self {
            BackendMessage::AuthenticationOk => {
                put_u32(&mut body, AUTHENTICATION_OK_CODE);
            },
            BackendMessage::AuthenticationCleartextPassword => {
                put_u32(&mut body, CLEARTEXT_PASSWORD_CODE);
            },
            BackendMessage::AuthenticationMD5Password { salt } => {
                put_u32(&mut body, MD5_PASSWORD_CODE);
                body.extend_from_slice(salt.as_slice());
            },
            BackendMessage::Other { tag, body: rest } => {
                return frame(Some(*tag), rest);
            },
        }
        assert(body@ =~= self@.body());
        frame(Some(AUTHENTICATION_TAG), &body)
    }
}

/// The tag and the length of the body that the first five bytes of a message
/// announce.
pub open spec fn header(b0: u8, b1: u8, b2: u8, b3: u8, b4: u8) -> Result<(u8, int), DecodeError> {
    let length = be_value(b1, b2, b3, b4);
    if 4 <= length <= MAX_LENGTH {
        Ok((b0, length - 4))
    } else {
        Err(DecodeError::BadLength)
    }
}

/// Reads the tag of a message and the length of its body.
pub fn decode_header(bytes: [u8; 5]) -> (read: Result<(u8, usize), DecodeError>)
    ensures
        match read {
            Ok((tag, length)) => header(bytes@[0], bytes@[1], bytes@[2], bytes@[3], bytes@[4])
                == Ok::<(u8, int), DecodeError>((tag, length as int)),
            Err(error) => header(bytes@[0], bytes@[1], bytes@[2], bytes@[3], bytes@[4]) == Err::<
                (u8, int),
                DecodeError,
            >(error),
        },
{
    let length = get_u32(bytes[1], bytes[2], bytes[3], bytes[4]);
    if length < 4 || length > MAX_LENGTH {
        Err(DecodeError::BadLength)
    } else {
        Ok((bytes[0], (length - 4) as usize))
    }
}

/// The number that four bytes hold.
fn get_u32(b0: u8, b1: u8, b2: u8, b3: u8) -> (n: u32)
    ensures
        n == be_value(b0, b1, b2, b3),
{
    b0 as u32 * 16777216 + b1 as u32 * 65536 + b2 as u32 * 256 + b3 as u32
}

/// Calls `String::from_utf8`, which is said to return the text that `bytes`
/// encode where they are valid UTF-8, and an error where they are not.
#[verifier::external_body]
fn text_of(bytes: Vec<u8>) -> (text: Option<String>)
    ensures
        match text {
            Some(t) => valid_utf8(bytes@) && t@ == decode_utf8(bytes@),
            None => !valid_utf8(bytes@),
        },
{
    String::from_utf8(bytes).ok()
}

/// Whether `body` is one text with the zero byte that ends it.
pub open spec fn is_terminated_text(body: Seq<u8>) -> bool {
    &&& body.len() > 0
    &&& body.last() == 0
    &&& !body.drop_last().contains(0)
    &&& valid_utf8(body.drop_last())
}

/// What a client says with `tag` and `body`, once its session is open.
pub open spec fn frontend_message(tag: u8, body: Seq<u8>) -> Result<FrontendView, DecodeError> {
    if tag != QUERY_TAG {
        Ok(FrontendView::Other { tag, body })
    } else if is_terminated_text(body) {
        Ok(FrontendView::Query { query_string: decode_utf8(body.drop_last()) })
    } else {
        Err(DecodeError::BadBody)
    }
}

/// What a server says with `tag` and `body`.
pub open spec fn backend_message(tag: u8, body: Seq<u8>) -> Result<BackendView, DecodeError> {
    if tag != AUTHENTICATION_TAG {
        Ok(BackendView::Other { tag, body })
    } else if body.len() < 4 {
        Err(DecodeError::BadBody)
    } else {
        let code = be_value(body[0], body[1], body[2], body[3]);
        if code == AUTHENTICATION_OK_CODE {
            if body.len() == 4 {
                Ok(BackendView::AuthenticationOk)
            } else {
                Err(DecodeError::BadBody)
            }
        } else if code == CLEARTEXT_PASSWORD_CODE {
            if body.len() == 4 {
                Ok(BackendView::AuthenticationCleartextPassword)
            } else {
                Err(DecodeError::BadBody)
            }
        } else if code == MD5_PASSWORD_CODE {
            if body.len() == 8 {
                Ok(BackendView::AuthenticationMD5Password { salt: body.skip(4) })
            } else {
                Err(DecodeError::BadBody)
            }
        } else {
            Ok(BackendView::Other { tag, body })
        }
    }
}

/// Whether a zero byte stands in `body` before its last byte.
fn has_inner_zero(body: &Vec<u8>) -> (found: bool)
    requires
        body@.len() > 0,
    ensures
        found == body@.drop_last().contains(0),
{
    let end: usize = body.len() - 1;
    for i in 0..end
        invariant
            end == body@.len() - 1,
            forall|j: int| 0 <= j < i ==> body@[j] != 0,
    {
        if body[i] == 0 {
            assert(body@.drop_last()[i as int] == 0);
            return true;
        }
    }
    false
}

impl FrontendMessage {
    /// Reads a message from its tag and its body.
    pub fn decode(tag: u8, body: Vec<u8>) -> (message: Result<FrontendMessage, DecodeError>)
        ensures
            match message {
                Ok(m) => frontend_message(tag, body@) == Ok::<FrontendView, DecodeError>(m@),
                Err(error) => frontend_message(tag, body@) == Err::<FrontendView, DecodeError>(
                    error,
                ),
            },
    {
        if tag != QUERY_TAG {
            return Ok(FrontendMessage::Other { tag, body });
        }
        if body.len() == 0 || body[body.len() - 1] != 0 || has_inner_zero(&body) {
            return Err(DecodeError::BadBody);
        }
        let mut text = body;
        text.pop();
        assert(text@ =~= body@.drop_last());
        match text_of(text) {
            Some(query_string) => Ok(FrontendMessage::Query { query_string }),
            None => Err(DecodeError::BadBody),
        }
    }
}

/// Reads a server's message from its tag and its body.
pub fn decode_backend_message(tag: u8, body: Vec<u8>) -> (message: Result<
    BackendMessage,
    DecodeError,
>)
    ensures
        match message {
            Ok(m) => backend_message(tag, body@) == Ok::<BackendView, DecodeError>(m@),
            Err(error) => backend_message(tag, body@) == Err::<BackendView, DecodeError>(error),
        },
{
    if tag != AUTHENTICATION_TAG {
        return Ok(BackendMessage::Other { tag, body });
    }
    if body.len() < 4 {
        return Err(DecodeError::BadBody);
    }
    let code = get_u32(body[0], body[1], body[2], body[3]);
    if code == AUTHENTICATION_OK_CODE {
        if body.len() == 4 {
            Ok(BackendMessage::AuthenticationOk)
        } else {
            Err(DecodeError::BadBody)
        }
    } else if code == CLEARTEXT_PASSWORD_CODE {
        if body.len() == 4 {
            Ok(BackendMessage::AuthenticationCleartextPassword)
        } else {
            Err(DecodeError::BadBody)
        }
    } else if code == MD5_PASSWORD_CODE {
        if body.len() == 8 {
            let salt: Vec<u8> = vec![body[4], body[5], body[6], body[7]];
            assert(salt@ =~= body@.skip(4));
            Ok(BackendMessage::AuthenticationMD5Password { salt })
        } else {
            Err(DecodeError::BadBody)
        }
    } else {
        Ok(BackendMessage::Other { tag, body })
    }
}

/// The four bytes of a number hold that number.
pub proof fn lemma_be_bytes_value(n: u32)
    ensures
        be_bytes(n).len() == 4,
        be_value(be_bytes(n)[0], be_bytes(n)[1], be_bytes(n)[2], be_bytes(n)[3]) == n,
{
}

/// The tag and the body of a message whose bytes are `bytes`, all of them.
pub open spec fn unframed(bytes: Seq<u8>) -> Option<(u8, Seq<u8>)> {
    if bytes.len() >= 5 && header(bytes[0], bytes[1], bytes[2], bytes[3], bytes[4]) == Ok::<
        (u8, int),
        DecodeError,
    >((bytes[0], bytes.len() - 5)) {
        Some((bytes[0], bytes.skip(5)))
    } else {
        None
    }
}

/// The tag and the body of a message are read back from its bytes.
proof fn lemma_unframed(tag: u8, body: Seq<u8>)
    requires
        body.len() + 4 <= MAX_LENGTH,
    ensures
        unframed(seq![tag] + be_bytes((body.len() + 4) as u32) + body) == Some((tag, body)),
{
    lemma_be_bytes_value((body.len() + 4) as u32);
    assert((seq![tag] + be_bytes((body.len() + 4) as u32) + body).skip(5) =~= body);
}

/// A query is read back from the bytes that it is sent as, if no zero byte
/// stands in its text.
pub proof fn lemma_query_round_trip(message: FrontendView)
    requires
        message is Query,
        message.fits(),
        !encode_utf8(message->query_string).contains(0),
    ensures
        unframed(message.bytes()) == Some((QUERY_TAG, message.body())),
        frontend_message(QUERY_TAG, message.body()) == Ok::<FrontendView, DecodeError>(message),
{
    let query_string = message->query_string;
    lemma_unframed(QUERY_TAG, message.body());
    vstd::utf8::encode_utf8_valid_utf8(query_string);
    vstd::utf8::encode_utf8_decode_utf8(query_string);
    assert(message.body().drop_last() =~= encode_utf8(query_string));
}

/// A message that the proxy does not look into leaves it with the very bytes
/// with which it came.
pub proof fn lemma_other_bytes_kept(tag: u8, body: Seq<u8>)
    requires
        tag != QUERY_TAG,
        body.len() + 4 <= MAX_LENGTH,
    ensures
        frontend_message(tag, body) is Ok,
        frontend_message(tag, body)->Ok_0.bytes() == seq![tag] + be_bytes((body.len() + 4) as u32)
            + body,
{
}

/// So does a query: reading its bytes and writing them again changes nothing.
pub proof fn lemma_query_bytes_kept(body: Seq<u8>)
    requires
        body.len() + 4 <= MAX_LENGTH,
        frontend_message(QUERY_TAG, body) is Ok,
    ensures
        frontend_message(QUERY_TAG, body)->Ok_0.bytes() == seq![QUERY_TAG] + be_bytes(
            (body.len() + 4) as u32,
        ) + body,
{
    vstd::utf8::decode_utf8_encode_utf8(body.drop_last());
    assert(body.drop_last().push(0) =~= body);
}

/// What a server says of authentication is read back from the bytes that it is
/// sent as.
pub proof fn lemma_authentication_round_trip(message: BackendView)
    requires
        message !is Other,
        message is AuthenticationMD5Password ==> message->salt.len() == 4,
    ensures
        message.fits(),
        unframed(message.bytes()) == Some((AUTHENTICATION_TAG, message.body())),
        backend_message(AUTHENTICATION_TAG, message.body()) == Ok::<BackendView, DecodeError>(
            message,
        ),
{
    lemma_be_bytes_value(AUTHENTICATION_OK_CODE);
    lemma_be_bytes_value(CLEARTEXT_PASSWORD_CODE);
    lemma_be_bytes_value(MD5_PASSWORD_CODE);
    lemma_unframed(AUTHENTICATION_TAG, message.body());
    if message is AuthenticationMD5Password {
        assert(message.body().skip(4) =~= message->salt);
    }
}

} // verus!
