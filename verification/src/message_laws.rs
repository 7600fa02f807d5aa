//! What holds of every message and its bytes.
use vstd::prelude::*;
use vstd::utf8::{decode_utf8, encode_utf8};

use crate::message::{
    backend_message, be_bytes, frontend_message, header, params_bytes, BackendMessage, BackendView,
    DecodeError, FrontendMessage, FrontendView,
};

verus! {

/// A client's message is seen as it is, with all that it holds.
pub proof fn lemma_frontend_view(message: FrontendMessage)
    ensures
        message@ is SslRequest <==> message is SslRequest,
        message matches FrontendMessage::Startup { params, version } ==> message@ is Startup
            && message@->params == params@ && message@->version == version,
        message matches FrontendMessage::PasswordMessage { password } ==> message@
            is PasswordMessage && message@->password == password@,
        message matches FrontendMessage::Query { query_string } ==> message@ is Query
            && message@->query_string == query_string@,
        message matches FrontendMessage::Other { tag, body } ==> message@ is Other && message@->tag
            == tag && message@->body == body@,
{
}

/// A server's message is seen as it is, with all that it holds.
pub proof fn lemma_backend_view(message: BackendMessage)
    ensures
        message@ is AuthenticationOk <==> message is AuthenticationOk,
        message@ is AuthenticationCleartextPassword <==> message
            is AuthenticationCleartextPassword,
        message matches BackendMessage::AuthenticationMD5Password { salt } ==> message@
            is AuthenticationMD5Password && message@->salt == salt@,
        message matches BackendMessage::Other { tag, body } ==> message@ is Other && message@->tag
            == tag && message@->body == body@,
{
}

/// Four bytes add up to the number that they stand for, the first counting most.
pub proof fn lemma_be_bytes_add_up(n: u32)
    ensures
        be_bytes(n).len() == 4,
        be_bytes(n)[0] * 0x100_0000 + be_bytes(n)[1] * 0x1_0000 + be_bytes(n)[2] * 0x100
            + be_bytes(n)[3] == n,
{
}

/// A client's message can be sent if its length is one that four bytes hold as a
/// signed number. It then is its tag, the number of bytes behind the tag, and
/// its body.
pub proof fn lemma_frontend_frame(message: FrontendView)
    ensures
        message.fits() <==> message.body().len() <= 0x7fff_fffb,
        message.fits() ==> {
            let bytes = message.bytes();
            let start = message.tag().len() as int;
            &&& bytes.take(start) == message.tag()
            &&& bytes[start] * 0x100_0000 + bytes[start + 1] * 0x1_0000 + bytes[start + 2] * 0x100
                + bytes[start + 3] == bytes.len() - start
            &&& bytes.skip(start + 4) == message.body()
        },
{
    if message.fits() {
        let bytes = message.bytes();
        let start = message.tag().len() as int;
        lemma_be_bytes_add_up((message.body().len() + 4) as u32);
        assert(bytes.take(start) =~= message.tag());
        assert(bytes.skip(start + 4) =~= message.body());
        assert(bytes.subrange(start, start + 4) =~= be_bytes((message.body().len() + 4) as u32));
        assert(bytes[start] == bytes.subrange(start, start + 4)[0]);
        assert(bytes[start + 1] == bytes.subrange(start, start + 4)[1]);
        assert(bytes[start + 2] == bytes.subrange(start, start + 4)[2]);
        assert(bytes[start + 3] == bytes.subrange(start, start + 4)[3]);
    }
}

/// So it is with a server's message, which always has a tag of one byte.
pub proof fn lemma_backend_frame(message: BackendView)
    ensures
        message.fits() <==> message.body().len() <= 0x7fff_fffb,
        message.fits() ==> {
            let bytes = message.bytes();
            &&& bytes[0] == message.tag()
            &&& bytes[1] * 0x100_0000 + bytes[2] * 0x1_0000 + bytes[3] * 0x100 + bytes[4]
                == bytes.len() - 1
            &&& bytes.skip(5) == message.body()
        },
{
    if message.fits() {
        lemma_be_bytes_add_up((message.body().len() + 4) as u32);
        assert(message.bytes().skip(5) =~= message.body());
    }
}

/// A password is sent whole, with a zero byte behind it: it can be read back.
pub proof fn lemma_password_sent_whole(password: Seq<char>)
    ensures
        ({
            let message = FrontendView::PasswordMessage { password };
            &&& message.tag() == seq!['p' as u8]
            &&& message.body().len() == encode_utf8(password).len() + 1
            &&& message.body().last() == 0
            &&& message.body().drop_last() == encode_utf8(password)
            &&& decode_utf8(message.body().drop_last()) == password
        }),
{
    let message = FrontendView::PasswordMessage { password };
    assert(message.body().drop_last() =~= encode_utf8(password));
    vstd::utf8::encode_utf8_decode_utf8(password);
}

/// A query is sent whole, with a zero byte behind it: it can be read back.
pub proof fn lemma_query_sent_whole(query_string: Seq<char>)
    ensures
        ({
            let message = FrontendView::Query { query_string };
            &&& message.tag() == seq!['Q' as u8]
            &&& message.body().len() == encode_utf8(query_string).len() + 1
            &&& message.body().last() == 0
            &&& message.body().drop_last() == encode_utf8(query_string)
            &&& decode_utf8(message.body().drop_last()) == query_string
        }),
{
    let message = FrontendView::Query { query_string };
    assert(message.body().drop_last() =~= encode_utf8(query_string));
    vstd::utf8::encode_utf8_decode_utf8(query_string);
}

/// A startup message holds its version and all its parameters, and ends in a
/// zero byte. It has no tag, nor has a request for TLS.
pub proof fn lemma_startup_sent_whole(params: Seq<(Seq<char>, Seq<char>)>, version: u32)
    ensures
        FrontendView::SslRequest.tag().len() == 0,
        ({
            let message = FrontendView::Startup { params, version };
            let body = message.body();
            &&& message.tag().len() == 0
            &&& body.len() == 5 + params_bytes(params).len()
            &&& body[0] * 0x100_0000 + body[1] * 0x1_0000 + body[2] * 0x100 + body[3] == version
            &&& body.subrange(4, body.len() - 1) == params_bytes(params)
            &&& body.last() == 0
        }),
{
    let body = FrontendView::Startup { params, version }.body();
    lemma_be_bytes_add_up(version);
    assert(body.subrange(4, body.len() - 1) =~= params_bytes(params));
}

/// Two lists of parameters, put together, have the bytes of the first, then
/// those of the second.
pub proof fn lemma_params_bytes_append(
    first: Seq<(Seq<char>, Seq<char>)>,
    second: Seq<(Seq<char>, Seq<char>)>,
)
    ensures
        params_bytes(first + second) == params_bytes(first) + params_bytes(second),
    decreases second.len(),
{
    if second.len() == 0 {
        assert(first + second =~= first);
        assert(params_bytes(first) + params_bytes(second) =~= params_bytes(first));
    } else {
        lemma_params_bytes_append(first, second.drop_last());
        assert((first + second).drop_last() =~= first + second.drop_last());
        assert(params_bytes(first + second) =~= params_bytes(first) + params_bytes(second));
    }
}

/// One parameter is its whole key and its whole value, each with a zero byte
/// behind it.
pub proof fn lemma_params_bytes_one(key: Seq<char>, value: Seq<char>)
    ensures
        params_bytes(seq![(key, value)]) == encode_utf8(key) + seq![0u8] + encode_utf8(value)
            + seq![0u8],
{
    let one = seq![(key, value)];
    assert(one.drop_last() =~= Seq::<(Seq<char>, Seq<char>)>::empty());
    assert(params_bytes(one.drop_last()) =~= Seq::<u8>::empty());
    assert(params_bytes(one) =~= encode_utf8(key) + seq![0u8] + encode_utf8(value) + seq![0u8]);
}

/// The first five bytes of a message give its tag and how long its body is. They
/// are refused if the length, which counts its own four bytes, is less than
/// these, or more than a signed number holds.
pub proof fn lemma_header_read(tag: u8, b1: u8, b2: u8, b3: u8, b4: u8, length: int)
    requires
        length == b1 * 0x100_0000 + b2 * 0x1_0000 + b3 * 0x100 + b4,
    ensures
        4 <= length <= 0x7fff_ffff ==> header(tag, b1, b2, b3, b4) == Ok::<(u8, int), DecodeError>(
            (tag, length - 4),
        ),
        !(4 <= length <= 0x7fff_ffff) ==> header(tag, b1, b2, b3, b4) == Err::<
            (u8, int),
            DecodeError,
        >(DecodeError::BadLength),
{
}

/// What is read from a client keeps its tag and its whole body; only a query can
/// be refused.
pub proof fn lemma_frontend_read_whole(tag: u8, body: Seq<u8>)
    ensures
        tag != 'Q' as u8 ==> frontend_message(tag, body) is Ok,
        frontend_message(tag, body) is Err ==> frontend_message(tag, body) == Err::<
            FrontendView,
            DecodeError,
        >(DecodeError::BadBody),
        frontend_message(tag, body) matches Ok(message) ==> {
            &&& message.tag() == seq![tag]
            &&& message.body() == body
            &&& message is Query <==> tag == 'Q' as u8
            &&& message is Query || message is Other
        },
{
    if let Ok(message) = frontend_message(tag, body) {
        if message is Query {
            vstd::utf8::decode_utf8_encode_utf8(body.drop_last());
        }
        assert(message.body() =~= body);
    }
}

/// What is read from a server keeps its tag and its whole body, and is taken for
/// what its first four bytes say. It is refused only where it speaks of
/// authentication and is too short for that, or has not the length of what it
/// says.
pub proof fn lemma_backend_read_whole(tag: u8, body: Seq<u8>, code: int)
    requires
        body.len() >= 4 ==> code == body[0] * 0x100_0000 + body[1] * 0x1_0000 + body[2] * 0x100
            + body[3],
    ensures
        backend_message(tag, body) is Err <==> tag == 'R' as u8 && (body.len() < 4 || (code == 0
            || code == 3) && body.len() != 4 || code == 5 && body.len() != 8),
        backend_message(tag, body) is Err ==> backend_message(tag, body) == Err::<
            BackendView,
            DecodeError,
        >(DecodeError::BadBody),
        backend_message(tag, body) matches Ok(message) ==> {
            &&& message.tag() == tag
            &&& message.body() == body
            &&& message is AuthenticationOk <==> tag == 'R' as u8 && code == 0
            &&& message is AuthenticationCleartextPassword <==> tag == 'R' as u8 && code == 3
            &&& message is AuthenticationMD5Password <==> tag == 'R' as u8 && code == 5
            &&& message matches BackendView::AuthenticationMD5Password { salt } ==> salt
                == body.skip(4)
        },
{
    lemma_be_bytes_add_up(0);
    lemma_be_bytes_add_up(3);
    lemma_be_bytes_add_up(5);
    if let Ok(message) = backend_message(tag, body) {
        assert(message.body() =~= body);
    }
}

} // verus!
