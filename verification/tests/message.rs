use inspektor::message::{
    decode_backend_message, decode_header, BackendMessage, DecodeError, FrontendMessage, VERSION_3,
};
use inspektor::params::Params;

fn query(text: &str) -> FrontendMessage {
    FrontendMessage::Query {
        query_string: text.to_string(),
    }
}

fn header_of(bytes: &[u8]) -> [u8; 5] {
    [bytes[0], bytes[1], bytes[2], bytes[3], bytes[4]]
}

#[test]
fn a_request_for_tls_has_its_bytes() {
    let bytes = FrontendMessage::SslRequest.encode().unwrap();
    assert_eq!(bytes, vec![0, 0, 0, 8, 4, 210, 22, 47]);
}

#[test]
fn a_startup_message_has_its_bytes() {
    let mut params = Params::new();
    params.insert("user".to_string(), "ann".to_string());
    params.insert("database".to_string(), "db".to_string());
    let bytes = FrontendMessage::Startup {
        params,
        version: VERSION_3,
    }
    .encode()
    .unwrap();
    let mut expected = vec![0, 0, 0, 30, 0, 3, 0, 0];
    expected.extend_from_slice(b"user\0ann\0database\0db\0\0");
    assert_eq!(bytes, expected);
}

#[test]
fn a_password_has_its_bytes() {
    let bytes = FrontendMessage::PasswordMessage {
        password: "pw".to_string(),
    }
    .encode()
    .unwrap();
    assert_eq!(bytes, b"p\0\0\0\x07pw\0".to_vec());
}

#[test]
fn a_query_is_read_back_from_its_bytes() {
    let bytes = query("select 'é'").encode().unwrap();
    let (tag, length) = decode_header(header_of(&bytes)).unwrap();
    assert_eq!(tag, b'Q');
    assert_eq!(length, bytes.len() - 5);
    match FrontendMessage::decode(tag, bytes[5..].to_vec()).unwrap() {
        FrontendMessage::Query { query_string } => assert_eq!(query_string, "select 'é'"),
        _ => panic!("no query"),
    }
}

#[test]
fn any_other_message_keeps_its_bytes() {
    let bytes = b"B\0\0\0\x08\x01\x02\0\xff".to_vec();
    let (tag, length) = decode_header(header_of(&bytes)).unwrap();
    assert_eq!(length, 4);
    let message = FrontendMessage::decode(tag, bytes[5..].to_vec()).unwrap();
    assert!(matches!(message, FrontendMessage::Other { tag: b'B', .. }));
    assert_eq!(message.encode().unwrap(), bytes);
}

#[test]
fn a_bad_length_is_refused() {
    assert_eq!(decode_header([b'Q', 0, 0, 0, 3]), Err(DecodeError::BadLength));
    assert_eq!(
        decode_header([b'Q', 128, 0, 0, 0]),
        Err(DecodeError::BadLength)
    );
    assert_eq!(decode_header([b'X', 0, 0, 0, 4]), Ok((b'X', 0)));
    assert_eq!(decode_header([b'Q', 0, 0, 1, 4]), Ok((b'Q', 256)));
}

#[test]
fn a_bad_query_body_is_refused() {
    for body in [
        b"".to_vec(),
        b"select 1".to_vec(),
        b"select\0 1\0".to_vec(),
        b"\xff\0".to_vec(),
    ] {
        assert_eq!(
            FrontendMessage::decode(b'Q', body).err(),
            Some(DecodeError::BadBody)
        );
    }
}

#[test]
fn authentication_is_read_back_from_its_bytes() {
    for message in [
        BackendMessage::AuthenticationOk,
        BackendMessage::AuthenticationCleartextPassword,
        BackendMessage::AuthenticationMD5Password {
            salt: vec![1, 2, 3, 4],
        },
    ] {
        let bytes = message.encode().unwrap();
        let (tag, length) = decode_header(header_of(&bytes)).unwrap();
        assert_eq!(length, bytes.len() - 5);
        let read = decode_backend_message(tag, bytes[5..].to_vec()).unwrap();
        assert_eq!(format!("{:?}", read), format!("{:?}", message));
    }
    assert_eq!(
        BackendMessage::AuthenticationOk.encode().unwrap(),
        vec![b'R', 0, 0, 0, 8, 0, 0, 0, 0]
    );
}

#[test]
fn a_bad_authentication_body_is_refused() {
    for body in [
        vec![],
        vec![0, 0, 0],
        vec![0, 0, 0, 0, 1],
        vec![0, 0, 0, 3, 1],
        vec![0, 0, 0, 5, 1, 2, 3],
    ] {
        assert_eq!(
            decode_backend_message(b'R', body).err(),
            Some(DecodeError::BadBody)
        );
    }
}

#[test]
fn other_backend_messages_are_kept_whole() {
    for (tag, body) in [(b'R', vec![0, 0, 0, 10, 7]), (b'E', vec![1, 2])] {
        match decode_backend_message(tag, body.clone()).unwrap() {
            BackendMessage::Other { tag: t, body: b } => {
                assert_eq!(t, tag);
                assert_eq!(b, body);
            }
            _ => panic!("not kept"),
        }
    }
}
