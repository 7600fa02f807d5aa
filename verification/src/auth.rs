//! The answer to a request for an MD5-hashed password.
use md5::Digest;
use vstd::prelude::*;
use vstd::utf8::encode_utf8;

use crate::hex::{hex_text, is_hex_digit, lemma_hex_text_digits, lower_hex};

verus! {

/// The MD5 digest of `data`, as `md5::Md5` computes it.
pub uninterp spec fn md5_digest(data: Seq<u8>) -> Seq<u8>;

/// Calls `Md5::digest`, which is said to return the MD5 digest of `data`: the
/// bytes that `md5_digest` names, sixteen of them.
#[verifier::external_body]
fn digest_bytes(data: &[u8]) -> (digest: Vec<u8>)
    ensures
        digest@ == md5_digest(data@),
        digest@.len() == 16,
{
    md5::Md5::digest(data).to_vec()
}

/// What the first digest is taken of: the password, then the user's name.
pub open spec fn secret_bytes(username: Seq<char>, password: Seq<char>) -> Seq<u8> {
    encode_utf8(password) + encode_utf8(username)
}

/// What the second digest is taken of: the first in hexadecimal, then the salt.
pub open spec fn salted_bytes(inner: Seq<u8>, salt: Seq<u8>) -> Seq<u8> {
    encode_utf8(hex_text(inner)) + salt
}

/// The answer to the target: `md5`, then the second digest in hexadecimal.
pub open spec fn answer_text(outer: Seq<u8>) -> Seq<char> {
    "md5"@ + hex_text(outer)
}

/// The answer to a request for an MD5 password with `salt`.
pub open spec fn md5_password_text(
    username: Seq<char>,
    password: Seq<char>,
    salt: Seq<u8>,
) -> Seq<char> {
    answer_text(md5_digest(salted_bytes(md5_digest(secret_bytes(username, password)), salt)))
}

/// Puts the password before the user's name.
pub fn join_secret(username: &String, password: &String) -> (secret: Vec<u8>)
    ensures
        secret@ == secret_bytes(username@, password@),
{
    let mut secret: Vec<u8> = Vec::new();
    secret.extend_from_slice(password.as_str().as_bytes());
    secret.extend_from_slice(username.as_str().as_bytes());
    assert(secret@ =~= secret_bytes(username@, password@));
    secret
}

/// Puts the first digest, in hexadecimal, before the salt.
pub fn add_salt(inner: &[u8], salt: &[u8]) -> (salted: Vec<u8>)
    ensures
        salted@ == salted_bytes(inner@, salt@),
{
    let text = lower_hex(inner);
    let mut salted: Vec<u8> = Vec::new();
    salted.extend_from_slice(text.as_str().as_bytes());
    salted.extend_from_slice(salt);
    assert(salted@ =~= salted_bytes(inner@, salt@));
    salted
}

/// Writes the second digest as the target wants it.
pub fn write_answer(outer: &[u8]) -> (answer: String)
    ensures
        answer@ == answer_text(outer@),
{
    let mut answer = "md5".to_owned();
    answer.append(lower_hex(outer).as_str());
    answer
}

/// Hashes `password` as the target asks for it when it sends `salt`.
pub fn md5_password(username: &String, password: &String, salt: Vec<u8>) -> (answer: String)
    ensures
        answer@ == md5_password_text(username@, password@, salt@),
        answer@.len() == 35,
        answer@.take(3) == "md5"@,
        forall|i: int| 3 <= i < 35 ==> is_hex_digit(#[trigger] answer@[i]),
{
    let inner = digest_bytes(join_secret(username, password).as_slice());
    let outer = digest_bytes(add_salt(inner.as_slice(), salt.as_slice()).as_slice());
    proof {
        reveal_strlit("md5");
        lemma_hex_text_digits(outer@);
    }
    write_answer(outer.as_slice())
}

/// The first digest is taken of the whole password, then the whole user name,
/// and nothing else.
pub proof fn lemma_secret_is_whole(username: Seq<char>, password: Seq<char>)
    ensures
        secret_bytes(username, password).len() == encode_utf8(password).len() + encode_utf8(
            username,
        ).len(),
        secret_bytes(username, password).take(encode_utf8(password).len() as int) == encode_utf8(
            password,
        ),
        secret_bytes(username, password).skip(encode_utf8(password).len() as int) == encode_utf8(
            username,
        ),
{
    let secret = secret_bytes(username, password);
    let end = encode_utf8(password).len() as int;
    assert(secret.take(end) =~= encode_utf8(password));
    assert(secret.skip(end) =~= encode_utf8(username));
}

/// Two passwords of one user, or two users of one password, have different
/// secrets.
pub proof fn lemma_secrets_differ(
    username1: Seq<char>,
    username2: Seq<char>,
    password1: Seq<char>,
    password2: Seq<char>,
)
    requires
        secret_bytes(username1, password1) == secret_bytes(username2, password2),
    ensures
        username1 == username2 <==> password1 == password2,
{
    lemma_secret_is_whole(username1, password1);
    lemma_secret_is_whole(username2, password2);
    vstd::utf8::encode_utf8_decode_utf8(username1);
    vstd::utf8::encode_utf8_decode_utf8(username2);
    vstd::utf8::encode_utf8_decode_utf8(password1);
    vstd::utf8::encode_utf8_decode_utf8(password2);
}

/// The second digest is taken of the text of the whole first one, then the whole
/// salt, and nothing else.
pub proof fn lemma_salted_is_whole(inner: Seq<u8>, salt: Seq<u8>)
    ensures
        salted_bytes(inner, salt).len() == encode_utf8(hex_text(inner)).len() + salt.len(),
        salted_bytes(inner, salt).take(encode_utf8(hex_text(inner)).len() as int) == encode_utf8(
            hex_text(inner),
        ),
        salted_bytes(inner, salt).skip(encode_utf8(hex_text(inner)).len() as int) == salt,
{
    let salted = salted_bytes(inner, salt);
    let end = encode_utf8(hex_text(inner)).len() as int;
    assert(salted.take(end) =~= encode_utf8(hex_text(inner)));
    assert(salted.skip(end) =~= salt);
}

/// The answer is `md5` and the text of the whole second digest.
pub proof fn lemma_answer_is_whole(outer: Seq<u8>)
    ensures
        answer_text(outer).len() == 3 + 2 * outer.len(),
        answer_text(outer).take(3) == "md5"@,
        answer_text(outer).skip(3) == hex_text(outer),
{
    reveal_strlit("md5");
    assert(answer_text(outer).take(3) =~= "md5"@);
    assert(answer_text(outer).skip(3) =~= hex_text(outer));
}

/// The answer is the digest, with the salt behind it, of the digest of password
/// and user name: whoever knows how both are encoded can work it out.
pub proof fn lemma_answer_can_be_checked(
    username: Seq<char>,
    password: Seq<char>,
    salt: Seq<u8>,
    secret: Seq<u8>,
    salted: Seq<u8>,
)
    requires
        secret == encode_utf8(password) + encode_utf8(username),
        salted == encode_utf8(hex_text(md5_digest(secret))) + salt,
    ensures
        md5_password_text(username, password, salt) == "md5"@ + hex_text(md5_digest(salted)),
{
    lemma_secret_is_whole(username, password);
    assert(secret_bytes(username, password) =~= secret);
    assert(salted_bytes(md5_digest(secret), salt) =~= salted);
}

} // verus!
