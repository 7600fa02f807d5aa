use inspektor::auth::{add_salt, join_secret, md5_password, write_answer};
use inspektor::hex::lower_hex;

#[test]
fn hashes_as_postgresql_does() {
    let answer = md5_password(
        &"postgres".to_string(),
        &"secret".to_string(),
        vec![1, 2, 3, 4],
    );
    assert_eq!(answer, "md5bb41a296aab6baccb36ff243a562abff");
}

#[test]
fn hashed_password_has_its_shape() {
    let answer = md5_password(&String::new(), &String::new(), vec![]);
    assert_eq!(answer.len(), 35);
    assert_eq!(&answer[..3], "md5");
    assert!(answer[3..]
        .chars()
        .all(|c| matches!(c, '0'..='9' | 'a'..='f')));
    assert_eq!(answer, "md574be16979710d4c4e7c6647856088456");
}

#[test]
fn password_comes_before_username_in_the_hash() {
    let one = md5_password(&"a".to_string(), &"b".to_string(), vec![9, 9, 9, 9]);
    let other = md5_password(&"b".to_string(), &"a".to_string(), vec![9, 9, 9, 9]);
    assert_ne!(one, other);
    let split = md5_password(&"c".to_string(), &"ab".to_string(), vec![9, 9, 9, 9]);
    let moved = md5_password(&"bc".to_string(), &"a".to_string(), vec![9, 9, 9, 9]);
    assert_eq!(split, moved);
}

#[test]
fn hexadecimal_is_lower_case_and_high_half_first() {
    assert_eq!(lower_hex(&[]), "");
    assert_eq!(lower_hex(&[10, 20, 30]), "0a141e");
    assert_eq!(lower_hex(&[0, 255, 0xab]), "00ffab");
}

#[test]
fn the_parts_of_the_hash_are_put_together() {
    assert_eq!(
        join_secret(&"ann".to_string(), &"pw".to_string()),
        b"pwann".to_vec()
    );
    assert_eq!(add_salt(&[0x0a, 0xff], &[1, 2]), b"0aff\x01\x02".to_vec());
    assert_eq!(write_answer(&[0x12, 0xef]), "md512ef");
}
