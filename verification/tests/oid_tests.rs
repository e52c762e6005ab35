use gitflow_core::oid::{check_commit_hash, short_hash};

#[test]
fn a_full_hash_is_kept_in_lower_case() {
    let full = "0123456789ABCDEFabcdef0123456789abcdef01";
    assert_eq!(
        check_commit_hash(full),
        Ok("0123456789abcdefabcdef0123456789abcdef01".to_string())
    );
}

#[test]
fn an_abbreviated_hash_is_padded_with_zeros() {
    assert_eq!(
        check_commit_hash("ABC1234"),
        Ok("abc1234000000000000000000000000000000000".to_string())
    );
    assert_eq!(
        check_commit_hash("f"),
        Ok("f000000000000000000000000000000000000000".to_string())
    );
}

#[test]
fn what_is_no_hash_is_refused_with_its_text() {
    assert_eq!(check_commit_hash(""), Err("Invalid commit hash: ".to_string()));
    assert_eq!(check_commit_hash("xyz"), Err("Invalid commit hash: xyz".to_string()));
    assert_eq!(check_commit_hash("12 34"), Err("Invalid commit hash: 12 34".to_string()));
    let long = "0123456789abcdef0123456789abcdef012345678";
    assert_eq!(long.len(), 41);
    assert_eq!(check_commit_hash(long), Err(format!("Invalid commit hash: {}", long)));
    assert!(check_commit_hash("abcdefg").is_err());
    assert!(check_commit_hash("é").is_err());
}

#[test]
fn short_hash_is_the_first_seven_characters() {
    assert_eq!(short_hash("0123456789abcdef"), "0123456");
    assert_eq!(short_hash("abc"), "abc");
}
