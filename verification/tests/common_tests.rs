use muscl::muscl_core::common::{executing_in_suid_sgid_mode, rev_yn, yn, UnixUser};

#[test]
fn test_yn() {
    assert_eq!(yn(true), "Y");
    assert_eq!(yn(false), "N");
}

#[test]
fn test_rev_yn() {
    assert_eq!(rev_yn("Y"), Some(true));
    assert_eq!(rev_yn("y"), Some(true));
    assert_eq!(rev_yn("N"), Some(false));
    assert_eq!(rev_yn("n"), Some(false));
    assert_eq!(rev_yn("X"), None);
}

#[test]
fn rev_yn_reads_back_yn() {
    assert_eq!(rev_yn(yn(true)), Some(true));
    assert_eq!(rev_yn(yn(false)), Some(false));
}

#[test]
fn rev_yn_rejects_longer_words() {
    assert_eq!(rev_yn("yes"), None);
    assert_eq!(rev_yn(""), None);
    assert_eq!(rev_yn("NN"), None);
}

#[test]
fn suid_sgid_mode_when_ids_differ() {
    assert_eq!(executing_in_suid_sgid_mode(1000, 1000, 100, 100), Ok(false));
    assert_eq!(executing_in_suid_sgid_mode(0, 1000, 100, 100), Ok(true));
    assert_eq!(executing_in_suid_sgid_mode(1000, 1000, 0, 100), Ok(true));
}

#[test]
fn unix_user_displays_its_name() {
    let user = UnixUser { username: "alice".to_string(), groups: vec!["staff".to_string()] };
    assert_eq!(user.to_display_string(), "alice");
    let copy = user.clone();
    assert_eq!(copy.username, "alice");
    assert_eq!(copy.groups, vec!["staff".to_string()]);
}
