use muscl::muscl_core::common::UnixUser;
use muscl::muscl_core::protocol::request_validation::{
    validate_database_name, validate_db_or_user_request, validate_name,
    validate_ownership_by_prefixes, validate_user_name, AuthorizationError, NameValidationError,
    OwnerValidationError,
};
use muscl::muscl_core::types::{DbOrUser, MySQLDatabase, MySQLUser};

fn alice() -> UnixUser {
    UnixUser {
        username: "alice".to_string(),
        groups: vec!["staff".to_string(), "alice".to_string(), "admins".to_string()],
    }
}

#[test]
fn names_are_checked() {
    assert_eq!(validate_name("alice_db"), Ok(()));
    assert_eq!(validate_name("a-b_C9"), Ok(()));
    assert_eq!(validate_name(""), Err(NameValidationError::EmptyString));
    assert_eq!(validate_name("bad name"), Err(NameValidationError::InvalidCharacters));
    assert_eq!(validate_name("semi;colon"), Err(NameValidationError::InvalidCharacters));
    assert_eq!(validate_name(&"a".repeat(64)), Ok(()));
    assert_eq!(validate_name(&"a".repeat(65)), Err(NameValidationError::TooLong));
}

#[test]
fn ownership_is_by_prefix_and_underscore() {
    let prefixes = vec!["alice".to_string(), "staff".to_string()];
    assert_eq!(validate_ownership_by_prefixes("alice_db", &prefixes), Ok(()));
    assert_eq!(validate_ownership_by_prefixes("staff_x", &prefixes), Ok(()));
    assert_eq!(validate_ownership_by_prefixes("alicedb", &prefixes), Err(OwnerValidationError::NoMatch));
    assert_eq!(validate_ownership_by_prefixes("alice", &prefixes), Err(OwnerValidationError::NoMatch));
    assert_eq!(validate_ownership_by_prefixes("bob_db", &prefixes), Err(OwnerValidationError::NoMatch));
    assert_eq!(validate_ownership_by_prefixes("", &prefixes), Err(OwnerValidationError::StringEmpty));
}

#[test]
fn requests_are_authorized_for_own_prefixes() {
    let user = alice();
    let ok = DbOrUser::Database(MySQLDatabase::from("admins_db"));
    assert_eq!(validate_db_or_user_request(&ok, &user), Ok(()));
    let theirs = DbOrUser::User(MySQLUser::from("bob_user"));
    assert_eq!(
        validate_db_or_user_request(&theirs, &user),
        Err(AuthorizationError::OwnershipError(OwnerValidationError::NoMatch))
    );
    let bad = DbOrUser::User(MySQLUser::from("alice_bad name"));
    assert_eq!(
        validate_db_or_user_request(&bad, &user),
        Err(AuthorizationError::SanitizationError(NameValidationError::InvalidCharacters))
    );
    assert_eq!(validate_database_name("alice_db", &user), Ok(()));
    assert_eq!(validate_user_name("staff_user", &user), Ok(()));
    assert_eq!(
        validate_user_name("", &user),
        Err(AuthorizationError::SanitizationError(NameValidationError::EmptyString))
    );
}

#[test]
fn name_error_messages() {
    let db = DbOrUser::Database(MySQLDatabase::from("x y"));
    assert_eq!(NameValidationError::EmptyString.to_error_message(db.clone()), "Database name cannot be empty.");
    assert_eq!(
        NameValidationError::TooLong.to_error_message(DbOrUser::User(MySQLUser::from("u"))),
        "User is too long. Maximum length is 64 characters."
    );
    assert_eq!(
        NameValidationError::InvalidCharacters.to_error_message(db),
        "Invalid characters in database name: 'x y'\n\nOnly A-Z, a-z, 0-9, _ (underscore) and - (dash) are permitted.\n"
    );
    assert_eq!(NameValidationError::EmptyString.error_type(), "empty-string");
    assert_eq!(NameValidationError::InvalidCharacters.error_type(), "invalid-characters");
    assert_eq!(NameValidationError::TooLong.error_type(), "too-long");
}

#[test]
fn owner_error_messages_list_sorted_groups() {
    let user = alice();
    let d = DbOrUser::Database(MySQLDatabase::from("bob_db"));
    assert_eq!(
        OwnerValidationError::NoMatch.to_error_message(d.clone(), Some(&user)),
        "Invalid database name prefix: 'bob_db' does not match your username or any of your groups.\n\
Are you sure you are allowed to create database names with this prefix?\n\
The format should be: <prefix>_<database name>\n\
\n\
Allowed prefixes:\n  - alice\n  - admins\n  - staff\n"
    );
    assert_eq!(
        OwnerValidationError::NoMatch.to_error_message(d.clone(), None),
        "Invalid database name prefix: 'bob_db' does not match your username or any of your groups.\n\
Are you sure you are allowed to create database names with this prefix?\n\
The format should be: <prefix>_<database name>\n\
\n\
Allowed prefixes:\n  - ???\n\n"
    );
    assert_eq!(
        OwnerValidationError::StringEmpty.to_error_message(DbOrUser::User(MySQLUser::from("")), None),
        "'' is not a valid user name."
    );
    assert_eq!(OwnerValidationError::NoMatch.error_type(), "no-match");
    assert_eq!(OwnerValidationError::StringEmpty.error_type(), "string-empty");
}

#[test]
fn authorization_error_tags_and_messages() {
    let e = AuthorizationError::SanitizationError(NameValidationError::TooLong);
    assert_eq!(e.error_type(), "sanitization-error/too-long");
    let o = AuthorizationError::OwnershipError(OwnerValidationError::StringEmpty);
    assert_eq!(o.error_type(), "ownership-error/string-empty");
    assert_eq!(
        e.to_error_message(DbOrUser::User(MySQLUser::from("u")), None),
        "User is too long. Maximum length is 64 characters."
    );
}
