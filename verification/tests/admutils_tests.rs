use muscl::muscl_core::database_privileges::base::DatabasePrivilegeRow;
use muscl::muscl_core::protocol::commands::{
    CreateDatabaseError, CreateUserError, DropDatabaseError, DropUserError,
    GetDatabasesPrivilegeDataError, ListUsersError,
};
use muscl::muscl_core::protocol::request_validation::{
    AuthorizationError, NameValidationError, OwnerValidationError,
};
use muscl::muscl_core::types::{DbOrUser, MySQLDatabase, MySQLUser};
use muscl::mysql_admutils_compatibility::{
    authorization_error_message, create_database_error_message, create_user_error_message,
    drop_database_error_message, drop_user_error_message, format_db_privs,
    format_show_database_error_message, list_users_error_message,
    name_validation_error_to_error_message, trim_db_name_to_32_chars, trim_to_32_chars,
    trim_user_name_to_32_chars,
};

#[test]
fn names_are_cut_to_32_characters() {
    assert_eq!(trim_to_32_chars("short"), "short");
    let long = "x".repeat(40);
    assert_eq!(trim_to_32_chars(&long), "x".repeat(32));
    assert_eq!(trim_to_32_chars("æøå"), "æøå");
    assert_eq!(trim_db_name_to_32_chars(&MySQLDatabase::from(long.as_str())), MySQLDatabase::from("x".repeat(32).as_str()));
    assert_eq!(trim_user_name_to_32_chars(&MySQLUser::from("u")), MySQLUser::from("u"));
}

#[test]
fn admutils_messages() {
    let d = DbOrUser::Database(MySQLDatabase::from("a b"));
    assert_eq!(
        name_validation_error_to_error_message(&d, None),
        "mysql-dbadm: Database name 'a b' contains invalid characters.\nOnly A-Z, a-z, 0-9, _ (underscore) and - (dash) permitted. Skipping."
    );
    assert_eq!(
        name_validation_error_to_error_message(&DbOrUser::User(MySQLUser::from("u")), Some("prog")),
        "prog: User name 'u' contains invalid characters.\nOnly A-Z, a-z, 0-9, _ (underscore) and - (dash) permitted. Skipping."
    );
    assert_eq!(authorization_error_message(&d), "You are not in charge of mysql-database: 'a b'.  Skipping.");
    assert_eq!(
        create_user_error_message(&CreateUserError::UserAlreadyExists, "u", None),
        "mysql-useradm: Failed to create user 'u'."
    );
    assert_eq!(
        drop_user_error_message(&DropUserError::AuthorizationError(AuthorizationError::OwnershipError(OwnerValidationError::NoMatch)), "u", None),
        "You are not in charge of mysql-user: 'u'.  Skipping."
    );
    assert_eq!(
        list_users_error_message(&ListUsersError::UserDoesNotExist, "u", Some("x")),
        "x: User 'u' does not exist. You must create it first."
    );
    assert_eq!(
        create_database_error_message(&CreateDatabaseError::DatabaseAlreadyExists, "d", None),
        "mysql-dbadm: Database 'd' already exists."
    );
    assert_eq!(
        drop_database_error_message(&DropDatabaseError::SanitizationError(NameValidationError::InvalidCharacters), "d d", None),
        "mysql-dbadm: Database name 'd d' contains invalid characters.\nOnly A-Z, a-z, 0-9, _ (underscore) and - (dash) permitted. Skipping."
    );
    assert_eq!(
        format_show_database_error_message(&GetDatabasesPrivilegeDataError::MySqlError("gone".to_string()), "d", None),
        "mysql-dbadm: Failed to look up privileges for database 'd': gone"
    );
}

#[test]
fn db_privs_listing() {
    assert_eq!(
        format_db_privs("d", &[]),
        "Database 'd':\n# User                Select  Insert  Update  Delete  Create   Drop   Alter   Index    Temp    Lock  References\n# ----------------    ------  ------  ------  ------  ------   ----   -----   -----    ----    ----  ----------\n# (no permissions currently granted to any users)\n"
    );
    let r = DatabasePrivilegeRow::from_privileges(MySQLDatabase::from("d"), MySQLUser::from("u"), &[true, false, true, false, true, false, true, false, true, false, true]);
    let text = format_db_privs("d", &[r]);
    assert!(text.ends_with("  u                     Y       N       Y       N       Y       N       Y       N       Y       N       Y\n"));
}
