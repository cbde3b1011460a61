use muscl::muscl_core::common::UnixUser;
use muscl::muscl_core::database_privileges::base::DatabasePrivilegeRow;
use muscl::muscl_core::database_privileges::diff::{DatabasePrivilegeChange, DatabasePrivilegeRowDiff};
use muscl::muscl_core::protocol::commands::{
    CheckAuthorizationError, CreateDatabaseError, CreateUserError, DiffDoesNotApplyError,
    DropDatabaseError, DropUserError, GetAllDatabasesPrivilegeDataError,
    GetDatabasesPrivilegeDataError, ListAllDatabasesError, ListAllPrivilegesError,
    ListAllUsersError, ListDatabasesError, ListUsersError, LockUserError,
    ModifyDatabasePrivilegesError, SetPasswordError, UnlockUserError,
};
use muscl::muscl_core::protocol::request_validation::{
    AuthorizationError, NameValidationError, OwnerValidationError,
};
use muscl::muscl_core::types::{DbOrUser, MySQLDatabase, MySQLUser};

fn db(s: &str) -> MySQLDatabase {
    MySQLDatabase::from(s)
}

fn user(s: &str) -> MySQLUser {
    MySQLUser::from(s)
}

#[test]
fn list_all_errors() {
    let e = ListAllDatabasesError::MySqlError("boom".to_string());
    assert_eq!(e.to_error_message(), "MySQL error: boom");
    assert_eq!(e.error_type(), "mysql-error");
    assert_eq!(ListAllPrivilegesError::MySqlError("x".to_string()).to_error_message(), "MySQL error: x");
    assert_eq!(ListAllPrivilegesError::MySqlError("x".to_string()).error_type(), "mysql-error");
    assert_eq!(ListAllUsersError::MySqlError("y".to_string()).to_error_message(), "MySQL error: y");
    assert_eq!(ListAllUsersError::MySqlError("y".to_string()).error_type(), "mysql-error");
    assert_eq!(GetAllDatabasesPrivilegeDataError::MySqlError("z".to_string()).to_error_message(), "MySQL error: z");
}

#[test]
fn database_errors() {
    let name = db("a_db");
    assert_eq!(CreateDatabaseError::DatabaseAlreadyExists.to_error_message(&name, None), "Database a_db already exists.");
    assert_eq!(
        CreateDatabaseError::SanitizationError(NameValidationError::EmptyString).to_error_message(&name, None),
        "Database name cannot be empty."
    );
    assert_eq!(CreateDatabaseError::MySqlError("e".to_string()).to_error_message(&name, None), "MySQL error: e");
    assert_eq!(DropDatabaseError::DatabaseDoesNotExist.to_error_message(&name, None), "Database a_db does not exist.");
    assert_eq!(DropDatabaseError::DatabaseDoesNotExist.error_type(), "database-does-not-exist");
    assert_eq!(DropDatabaseError::SanitizationError(NameValidationError::TooLong).error_type(), "sanitization-error");
    assert_eq!(DropDatabaseError::OwnershipError(OwnerValidationError::NoMatch).error_type(), "ownership-error");
    assert_eq!(DropDatabaseError::MySqlError(String::new()).error_type(), "mysql-error");
    assert_eq!(
        GetDatabasesPrivilegeDataError::DatabaseDoesNotExist.to_error_message(&name, None),
        "Database 'a_db' does not exist."
    );
    assert_eq!(GetDatabasesPrivilegeDataError::DatabaseDoesNotExist.error_type(), "database-does-not-exist");
    assert_eq!(ListDatabasesError::DatabaseDoesNotExist.to_error_message(&name, None), "Database 'a_db' does not exist.");
    assert_eq!(ListDatabasesError::DatabaseDoesNotExist.error_type(), "database-does-not-exist");
    assert_eq!(
        ListDatabasesError::ValidationError(AuthorizationError::SanitizationError(NameValidationError::EmptyString)).error_type(),
        "sanitization-error/empty-string"
    );
}

#[test]
fn user_errors() {
    let name = user("a_user");
    assert_eq!(CreateUserError::UserAlreadyExists.to_error_message(&name, None), "User 'a_user' already exists.");
    assert_eq!(DropUserError::UserDoesNotExist.to_error_message(&name, None), "User 'a_user' does not exist.");
    assert_eq!(DropUserError::UserDoesNotExist.error_type(), "user-does-not-exist");
    assert_eq!(DropUserError::MySqlError("m".to_string()).error_type(), "mysql-error");
    assert_eq!(
        DropUserError::AuthorizationError(AuthorizationError::OwnershipError(OwnerValidationError::NoMatch)).error_type(),
        "ownership-error/no-match"
    );
    assert_eq!(ListUsersError::UserDoesNotExist.to_error_message(&name, None), "User 'a_user' does not exist.");
    assert_eq!(ListUsersError::UserDoesNotExist.error_type(), "user-does-not-exist");
    assert_eq!(SetPasswordError::MySqlError("q".to_string()).to_error_message(&name, None), "MySQL error: q");
    assert_eq!(SetPasswordError::UserDoesNotExist.error_type(), "user-does-not-exist");
    assert_eq!(LockUserError::UserIsAlreadyLocked.to_error_message(&name, None), "User 'a_user' is already locked.");
    assert_eq!(LockUserError::UserDoesNotExist.to_error_message(&name, None), "User 'a_user' does not exist.");
    assert_eq!(UnlockUserError::UserIsAlreadyUnlocked.to_error_message(&name, None), "User 'a_user' is already unlocked.");
    assert_eq!(UnlockUserError::UserIsAlreadyUnlocked.error_type(), "user-is-already-unlocked");
    assert_eq!(
        UnlockUserError::ValidationError(AuthorizationError::SanitizationError(NameValidationError::TooLong))
            .to_error_message(&name, None),
        "User is too long. Maximum length is 64 characters."
    );
}

#[test]
fn check_authorization_error() {
    let e = CheckAuthorizationError(AuthorizationError::OwnershipError(OwnerValidationError::StringEmpty));
    let d = DbOrUser::Database(db(""));
    assert_eq!(e.to_error_message(&d, None), "'' is not a valid database name.");
    assert_eq!(e.error_type(), "ownership-error/string-empty");
}

#[test]
fn modify_privileges_errors() {
    let d = db("a_db");
    let u = user("a_user");
    let exists = DiffDoesNotApplyError::RowAlreadyExists(db("a_db"), user("a_user"));
    assert_eq!(exists.to_error_message(), "Privileges for user 'a_user' on database 'a_db' already exist.");
    assert_eq!(exists.error_type(), "row-already-exists");
    let missing = DiffDoesNotApplyError::RowDoesNotExist(db("a_db"), user("a_user"));
    assert_eq!(missing.to_error_message(), "Privileges for user 'a_user' on database 'a_db' do not exist.");
    let change = DiffDoesNotApplyError::RowPrivilegeChangeDoesNotApply(
        DatabasePrivilegeRowDiff { db: db("a_db"), user: user("a_user"), ..Default::default() },
        DatabasePrivilegeRow::from_privileges(db("a_db"), user("a_user"), &[false; 11]),
    );
    let text = change.to_error_message();
    assert!(text.starts_with("Could not apply privilege change DatabasePrivilegeRowDiff {"));
    assert!(text.contains(" to row DatabasePrivilegeRow {"));
    if let DiffDoesNotApplyError::RowPrivilegeChangeDoesNotApply(dd, rr) = &change {
        assert_eq!(text, format!("Could not apply privilege change {dd:?} to row {rr:?}"));
    }
    let mut mixed = DatabasePrivilegeRowDiff { db: db("q\"d"), user: user("u\n"), ..Default::default() };
    mixed.select_priv = Some(DatabasePrivilegeChange::YesToNo);
    mixed.references_priv = Some(DatabasePrivilegeChange::NoToYes);
    let mut row = DatabasePrivilegeRow::from_privileges(db("q\"d"), user("u\n"), &[false; 11]);
    row.insert_priv = true;
    let expected = format!("Could not apply privilege change {mixed:?} to row {row:?}");
    let mixed_error = DiffDoesNotApplyError::RowPrivilegeChangeDoesNotApply(mixed, row);
    assert_eq!(mixed_error.to_error_message(), expected);
    assert_eq!(change.error_type(), "row-privilege-change-does-not-apply");
    let e = ModifyDatabasePrivilegesError::DiffDoesNotApply(missing);
    assert_eq!(
        e.to_error_message(&d, &u, None),
        "Could not apply privilege change:\nPrivileges for user 'a_user' on database 'a_db' do not exist."
    );
    assert_eq!(e.error_type(), "diff-does-not-apply/row-does-not-exist");
    let v = ModifyDatabasePrivilegesError::UserValidationError(AuthorizationError::SanitizationError(
        NameValidationError::EmptyString,
    ));
    assert_eq!(v.error_type(), "sanitization-error/empty-string/user");
    assert_eq!(v.to_error_message(&d, &u, None), "User name cannot be empty.");
    assert_eq!(ModifyDatabasePrivilegesError::UserDoesNotExist.to_error_message(&d, &u, None), "User 'a_user' does not exist.");
    assert_eq!(ModifyDatabasePrivilegesError::DatabaseDoesNotExist.error_type(), "database-does-not-exist");
}

#[test]
fn ownership_message_uses_the_given_user() {
    let who = UnixUser { username: "carol".to_string(), groups: vec![] };
    let msg = CreateDatabaseError::OwnershipError(OwnerValidationError::NoMatch).to_error_message(&db("x_db"), Some(&who));
    assert!(msg.contains("Allowed prefixes:\n  - carol\n"));
}
