use muscl::muscl_core::database_privileges::diff::DatabasePrivilegesDiff;
use muscl::muscl_core::database_privileges::base::DatabasePrivilegeRow;
use muscl::muscl_core::protocol::commands::{
    CheckAuthorizationError, CreateDatabaseError, GetDatabasesPrivilegeDataError,
    ListDatabasesError, ListUsersError, ModifyDatabasePrivilegesError, SetPasswordError,
    UnlockUserError,
};
use muscl::muscl_core::protocol::output::{
    authorization_owner_hint, check_authorization_output_status, create_databases_output_status,
    list_databases_output_status, list_privileges_output_status, list_users_output_status,
    modify_database_privileges_output_status, set_password_output_status,
    unlock_users_output_status, keep_existing_diffs, group_privileges_by_database, DatabaseRow, DatabaseUser, OutputLine,
};
use muscl::muscl_core::protocol::request_validation::{AuthorizationError, OwnerValidationError};
use muscl::muscl_core::types::{DbOrUser, MySQLDatabase, MySQLUser};

fn out(s: &str) -> OutputLine {
    OutputLine::Stdout(s.to_string())
}

fn err(s: &str) -> OutputLine {
    OutputLine::Stderr(s.to_string())
}

#[test]
fn create_databases_report() {
    let output = vec![
        (MySQLDatabase::from("a_db"), Ok(())),
        (MySQLDatabase::from("b_db"), Err(CreateDatabaseError::DatabaseAlreadyExists)),
    ];
    assert_eq!(
        create_databases_output_status(&output, None),
        vec![
            out("Database 'a_db' created successfully.\n"),
            out("\n"),
            out("Database b_db already exists.\n"),
            out("Skipping...\n"),
            out("\n"),
        ]
    );
}

#[test]
fn unlock_users_report_to_stderr() {
    let output = vec![(MySQLUser::from("a_u"), Err(UnlockUserError::UserIsAlreadyUnlocked))];
    assert_eq!(
        unlock_users_output_status(&output, None),
        vec![err("User 'a_u' is already unlocked.\n"), err("Skipping...\n"), out("\n")]
    );
}

#[test]
fn check_authorization_report() {
    let output = vec![
        (DbOrUser::User(MySQLUser::from("a_u")), Ok(())),
        (
            DbOrUser::Database(MySQLDatabase::from("")),
            Err(CheckAuthorizationError(AuthorizationError::OwnershipError(OwnerValidationError::StringEmpty))),
        ),
    ];
    assert_eq!(
        check_authorization_output_status(&output, None),
        vec![out("'a_u': OK\n"), err("'': '' is not a valid database name.\n")]
    );
}

#[test]
fn modify_and_password_reports() {
    let output = vec![
        ((MySQLDatabase::from("d"), MySQLUser::from("u")), Ok(())),
        ((MySQLDatabase::from("d"), MySQLUser::from("v")), Err(ModifyDatabasePrivilegesError::UserDoesNotExist)),
    ];
    assert_eq!(
        modify_database_privileges_output_status(&output, None),
        vec![
            out("Privileges for user 'u' on database 'd' modified successfully.\n"),
            out("\n"),
            err("User 'v' does not exist.\n"),
            err("Skipping...\n"),
            out("\n"),
        ]
    );
    assert_eq!(
        set_password_output_status(&Ok(()), &MySQLUser::from("u"), None),
        vec![out("Password for user 'u' set successfully.\n")]
    );
    assert_eq!(
        set_password_output_status(&Err(SetPasswordError::UserDoesNotExist), &MySQLUser::from("u"), None),
        vec![out("User 'u' does not exist.\n"), out("Skipping...\n")]
    );
}

#[test]
fn listings_when_empty_or_failing() {
    let dbs = vec![(MySQLDatabase::from("x"), Err(ListDatabasesError::DatabaseDoesNotExist))];
    assert_eq!(
        list_databases_output_status(&dbs, false, None),
        vec![err("Database 'x' does not exist.\n"), err("Skipping...\n"), out("No databases to show.\n")]
    );
    let users: Vec<(MySQLUser, Result<DatabaseUser, ListUsersError>)> = vec![];
    assert_eq!(list_users_output_status(&users, None), vec![out("No users to show.\n")]);
    let privs = vec![(MySQLDatabase::from("x"), Err(GetDatabasesPrivilegeDataError::DatabaseDoesNotExist))];
    assert_eq!(
        list_privileges_output_status(&privs, None),
        vec![err("Database 'x' does not exist.\n"), err("Skipping...\n"), out("No privileges to show.\n")]
    );
}

#[test]
fn listings_draw_tables() {
    let row = DatabaseRow {
        database: MySQLDatabase::from("a_db"),
        tables: vec!["t1".to_string(), "t2".to_string()],
        users: vec![MySQLUser::from("a_u")],
        collation: None,
        character_set: Some("utf8mb4".to_string()),
        size_bytes: 2_500_000,
    };
    let lines = list_databases_output_status(&[(MySQLDatabase::from("a_db"), Ok(row))], false, None);
    assert_eq!(lines.len(), 1);
    match &lines[0] {
        OutputLine::Stdout(t) => {
            assert!(t.contains("Character Set"));
            assert!(t.contains("N/A"));
            assert!(t.contains("utf8mb4"));
            assert!(t.contains("2.50 MB"));
            assert!(t.contains("t1"));
            assert!(t.contains("t2"));
        }
        other => panic!("unexpected {other:?}"),
    }
    let row = DatabaseRow {
        database: MySQLDatabase::from("a_db"),
        tables: vec![],
        users: vec![],
        collation: Some("c".to_string()),
        character_set: None,
        size_bytes: 1234,
    };
    let lines = list_databases_output_status(&[(MySQLDatabase::from("a_db"), Ok(row))], true, None);
    match &lines[0] {
        OutputLine::Stdout(t) => {
            assert!(t.contains("Size (Bytes)"));
            assert!(t.contains("1234"));
        }
        other => panic!("unexpected {other:?}"),
    }
    let u = DatabaseUser {
        user: MySQLUser::from("a_u"),
        host: "%".to_string(),
        has_password: true,
        is_locked: false,
        databases: vec!["a_db".to_string()],
    };
    let lines = list_users_output_status(&[(MySQLUser::from("a_u"), Ok(u))], None);
    match &lines[0] {
        OutputLine::Stdout(t) => {
            assert!(t.contains("Password is set"));
            assert!(t.contains("true"));
            assert!(t.contains("false"));
        }
        other => panic!("unexpected {other:?}"),
    }
    let r = DatabasePrivilegeRow::from_privileges(MySQLDatabase::from("a_db"), MySQLUser::from("a_u"), &[true; 11]);
    let lines = list_privileges_output_status(&[(MySQLDatabase::from("a_db"), Ok(vec![r]))], None);
    match &lines[0] {
        OutputLine::Stdout(t) => {
            assert!(t.contains("References"));
            assert!(t.contains("a_u"));
        }
        other => panic!("unexpected {other:?}"),
    }
}

#[test]
fn owner_hint_lists_prefixes() {
    assert_eq!(
        authorization_owner_hint(&["alice".to_string(), "staff".to_string()]),
        "Note: You are allowed to manage databases and users with the following prefixes:\n - alice\n - staff"
    );
}

#[test]
fn diffs_on_missing_names_are_skipped() {
    let new = |d: &str, u: &str| {
        DatabasePrivilegesDiff::New(DatabasePrivilegeRow::from_privileges(d.into(), u.into(), &[true; 11]))
    };
    let diffs = vec![new("a_db", "a_u"), new("gone_db", "a_u"), new("a_db", "gone_u")];
    let dbs = vec![(MySQLDatabase::from("a_db"), true), (MySQLDatabase::from("gone_db"), false)];
    let users = vec![(MySQLUser::from("a_u"), true), (MySQLUser::from("gone_u"), false)];
    let (kept, lines) = keep_existing_diffs(&diffs, &dbs, &users);
    assert_eq!(kept, vec![new("a_db", "a_u")]);
    assert_eq!(
        lines,
        vec![
            out("Database 'gone_db' does not exist.\n"),
            out("Skipping...\n"),
            out("User 'gone_u' does not exist.\n"),
            out("Skipping...\n"),
        ]
    );
    let (kept, lines) = keep_existing_diffs(&diffs[1..], &dbs, &users);
    assert!(kept.is_empty());
    assert_eq!(lines.last(), Some(&out("No changes to make.\n")));
}

#[test]
fn privileges_are_grouped_by_database() {
    let r = |d: &str, u: &str| DatabasePrivilegeRow::from_privileges(d.into(), u.into(), &[false; 11]);
    let rows = vec![r("b", "x"), r("a", "x"), r("b", "y")];
    let groups = group_privileges_by_database(&rows);
    assert_eq!(groups.len(), 2);
    assert_eq!(groups[0].0, MySQLDatabase::from("b"));
    assert_eq!(groups[0].1, vec![r("b", "x"), r("b", "y")]);
    assert_eq!(groups[1].0, MySQLDatabase::from("a"));
    assert_eq!(groups[1].1, vec![r("a", "x")]);
}
