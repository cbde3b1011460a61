use muscl::muscl_core::database_privileges::cli::{
    parse_privilege_table_cli_arg, DatabasePrivilegeEdit, DatabasePrivilegeEditEntry, DatabasePrivilegeEditEntryType,
};
use muscl::muscl_core::database_privileges::diff::DatabasePrivilegeChange;

#[test]
fn test_cli_arg_parse_set_db_user_all() {
    let result = DatabasePrivilegeEditEntry::parse_from_str("db:user:A");
    assert_eq!(
        result.ok(),
        Some(DatabasePrivilegeEditEntry {
            database: "db".into(),
            user: "user".into(),
            privilege_edit: DatabasePrivilegeEdit {
                type_: DatabasePrivilegeEditEntryType::Assign,
                privileges: vec!['A'],
            },
        })
    );
}

#[test]
fn test_cli_arg_parse_set_db_user_none() {
    let result = DatabasePrivilegeEditEntry::parse_from_str("db:user:");
    assert_eq!(
        result.ok(),
        Some(DatabasePrivilegeEditEntry {
            database: "db".into(),
            user: "user".into(),
            privilege_edit: DatabasePrivilegeEdit {
                type_: DatabasePrivilegeEditEntryType::Assign,
                privileges: vec![],
            },
        })
    );
}

#[test]
fn test_cli_arg_parse_set_db_user_misc() {
    let result = DatabasePrivilegeEditEntry::parse_from_str("db:user:siud");
    assert_eq!(
        result.ok(),
        Some(DatabasePrivilegeEditEntry {
            database: "db".into(),
            user: "user".into(),
            privilege_edit: DatabasePrivilegeEdit {
                type_: DatabasePrivilegeEditEntryType::Assign,
                privileges: vec!['s', 'i', 'u', 'd'],
            },
        })
    );
}

#[test]
fn test_cli_arg_parse_set_db_user_nonexistent_privilege() {
    let result = DatabasePrivilegeEditEntry::parse_from_str("db:user:F");
    assert!(result.is_err());
}

#[test]
fn test_cli_arg_parse_set_user_empty_string() {
    let result = DatabasePrivilegeEditEntry::parse_from_str("::");
    assert!(result.is_err());
}

#[test]
fn test_cli_arg_parse_set_db_user_empty_string() {
    let result = DatabasePrivilegeEditEntry::parse_from_str("db::");
    assert!(result.is_err());
}

#[test]
fn test_cli_arg_parse_add_db_user_misc() {
    let result = DatabasePrivilegeEditEntry::parse_from_str("db:user:+siud");
    assert_eq!(
        result.ok(),
        Some(DatabasePrivilegeEditEntry {
            database: "db".into(),
            user: "user".into(),
            privilege_edit: DatabasePrivilegeEdit {
                type_: DatabasePrivilegeEditEntryType::Add,
                privileges: vec!['s', 'i', 'u', 'd'],
            },
        })
    );
}

#[test]
fn test_cli_arg_parse_remove_db_user_misc() {
    let result = DatabasePrivilegeEditEntry::parse_from_str("db:user:-siud");
    assert_eq!(
        result.ok(),
        Some(DatabasePrivilegeEditEntry {
            database: "db".into(),
            user: "user".into(),
            privilege_edit: DatabasePrivilegeEdit {
                type_: DatabasePrivilegeEditEntryType::Remove,
                privileges: vec!['s', 'i', 'u', 'd'],
            },
        }),
    );
}

#[test]
fn cli_edit_error_messages() {
    assert_eq!(
        DatabasePrivilegeEditEntry::parse_from_str("db:user").err(),
        Some("Invalid privilege edit entry format: db:user".to_string())
    );
    assert_eq!(
        DatabasePrivilegeEditEntry::parse_from_str("db::s").err(),
        Some("Username cannot be empty in privilege edit entry: db::s".to_string())
    );
    assert_eq!(
        DatabasePrivilegeEdit::parse_from_str("+sXyF").err(),
        Some(
            "Invalid character(s) in privilege edit entry: 'X', 'y', 'F'\n\nValid characters are: 's', 'i', 'u', 'd', 'c', 'D', 'a', 'A', 'I', 't', 'l', 'r', 'A'"
                .to_string()
        )
    );
}

#[test]
fn cli_edit_display_reads_back() {
    for text in ["+siud", "-A", "sDr", ""] {
        let edit = DatabasePrivilegeEdit::parse_from_str(text).unwrap();
        assert_eq!(edit.to_display_string(), text);
        assert_eq!(DatabasePrivilegeEdit::parse_from_str(&edit.to_display_string()).unwrap(), edit);
    }
}

#[test]
fn cli_entry_display() {
    let entry = DatabasePrivilegeEditEntry::parse_from_str("db:user:+si").unwrap();
    assert_eq!(entry.to_display_string(), "db:, user: +si");
}

#[test]
fn cli_set_edit_as_diff() {
    let entry = DatabasePrivilegeEditEntry::parse_from_str("db:user:si").unwrap();
    let diff = entry.as_database_privileges_diff().unwrap();
    assert_eq!(diff.select_priv, Some(DatabasePrivilegeChange::NoToYes));
    assert_eq!(diff.insert_priv, Some(DatabasePrivilegeChange::NoToYes));
    assert_eq!(diff.update_priv, Some(DatabasePrivilegeChange::YesToNo));
    assert_eq!(diff.references_priv, Some(DatabasePrivilegeChange::YesToNo));
    assert_eq!(diff.db, "db".into());
    assert_eq!(diff.user, "user".into());
}

#[test]
fn cli_add_remove_all_as_diff() {
    let add = DatabasePrivilegeEditEntry::parse_from_str("db:user:+A").unwrap();
    let diff = add.as_database_privileges_diff().unwrap();
    assert_eq!(diff.select_priv, Some(DatabasePrivilegeChange::NoToYes));
    assert_eq!(diff.lock_tables_priv, Some(DatabasePrivilegeChange::NoToYes));

    let remove = DatabasePrivilegeEditEntry::parse_from_str("db:user:-d").unwrap();
    let diff = remove.as_database_privileges_diff().unwrap();
    assert_eq!(diff.delete_priv, Some(DatabasePrivilegeChange::YesToNo));
    assert_eq!(diff.select_priv, None);
    assert_eq!(diff.references_priv, None);
}

#[test]
fn table_arg_grants_named_privileges() {
    let row = parse_privilege_table_cli_arg("db:user:siuA").unwrap();
    assert_eq!(row.db.0, "db");
    assert_eq!(row.user.0, "user");
    assert!(row.select_priv && row.references_priv && row.lock_tables_priv);

    let row = parse_privilege_table_cli_arg("db:user:sD").unwrap();
    assert!(row.select_priv);
    assert!(row.drop_priv);
    assert!(!row.insert_priv);
    assert!(!row.delete_priv);
    assert!(!row.references_priv);

    let row = parse_privilege_table_cli_arg("db:user:").unwrap();
    assert!(!row.select_priv && !row.drop_priv && !row.references_priv);
}

#[test]
fn table_arg_errors() {
    assert_eq!(
        parse_privilege_table_cli_arg("db:user").unwrap_err(),
        "Invalid argument format. See `edit-db-privs --help` for more information."
    );
    assert_eq!(
        parse_privilege_table_cli_arg("db:user:s:x").unwrap_err(),
        "Invalid argument format. See `edit-db-privs --help` for more information."
    );
    assert_eq!(parse_privilege_table_cli_arg("db:user:sFx").unwrap_err(), "Invalid privilege character: F");
}
