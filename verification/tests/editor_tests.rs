use muscl::muscl_core::database_privileges::base::DatabasePrivilegeRow;
use muscl::muscl_core::database_privileges::editor::{
    editor_row_is_header, format_privileges_line_for_editor,
    generate_editor_content_from_privilege_data, parse_privilege_cell_from_editor,
    parse_privilege_data_from_editor_content,
};
use muscl::muscl_core::types::MySQLDatabase;

fn all(db: &str, user: &str, b: bool) -> DatabasePrivilegeRow {
    DatabasePrivilegeRow::from_privileges(db.into(), user.into(), &[b; 11])
}

#[test]
fn editor_ensure_generated_and_parsed_editor_content_is_equal() {
    let permissions = vec![all("db", "user", true), all("db", "user", false)];
    let content = generate_editor_content_from_privilege_data(&permissions, "user", None);
    let parsed_permissions = parse_privilege_data_from_editor_content(content).unwrap();
    assert_eq!(permissions, parsed_permissions);
}

#[test]
fn database_privileges_ensure_generated_and_parsed_editor_content_is_equal() {
    let permissions = vec![all("db", "user", true), all("db2", "user2", false)];
    let content = generate_editor_content_from_privilege_data(&permissions, "user", None);
    let parsed_permissions = parse_privilege_data_from_editor_content(content).unwrap();
    assert_eq!(permissions, parsed_permissions);
}

#[test]
fn database_privilege_operations_ensure_generated_and_parsed_editor_content_is_equal() {
    let permissions = vec![all("db", "user", true), all("db2", "user2", false)];
    let content = generate_editor_content_from_privilege_data(&permissions, "user", None);
    let parsed_permissions = parse_privilege_data_from_editor_content(content).unwrap();
    assert_eq!(permissions, parsed_permissions);
}

#[test]
fn editor_line_layout() {
    let r = all("db", "user", true);
    assert_eq!(
        format_privileges_line_for_editor(&r, 4, 8),
        "db       user Y      Y      Y      Y      Y      Y    Y     Y     Y    Y    Y"
    );
}

#[test]
fn editor_content_without_rows_has_commented_example() {
    let content = generate_editor_content_from_privilege_data(&[], "alice", None);
    assert!(content.starts_with("\n# Welcome to the privilege editor.\n"));
    assert!(content.contains("\nDatabase User       Select Insert Update Delete Create Drop Alter Index Temp Lock References\n"));
    assert!(content.ends_with("# alice_db alice_user Y      Y      Y      Y      N      N    N     N     N    N    N"));
    assert_eq!(parse_privilege_data_from_editor_content(content).unwrap(), vec![]);
    let named = generate_editor_content_from_privilege_data(&[], "alice", Some(&MySQLDatabase::from("alice_x")));
    assert!(named.contains("# alice_x"));
}

#[test]
fn editor_parse_errors() {
    assert_eq!(
        parse_privilege_data_from_editor_content("db user Y".to_string()).err(),
        Some("Too few fields in line. Expected to find 13 fields, found 3".to_string())
    );
    assert_eq!(
        parse_privilege_data_from_editor_content(
            "db user Y Y Y Y Y Y Y Y Y Y Y extra".to_string()
        )
        .err(),
        Some("Too many fields in line. Expected to find 13 fields, found 14".to_string())
    );
    assert_eq!(
        parse_privilege_data_from_editor_content("db user Y Y Y Q Y Y Y Y Y Y Y".to_string()).err(),
        Some("Could not parse delete_priv privilege: Expected Y or N, found Q".to_string())
    );
}

#[test]
fn editor_skips_comments_and_reads_lowercase() {
    let content = "# comment\n// other comment\n\n  db user y n Y N y n Y N y n Y  \n".to_string();
    let rows = parse_privilege_data_from_editor_content(content).unwrap();
    assert_eq!(rows.len(), 1);
    assert!(rows[0].select_priv);
    assert!(!rows[0].insert_priv);
    assert!(rows[0].references_priv);
}

#[test]
fn editor_header_and_cells() {
    assert!(editor_row_is_header("Database User Select Insert Update Delete Create Drop Alter Index Temp Lock References"));
    assert!(!editor_row_is_header("db user Y Y Y Y Y Y Y Y Y Y Y"));
    assert_eq!(parse_privilege_cell_from_editor("n", "select_priv"), Ok(false));
    assert_eq!(
        parse_privilege_cell_from_editor("maybe", "select_priv"),
        Err("Could not parse select_priv privilege: Expected Y or N, found maybe".to_string())
    );
}

#[test]
fn editor_example_with_line_breaks() {
    // The second line of the example is a comment: nothing is read.
    let commented = generate_editor_content_from_privilege_data(&[], "\n#x", None);
    assert_eq!(parse_privilege_data_from_editor_content(commented).unwrap(), vec![]);
    // The second line of the example is not skipped: reading fails.
    let broken = generate_editor_content_from_privilege_data(&[], "a\nb", None);
    assert!(parse_privilege_data_from_editor_content(broken).is_err());
}
