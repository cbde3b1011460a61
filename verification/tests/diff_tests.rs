use std::collections::BTreeSet;

use muscl::muscl_core::database_privileges::base::DatabasePrivilegeRow;
use muscl::muscl_core::database_privileges::diff::{
    create_or_modify_privilege_rows, diff_privileges, display_privilege_diffs,
    privilege_diff_table_rows, reduce_privilege_diffs, DatabasePrivilegeChange,
    DatabasePrivilegeRowDiff, DatabasePrivilegesDiff,
};

fn row(db: &str, user: &str, privs: [bool; 11]) -> DatabasePrivilegeRow {
    DatabasePrivilegeRow::from_privileges(db.into(), user.into(), &privs)
}

#[test]
fn diff_test_database_privilege_change_creation() {
    assert_eq!(
        DatabasePrivilegeChange::new(true, false),
        Some(DatabasePrivilegeChange::YesToNo),
    );
    assert_eq!(
        DatabasePrivilegeChange::new(false, true),
        Some(DatabasePrivilegeChange::NoToYes),
    );
    assert_eq!(DatabasePrivilegeChange::new(true, true), None);
    assert_eq!(DatabasePrivilegeChange::new(false, false), None);
}

#[test]
fn database_privileges_test_database_privilege_change_creation() {
    assert_eq!(DatabasePrivilegeChange::new(true, false), Some(DatabasePrivilegeChange::YesToNo));
    assert_eq!(DatabasePrivilegeChange::new(false, true), Some(DatabasePrivilegeChange::NoToYes));
    assert_eq!(DatabasePrivilegeChange::new(true, true), None);
    assert_eq!(DatabasePrivilegeChange::new(false, false), None);
}

#[test]
fn database_privilege_operations_test_database_privilege_change_creation() {
    assert_eq!(DatabasePrivilegeChange::new(true, false), Some(DatabasePrivilegeChange::YesToNo));
    assert_eq!(DatabasePrivilegeChange::new(false, true), Some(DatabasePrivilegeChange::NoToYes));
    assert_eq!(DatabasePrivilegeChange::new(true, true), None);
    assert_eq!(DatabasePrivilegeChange::new(false, false), None);
}

#[test]
fn test_database_privilege_row_diff_from_rows() {
    let row1 = DatabasePrivilegeRow {
        db: "db".into(),
        user: "user".into(),
        select_priv: true,
        insert_priv: false,
        update_priv: true,
        delete_priv: false,
        create_priv: false,
        drop_priv: false,
        alter_priv: false,
        index_priv: false,
        create_tmp_table_priv: false,
        lock_tables_priv: false,
        references_priv: false,
    };
    let row2 = DatabasePrivilegeRow {
        db: "db".into(),
        user: "user".into(),
        select_priv: true,
        insert_priv: true,
        update_priv: false,
        delete_priv: false,
        create_priv: false,
        drop_priv: false,
        alter_priv: false,
        index_priv: false,
        create_tmp_table_priv: false,
        lock_tables_priv: false,
        references_priv: false,
    };

    let diff = DatabasePrivilegeRowDiff::from_rows(&row1, &row2);
    assert_eq!(
        diff,
        DatabasePrivilegeRowDiff {
            db: "db".into(),
            user: "user".into(),
            select_priv: None,
            insert_priv: Some(DatabasePrivilegeChange::NoToYes),
            update_priv: Some(DatabasePrivilegeChange::YesToNo),
            delete_priv: None,
            ..Default::default()
        },
    );
}

#[test]
fn test_database_privilege_row_diff_is_empty() {
    let empty_diff = DatabasePrivilegeRowDiff {
        db: "db".into(),
        user: "user".into(),
        ..Default::default()
    };

    assert!(empty_diff.is_empty());

    let non_empty_diff = DatabasePrivilegeRowDiff {
        db: "db".into(),
        user: "user".into(),
        select_priv: Some(DatabasePrivilegeChange::YesToNo),
        ..Default::default()
    };

    assert!(!non_empty_diff.is_empty());
}

fn diff_privileges_scenario() -> (BTreeSet<DatabasePrivilegesDiff>, BTreeSet<DatabasePrivilegesDiff>) {
    let row_to_be_modified = DatabasePrivilegeRow {
        db: "db".into(),
        user: "user".into(),
        select_priv: true,
        insert_priv: true,
        update_priv: true,
        delete_priv: true,
        create_priv: true,
        drop_priv: true,
        alter_priv: true,
        index_priv: false,
        create_tmp_table_priv: true,
        lock_tables_priv: true,
        references_priv: false,
    };

    let mut row_to_be_deleted = row_to_be_modified.clone();
    row_to_be_deleted.user = "user2".into();

    let from = vec![row_to_be_modified.clone(), row_to_be_deleted.clone()];

    let mut modified_row = row_to_be_modified.clone();
    modified_row.select_priv = false;
    modified_row.insert_priv = false;
    modified_row.index_priv = true;

    let mut new_row = row_to_be_modified.clone();
    new_row.user = "user3".into();

    let to = vec![modified_row.clone(), new_row.clone()];

    let diffs = diff_privileges(&from, &to);

    let expected = BTreeSet::from_iter(vec![
        DatabasePrivilegesDiff::Deleted(row_to_be_deleted),
        DatabasePrivilegesDiff::Modified(DatabasePrivilegeRowDiff {
            db: "db".into(),
            user: "user".into(),
            select_priv: Some(DatabasePrivilegeChange::YesToNo),
            insert_priv: Some(DatabasePrivilegeChange::YesToNo),
            index_priv: Some(DatabasePrivilegeChange::NoToYes),
            ..Default::default()
        }),
        DatabasePrivilegesDiff::New(new_row),
    ]);
    (BTreeSet::from_iter(diffs), expected)
}

#[test]
fn diff_test_diff_privileges() {
    let (diffs, expected) = diff_privileges_scenario();
    assert_eq!(diffs, expected);
}

#[test]
fn database_privileges_test_diff_privileges() {
    let (diffs, expected) = diff_privileges_scenario();
    assert_eq!(diffs, expected);
}

#[test]
fn database_privilege_operations_test_diff_privileges() {
    let (diffs, expected) = diff_privileges_scenario();
    assert_eq!(diffs, expected);
}

#[test]
fn diff_then_apply_gives_the_target_rows() {
    let from = vec![
        row("db", "a", [true; 11]),
        row("db", "b", [false; 11]),
        row("db2", "c", [true, false, true, false, true, false, true, false, true, false, true]),
    ];
    let to = vec![
        row("db", "a", [false; 11]),
        row("db2", "c", [true, false, true, false, true, false, true, false, true, false, true]),
        row("db3", "d", [true; 11]),
    ];
    let diffs = diff_privileges(&from, &to);
    // the unchanged row yields nothing
    assert_eq!(diffs.len(), 3);
    for d in &diffs {
        match d {
            DatabasePrivilegesDiff::Modified(m) => {
                let mut r = from[0].clone();
                m.apply(&mut r);
                assert_eq!(r, to[0]);
            }
            DatabasePrivilegesDiff::Deleted(r) => assert_eq!(r, &from[1]),
            DatabasePrivilegesDiff::New(r) => assert_eq!(r, &to[2]),
            DatabasePrivilegesDiff::Noop { .. } => panic!("no noop expected"),
        }
    }
}

#[test]
fn row_diff_mappend_takes_the_later_change() {
    let mut a = DatabasePrivilegeRowDiff {
        db: "db".into(),
        user: "u".into(),
        select_priv: Some(DatabasePrivilegeChange::NoToYes),
        insert_priv: Some(DatabasePrivilegeChange::NoToYes),
        ..Default::default()
    };
    let b = DatabasePrivilegeRowDiff {
        db: "db".into(),
        user: "u".into(),
        insert_priv: Some(DatabasePrivilegeChange::YesToNo),
        ..Default::default()
    };
    a.mappend(&b);
    assert_eq!(a.select_priv, Some(DatabasePrivilegeChange::NoToYes));
    assert_eq!(a.insert_priv, Some(DatabasePrivilegeChange::YesToNo));
}

#[test]
fn row_diff_remove_noops_drops_changes_without_effect() {
    let base = row("db", "u", [true, false, true, false, false, false, false, false, false, false, false]);
    let mut d = DatabasePrivilegeRowDiff {
        db: "db".into(),
        user: "u".into(),
        select_priv: Some(DatabasePrivilegeChange::NoToYes),
        insert_priv: Some(DatabasePrivilegeChange::NoToYes),
        update_priv: Some(DatabasePrivilegeChange::YesToNo),
        delete_priv: Some(DatabasePrivilegeChange::YesToNo),
        ..Default::default()
    };
    d.remove_noops(&base);
    assert_eq!(d.select_priv, None);
    assert_eq!(d.insert_priv, Some(DatabasePrivilegeChange::NoToYes));
    assert_eq!(d.update_priv, Some(DatabasePrivilegeChange::YesToNo));
    assert_eq!(d.delete_priv, None);
}

#[test]
fn row_diff_display_and_lookup() {
    let d = DatabasePrivilegeRowDiff {
        db: "db".into(),
        user: "u".into(),
        select_priv: Some(DatabasePrivilegeChange::NoToYes),
        references_priv: Some(DatabasePrivilegeChange::YesToNo),
        ..Default::default()
    };
    assert_eq!(d.to_display_string(), "Select: N -> Y\nReferences: Y -> N\n");
    assert_eq!(d.get_privilege_change_by_name("select_priv"), Ok(Some(DatabasePrivilegeChange::NoToYes)));
    assert_eq!(d.get_privilege_change_by_name("insert_priv"), Ok(None));
    assert!(d.get_privilege_change_by_name("bogus").is_err());
}

#[test]
fn privileges_diff_mappend_rules() {
    let r = row("db", "u", [true; 11]);
    // a deleted row cannot be modified
    let mut deleted = DatabasePrivilegesDiff::Deleted(r.clone());
    let modified = DatabasePrivilegesDiff::Modified(DatabasePrivilegeRowDiff {
        db: "db".into(),
        user: "u".into(),
        select_priv: Some(DatabasePrivilegeChange::YesToNo),
        ..Default::default()
    });
    assert!(deleted.mappend(&modified).is_err());
    // a new row then deleted is nothing to do
    let mut new = DatabasePrivilegesDiff::New(r.clone());
    new.mappend(&DatabasePrivilegesDiff::Deleted(r.clone())).unwrap();
    assert_eq!(new, DatabasePrivilegesDiff::Noop { db: "db".into(), user: "u".into() });
}

#[test]
fn reduce_merges_per_key_and_drops_noops() {
    let existing = vec![row("db", "u", [true; 11])];
    let d1 = DatabasePrivilegesDiff::Modified(DatabasePrivilegeRowDiff {
        db: "db".into(),
        user: "u".into(),
        select_priv: Some(DatabasePrivilegeChange::YesToNo),
        ..Default::default()
    });
    let d2 = DatabasePrivilegesDiff::Modified(DatabasePrivilegeRowDiff {
        db: "db".into(),
        user: "u".into(),
        insert_priv: Some(DatabasePrivilegeChange::NoToYes),
        ..Default::default()
    });
    let reduced = reduce_privilege_diffs(&existing, &[d1, d2]).unwrap();
    assert_eq!(
        reduced,
        vec![DatabasePrivilegesDiff::Modified(DatabasePrivilegeRowDiff {
            db: "db".into(),
            user: "u".into(),
            select_priv: Some(DatabasePrivilegeChange::YesToNo),
            ..Default::default()
        })]
    );
}

#[test]
fn create_or_modify_rows_for_unknown_and_known_keys() {
    let existing = vec![row("db", "u", [true; 11])];
    let requests = vec![
        DatabasePrivilegeRowDiff {
            db: "db".into(),
            user: "u".into(),
            select_priv: Some(DatabasePrivilegeChange::YesToNo),
            ..Default::default()
        },
        DatabasePrivilegeRowDiff {
            db: "db".into(),
            user: "v".into(),
            select_priv: Some(DatabasePrivilegeChange::NoToYes),
            ..Default::default()
        },
    ];
    let diffs = create_or_modify_privilege_rows(&existing, &requests);
    assert_eq!(diffs.len(), 2);
    // Sorted as the derived order has it: creations before modifications.
    assert!(matches!(diffs[1], DatabasePrivilegesDiff::Modified(_)));
    match &diffs[0] {
        DatabasePrivilegesDiff::New(r) => {
            assert!(r.select_priv);
            assert!(!r.insert_priv);
        }
        other => panic!("unexpected {other:?}"),
    }
}

#[test]
fn diff_table_cells_and_drawing() {
    let r = row("db", "u", [true, false, false, false, false, false, false, false, false, false, false]);
    let diffs = vec![
        DatabasePrivilegesDiff::Deleted(r.clone()),
        DatabasePrivilegesDiff::Noop { db: "db".into(), user: "v".into() },
    ];
    let cells = privilege_diff_table_rows(&diffs);
    assert_eq!(cells[0], vec!["db".to_string(), "u".to_string(), "Removed".to_string()]);
    assert_eq!(cells[1], vec!["db".to_string(), "v".to_string(), "No changes".to_string()]);
    let drawn = display_privilege_diffs(&diffs);
    assert!(drawn.contains("Privilege diff"));
    assert!(drawn.contains("Removed"));
    assert!(drawn.contains("No changes"));
    assert_ne!(drawn, "Removed");
}

#[test]
fn reducing_computed_diffs_gives_them_back() {
    let mut p = [false; 11];
    p[0] = true;
    let from = vec![row("db", "a", [true; 11]), row("db", "b", p), row("db2", "c", [false; 11])];
    let to = vec![row("db", "a", p), row("db2", "c", [false; 11]), row("db3", "d", [true; 11])];
    let diffs = diff_privileges(&from, &to);
    let reduced = reduce_privilege_diffs(&from, &diffs).unwrap();
    let expected: BTreeSet<DatabasePrivilegesDiff> = diffs.into_iter().collect();
    let got: BTreeSet<DatabasePrivilegesDiff> = reduced.into_iter().collect();
    assert_eq!(got.len(), 3);
    assert_eq!(got, expected);
}

#[test]
fn reduced_diffs_come_in_order() {
    let mut p = [false; 11];
    p[3] = true;
    let from = vec![row("b", "x", [true; 11]), row("a", "y", p), row("a", "x", [false; 11])];
    let to = vec![row("c", "z", p), row("a", "x", p), row("b", "x", p), row("a", "w", [true; 11])];
    let diffs = diff_privileges(&from, &to);
    let reduced = reduce_privilege_diffs(&from, &diffs).unwrap();
    let mut sorted = reduced.clone();
    sorted.sort();
    assert_eq!(reduced, sorted);
    assert!(matches!(reduced[0], DatabasePrivilegesDiff::New(_)));
    assert!(matches!(reduced[reduced.len() - 1], DatabasePrivilegesDiff::Deleted(_)));
}
