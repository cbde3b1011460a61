//! The messages and listings of the `mysql-dbadm` and `mysql-useradm` commands that this tool
//! stands in for, written as those commands wrote them.
use vstd::prelude::*;
use vstd::string::*;

use crate::muscl_core::common::yn;
use crate::muscl_core::database_privileges::base::{DatabasePrivilegeRow, PrivilegeRowView};
use crate::muscl_core::database_privileges::diff::rows_view;
use crate::muscl_core::database_privileges::editor::yn_chars;
use crate::muscl_core::protocol::commands::{
    CreateDatabaseError, CreateUserError, DropDatabaseError, DropUserError,
    GetDatabasesPrivilegeDataError, ListUsersError,
};
use crate::muscl_core::protocol::request_validation::AuthorizationError;
use crate::muscl_core::types::{DbOrUser, MySQLDatabase, MySQLUser};
use crate::text::{pad_right, pad_right_str, push_str};

verus! {

/// At most the first 32 characters of a name.
pub open spec fn first_32(s: Seq<char>) -> Seq<char> {
    if s.len() <= 32 { s } else { s.take(32) }
}

/// At most the first 32 characters of a name.
pub fn trim_to_32_chars(name: &str) -> (r: String)
    ensures
        r@ == first_32(name@),
{
    let len = name.unicode_len();
    if len <= 32 {
        String::from_str(name)
    } else {
        String::from_str(name.substring_char(0, 32))
    }
}

/// A database name cut to at most 32 characters.
pub fn trim_db_name_to_32_chars(db_name: &MySQLDatabase) -> (r: MySQLDatabase)
    ensures
        r@ == first_32(db_name@),
{
    MySQLDatabase(trim_to_32_chars(db_name.as_str()))
}

/// A user name cut to at most 32 characters.
pub fn trim_user_name_to_32_chars(user_name: &MySQLUser) -> (r: MySQLUser)
    ensures
        r@ == first_32(user_name@),
{
    MySQLUser(trim_to_32_chars(user_name.as_str()))
}

/// The name the program was started under, or the name of the command it stands in for.
pub open spec fn program_name(argv0: Option<Seq<char>>, fallback: Seq<char>) -> Seq<char> {
    match argv0 {
        Some(a) => a,
        None => fallback,
    }
}

/// The name the program was started under, or the given fallback.
fn program(argv0: Option<&str>, fallback: &str) -> (r: String)
    ensures
        r@ == program_name(match argv0 {
            Some(a) => Some(a@),
            None => None,
        }, fallback@),
{
    match argv0 {
        Some(a) => String::from_str(a),
        None => String::from_str(fallback),
    }
}

/// The command that manages databases or users.
pub open spec fn command_for(is_db: bool) -> Seq<char> {
    if is_db { "mysql-dbadm"@ } else { "mysql-useradm"@ }
}

/// The capitalized noun for databases or users.
pub open spec fn noun_cap(is_db: bool) -> Seq<char> {
    if is_db { "Database"@ } else { "User"@ }
}

/// The lowercase noun for databases or users.
pub open spec fn noun_low(is_db: bool) -> Seq<char> {
    if is_db { "database"@ } else { "user"@ }
}

/// The text of an optional program name.
pub open spec fn argv_view(argv0: Option<&str>) -> Option<Seq<char>> {
    match argv0 {
        Some(a) => Some(a@),
        None => None,
    }
}

/// The message for a name with characters that are not allowed.
pub open spec fn name_validation_text(is_db: bool, name: Seq<char>, argv0: Option<Seq<char>>) -> Seq<char> {
    program_name(argv0, command_for(is_db)) + ": "@ + noun_cap(is_db) + " name '"@ + name
        + "' contains invalid characters.\nOnly A-Z, a-z, 0-9, _ (underscore) and - (dash) permitted. Skipping."@
}

/// The message for a name with characters that are not allowed; `argv0` is the name the
/// program was started under, if it is known.
pub fn name_validation_error_to_error_message(db_or_user: &DbOrUser, argv0: Option<&str>) -> (r: String)
    ensures
        r@ == name_validation_text(db_or_user is Database, db_or_user.name_view(), argv_view(argv0)),
{
    let fallback = match db_or_user {
        DbOrUser::Database(_) => "mysql-dbadm",
        DbOrUser::User(_) => "mysql-useradm",
    };
    let mut s = program(argv0, fallback);
    push_str(&mut s, ": ");
    push_str(&mut s, db_or_user.capitalized_noun());
    push_str(&mut s, " name '");
    push_str(&mut s, db_or_user.name());
    push_str(&mut s, "' contains invalid characters.\nOnly A-Z, a-z, 0-9, _ (underscore) and - (dash) permitted. Skipping.");
    s
}

/// The message for a name that does not belong to the user.
pub open spec fn authorization_text(is_db: bool, name: Seq<char>) -> Seq<char> {
    "You are not in charge of mysql-"@ + noun_low(is_db) + ": '"@ + name + "'.  Skipping."@
}

/// The message for a name that does not belong to the user.
pub fn authorization_error_message(db_or_user: &DbOrUser) -> (r: String)
    ensures
        r@ == authorization_text(db_or_user is Database, db_or_user.name_view()),
{
    let mut s = String::from_str("You are not in charge of mysql-");
    push_str(&mut s, db_or_user.lowercased_noun());
    push_str(&mut s, ": '");
    push_str(&mut s, db_or_user.name());
    push_str(&mut s, "'.  Skipping.");
    s
}

/// The message for a refused request: a malformed name, or one that is not the user's.
pub open spec fn refusal_text(e: AuthorizationError, is_db: bool, name: Seq<char>, argv0: Option<Seq<char>>) -> Seq<char> {
    match e {
        AuthorizationError::SanitizationError(_) => name_validation_text(is_db, name, argv0),
        AuthorizationError::OwnershipError(_) => authorization_text(is_db, name),
    }
}

/// A database or user of the given name.
fn db_or_user_named(is_db: bool, name: &str) -> (r: DbOrUser)
    ensures
        (r is Database) == is_db,
        r.name_view() == name@,
{
    if is_db {
        DbOrUser::Database(MySQLDatabase(String::from_str(name)))
    } else {
        DbOrUser::User(MySQLUser(String::from_str(name)))
    }
}

/// The message for a malformed name.
fn invalid_name_message(is_db: bool, name: &str, argv0: Option<&str>) -> (r: String)
    ensures
        r@ == name_validation_text(is_db, name@, argv_view(argv0)),
{
    name_validation_error_to_error_message(&db_or_user_named(is_db, name), argv0)
}

/// The message for a name that is not the user's.
fn not_in_charge_message(is_db: bool, name: &str) -> (r: String)
    ensures
        r@ == authorization_text(is_db, name@),
{
    authorization_error_message(&db_or_user_named(is_db, name))
}

/// The message for a refused request.
fn refusal_message(e: &AuthorizationError, is_db: bool, name: &str, argv0: Option<&str>) -> (r: String)
    ensures
        r@ == refusal_text(*e, is_db, name@, argv_view(argv0)),
{
    match e {
        AuthorizationError::SanitizationError(_) => invalid_name_message(is_db, name, argv0),
        AuthorizationError::OwnershipError(_) => not_in_charge_message(is_db, name),
    }
}

/// `program: ` then a text around a name.
pub open spec fn program_text(argv0: Option<Seq<char>>, is_db: bool, before: Seq<char>, name: Seq<char>, after: Seq<char>) -> Seq<char> {
    program_name(argv0, command_for(is_db)) + ": "@ + before + name + after
}

/// `program: ` then a text around a name.
fn program_message(argv0: Option<&str>, is_db: bool, before: &str, name: &str, after: &str) -> (r: String)
    ensures
        r@ == program_text(argv_view(argv0), is_db, before@, name@, after@),
{
    let fallback = if is_db { "mysql-dbadm" } else { "mysql-useradm" };
    let mut s = program(argv0, fallback);
    push_str(&mut s, ": ");
    push_str(&mut s, before);
    push_str(&mut s, name);
    push_str(&mut s, after);
    s
}

/// What `mysql-useradm` writes when a user could not be created.
pub open spec fn create_user_error_text(e: CreateUserError, name: Seq<char>, argv0: Option<Seq<char>>) -> Seq<char> {
    match e {
        CreateUserError::SanitizationError(_) => name_validation_text(false, name, argv0),
        CreateUserError::OwnershipError(_) => authorization_text(false, name),
        _ => program_text(argv0, false, "Failed to create user '"@, name, "'."@),
    }
}

/// What `mysql-useradm` writes when a user could not be created.
pub fn create_user_error_message(error: &CreateUserError, name: &str, argv0: Option<&str>) -> (r: String)
    ensures
        r@ == create_user_error_text(*error, name@, argv_view(argv0)),
{
    match error {
        CreateUserError::SanitizationError(_) => invalid_name_message(false, name, argv0),
        CreateUserError::OwnershipError(_) => not_in_charge_message(false, name),
        _ => program_message(argv0, false, "Failed to create user '", name, "'."),
    }
}

/// What `mysql-useradm` writes when a user could not be deleted.
pub open spec fn drop_user_error_text(e: DropUserError, name: Seq<char>, argv0: Option<Seq<char>>) -> Seq<char> {
    match e {
        DropUserError::AuthorizationError(a) => refusal_text(a, false, name, argv0),
        _ => program_text(argv0, false, "Failed to delete user '"@, name, "'."@),
    }
}

/// What `mysql-useradm` writes when a user could not be deleted.
pub fn drop_user_error_message(error: &DropUserError, name: &str, argv0: Option<&str>) -> (r: String)
    ensures
        r@ == drop_user_error_text(*error, name@, argv_view(argv0)),
{
    match error {
        DropUserError::AuthorizationError(a) => refusal_message(a, false, name, argv0),
        _ => program_message(argv0, false, "Failed to delete user '", name, "'."),
    }
}

/// What `mysql-useradm` writes when a user could not be looked up.
pub open spec fn list_users_error_text(e: ListUsersError, name: Seq<char>, argv0: Option<Seq<char>>) -> Seq<char> {
    match e {
        ListUsersError::AuthorizationError(a) => refusal_text(a, false, name, argv0),
        ListUsersError::UserDoesNotExist => program_text(argv0, false, "User '"@, name, "' does not exist. You must create it first."@),
        ListUsersError::MySqlError(_) => program_text(argv0, false, "Failed to look up password for user '"@, name, "'"@),
    }
}

/// What `mysql-useradm` writes when a user could not be looked up.
pub fn list_users_error_message(error: &ListUsersError, name: &str, argv0: Option<&str>) -> (r: String)
    ensures
        r@ == list_users_error_text(*error, name@, argv_view(argv0)),
{
    match error {
        ListUsersError::AuthorizationError(a) => refusal_message(a, false, name, argv0),
        ListUsersError::UserDoesNotExist => program_message(argv0, false, "User '", name, "' does not exist. You must create it first."),
        ListUsersError::MySqlError(_) => program_message(argv0, false, "Failed to look up password for user '", name, "'"),
    }
}

/// What `mysql-dbadm` writes when a database could not be created.
pub open spec fn create_database_error_text(e: CreateDatabaseError, name: Seq<char>, argv0: Option<Seq<char>>) -> Seq<char> {
    match e {
        CreateDatabaseError::SanitizationError(_) => name_validation_text(true, name, argv0),
        CreateDatabaseError::OwnershipError(_) => authorization_text(true, name),
        CreateDatabaseError::MySqlError(_) => program_text(argv0, true, "Cannot create database '"@, name, "'."@),
        CreateDatabaseError::DatabaseAlreadyExists => program_text(argv0, true, "Database '"@, name, "' already exists."@),
    }
}

/// What `mysql-dbadm` writes when a database could not be created.
pub fn create_database_error_message(error: &CreateDatabaseError, name: &str, argv0: Option<&str>) -> (r: String)
    ensures
        r@ == create_database_error_text(*error, name@, argv_view(argv0)),
{
    match error {
        CreateDatabaseError::SanitizationError(_) => invalid_name_message(true, name, argv0),
        CreateDatabaseError::OwnershipError(_) => not_in_charge_message(true, name),
        CreateDatabaseError::MySqlError(_) => program_message(argv0, true, "Cannot create database '", name, "'."),
        CreateDatabaseError::DatabaseAlreadyExists => program_message(argv0, true, "Database '", name, "' already exists."),
    }
}

/// What `mysql-dbadm` writes when a database could not be dropped.
pub open spec fn drop_database_error_text(e: DropDatabaseError, name: Seq<char>, argv0: Option<Seq<char>>) -> Seq<char> {
    match e {
        DropDatabaseError::SanitizationError(_) => name_validation_text(true, name, argv0),
        DropDatabaseError::OwnershipError(_) => authorization_text(true, name),
        DropDatabaseError::MySqlError(_) => program_text(argv0, true, "Cannot drop database '"@, name, "'."@),
        DropDatabaseError::DatabaseDoesNotExist => program_text(argv0, true, "Database '"@, name, "' doesn't exist."@),
    }
}

/// What `mysql-dbadm` writes when a database could not be dropped.
pub fn drop_database_error_message(error: &DropDatabaseError, name: &str, argv0: Option<&str>) -> (r: String)
    ensures
        r@ == drop_database_error_text(*error, name@, argv_view(argv0)),
{
    match error {
        DropDatabaseError::SanitizationError(_) => invalid_name_message(true, name, argv0),
        DropDatabaseError::OwnershipError(_) => not_in_charge_message(true, name),
        DropDatabaseError::MySqlError(_) => program_message(argv0, true, "Cannot drop database '", name, "'."),
        DropDatabaseError::DatabaseDoesNotExist => program_message(argv0, true, "Database '", name, "' doesn't exist."),
    }
}

/// What `mysql-dbadm` writes when the privileges on a database could not be shown.
pub open spec fn show_database_error_text(e: GetDatabasesPrivilegeDataError, name: Seq<char>, argv0: Option<Seq<char>>) -> Seq<char> {
    match e {
        GetDatabasesPrivilegeDataError::SanitizationError(_) => name_validation_text(true, name, argv0),
        GetDatabasesPrivilegeDataError::OwnershipError(_) => authorization_text(true, name),
        GetDatabasesPrivilegeDataError::MySqlError(err) => program_text(argv0, true, "Failed to look up privileges for database '"@, name, "': "@ + err@),
        GetDatabasesPrivilegeDataError::DatabaseDoesNotExist => program_text(argv0, true, "Database '"@, name, "' doesn't exist."@),
    }
}

/// What `mysql-dbadm` writes when the privileges on a database could not be shown.
pub fn format_show_database_error_message(error: &GetDatabasesPrivilegeDataError, name: &str, argv0: Option<&str>) -> (r: String)
    ensures
        r@ == show_database_error_text(*error, name@, argv_view(argv0)),
{
    match error {
        GetDatabasesPrivilegeDataError::SanitizationError(_) => invalid_name_message(true, name, argv0),
        GetDatabasesPrivilegeDataError::OwnershipError(_) => not_in_charge_message(true, name),
        GetDatabasesPrivilegeDataError::MySqlError(err) => {
            let mut after = String::from_str("': ");
            push_str(&mut after, err.as_str());
            program_message(argv0, true, "Failed to look up privileges for database '", name, after.as_str())
        },
        GetDatabasesPrivilegeDataError::DatabaseDoesNotExist => program_message(argv0, true, "Database '", name, "' doesn't exist."),
    }
}

/// The header `mysql-dbadm` writes above the privileges on a database.
pub open spec fn db_privs_header(name: Seq<char>) -> Seq<char> {
    "Database '"@ + name + "':\n# User                Select  Insert  Update  Delete  Create   Drop   Alter   Index    Temp    Lock  References\n# ----------------    ------  ------  ------  ------  ------   ----   -----   -----    ----    ----  ----------\n"@
}

/// The line `mysql-dbadm` writes for the privileges of one user: the user padded to 16
/// characters, then the ten first cells padded to 7, then the last.
pub open spec fn db_privs_line(r: PrivilegeRowView) -> Seq<char> {
    "  "@ + pad_right(r.1, 16) + "      "@ + db_privs_cells(r.2, 10) + yn_chars(r.2[10]) + "\n"@
}

/// The first `n` `Y`/`N` cells of a line, each padded to 7 characters and followed by a space.
pub open spec fn db_privs_cells(privs: Seq<bool>, n: int) -> Seq<char>
    decreases n,
{
    if n <= 0 {
        Seq::empty()
    } else {
        db_privs_cells(privs, n - 1) + pad_right(yn_chars(privs[n - 1]), 7) + " "@
    }
}

/// The lines `mysql-dbadm` writes for the privileges of users, in order.
pub open spec fn db_privs_lines(rows: Seq<PrivilegeRowView>) -> Seq<char>
    decreases rows.len(),
{
    if rows.len() == 0 {
        Seq::empty()
    } else {
        db_privs_lines(rows.drop_last()) + db_privs_line(rows.last())
    }
}

/// What `mysql-dbadm` writes for the privileges on a database: the header, then a line per
/// user, or a comment that no privileges are granted.
pub open spec fn db_privs_text(name: Seq<char>, rows: Seq<PrivilegeRowView>) -> Seq<char> {
    db_privs_header(name) + if rows.len() == 0 {
        "# (no permissions currently granted to any users)\n"@
    } else {
        db_privs_lines(rows)
    }
}

/// Writes the privileges on a database as `mysql-dbadm` shows them.
pub fn format_db_privs(name: &str, rows: &[DatabasePrivilegeRow]) -> (r: String)
    ensures
        r@ == db_privs_text(name@, rows_view(rows@)),
{
    let ghost rv = rows_view(rows@);
    let mut out = String::from_str("Database '");
    push_str(&mut out, name);
    push_str(&mut out, "':\n# User                Select  Insert  Update  Delete  Create   Drop   Alter   Index    Temp    Lock  References\n# ----------------    ------  ------  ------  ------  ------   ----   -----   -----    ----    ----  ----------\n");
    if rows.len() == 0 {
        push_str(&mut out, "# (no permissions currently granted to any users)\n");
        return out;
    }
    let ghost head = out@;
    let mut i: usize = 0;
    while i < rows.len()
        invariant
            i <= rows@.len(),
            rv == rows_view(rows@),
            out@ == head + db_privs_lines(rv.take(i as int)),
        decreases rows@.len() - i,
    {
        assert(rv.take(i + 1).drop_last() =~= rv.take(i as int));
        assert(rv.take(i + 1).last() == rows@[i as int]@);
        let row = &rows[i];
        let ghost before = out@;
        push_str(&mut out, "  ");
        let user = pad_right_str(row.user.as_str(), 16);
        push_str(&mut out, user.as_str());
        push_str(&mut out, "      ");
        let ghost mid = out@;
        let mut k: usize = 0;
        while k < 10
            invariant
                k <= 10,
                out@ == mid + db_privs_cells(row@.2, k as int),
            decreases 10 - k,
        {
            let cell = pad_right_str(yn(row.privilege_at(k)), 7);
            push_str(&mut out, cell.as_str());
            push_str(&mut out, " ");
            k = k + 1;
        }
        push_str(&mut out, yn(row.privilege_at(10)));
        push_str(&mut out, "\n");
        assert(out@ =~= before + db_privs_line(row@));
        i = i + 1;
    }
    assert(rv.take(rows@.len() as int) =~= rv);
    out
}


/// The `Y`/`N` character for a privilege.
pub open spec fn yn_char(b: bool) -> char {
    if b {
        'Y'
    } else {
        'N'
    }
}

/// The first `n` cells are eight characters each: the `k`th starts with the `Y`/`N` of the
/// `k`th privilege, then spaces.
proof fn lemma_db_privs_cells_layout(privs: Seq<bool>, n: int)
    requires
        0 <= n <= privs.len(),
    ensures
        db_privs_cells(privs, n).len() == 8 * n,
        forall|k: int, j: int|
            0 <= k < n && 0 <= j < 8 ==> #[trigger] db_privs_cells(privs, n)[8 * k + j] == (if j == 0 {
                yn_char(privs[k])
            } else {
                ' '
            }),
    decreases n,
{
    reveal_strlit("Y");
    reveal_strlit("N");
    reveal_strlit(" ");
    if n > 0 {
        lemma_db_privs_cells_layout(privs, n - 1);
        let prev = db_privs_cells(privs, n - 1);
        let b = privs[n - 1];
        let cell = pad_right(yn_chars(b), 7) + " "@;
        assert(yn_chars(b).len() == 1);
        assert(cell.len() == 8);
        assert(cell[0] == yn_char(b));
        assert forall|j: int| 1 <= j < 8 implies cell[j] == ' ' by {}
        let all = db_privs_cells(privs, n);
        assert(all == prev + cell);
        assert forall|k: int, j: int| 0 <= k < n && 0 <= j < 8 implies #[trigger] all[8 * k + j] == (if j == 0 {
            yn_char(privs[k])
        } else {
            ' '
        }) by {
            if k < n - 1 {
                assert(all[8 * k + j] == prev[8 * k + j]);
            } else {
                assert(all[8 * k + j] == cell[j]);
            }
        }
    }
}

/// In a line of `mysql-dbadm show`, after the user's name the privileges come in the order of
/// the header (Select, Insert, Update, Delete, Create, Drop, Alter, Index, Temp, Lock,
/// References), eight characters apart: the `k`th is the `Y`/`N` of the row's `k`th
/// privilege.
pub proof fn lemma_db_privs_line_cells(r: PrivilegeRowView)
    requires
        r.2.len() == 11,
    ensures
        forall|k: int|
            0 <= k < 11 ==> #[trigger] db_privs_line(r)[2 + pad_right(r.1, 16).len() + 6 + 8 * k] == yn_char(r.2[k]),
        db_privs_line(r).len() == 2 + pad_right(r.1, 16).len() + 6 + 81 + 1,
{
    reveal_strlit("Y");
    reveal_strlit("N");
    reveal_strlit("  ");
    reveal_strlit("      ");
    reveal_strlit("\n");
    lemma_db_privs_cells_layout(r.2, 10);
    let pre = "  "@ + pad_right(r.1, 16) + "      "@;
    let cells = db_privs_cells(r.2, 10);
    let last = yn_chars(r.2[10]);
    let line = db_privs_line(r);
    assert(line == pre + cells + last + "\n"@);
    assert(pre.len() == 2 + pad_right(r.1, 16).len() + 6);
    assert(last.len() == 1 && last[0] == yn_char(r.2[10]));
    assert forall|k: int| 0 <= k < 11 implies #[trigger] line[2 + pad_right(r.1, 16).len() + 6 + 8 * k] == yn_char(r.2[k]) by {
        if k < 10 {
            assert(cells[8 * k + 0] == yn_char(r.2[k]));
            assert(line[pre.len() + 8 * k] == cells[8 * k]);
        } else {
            assert(line[pre.len() + 80int] == last[0]);
        }
    }
}

} // verus!
