//! What the client prints for the answers of the server: one line per result, to standard
//! output or standard error, and tables for listings.
use vstd::prelude::*;
use vstd::string::*;

use crate::muscl_core::common::UnixUser;
use crate::muscl_core::protocol::commands::{
    user_opt, CheckAuthorizationError, CreateDatabaseError, CreateUserError, DropDatabaseError,
    DropUserError, LockUserError, ModifyDatabasePrivilegesError, SetPasswordError, UnlockUserError,
};
use crate::muscl_core::protocol::request_validation::authorization_error_text;
use crate::muscl_core::common::{lemma_rev_yn_of_yn, rev_yn_spec, yn};
use crate::muscl_core::database_privileges::base::{
    database_privilege_field, human_readable_name, privilege_name, db_priv_field_human_readable_name, DatabasePrivilegeRow,
    PrivilegeRowView,
};
use crate::muscl_core::database_privileges::diff::{
    diff_key, diffs_view, rows_view, DatabasePrivilegesDiff, PrivilegesDiffView,
};
use crate::muscl_core::database_privileges::editor::{column_title, yn_chars};
use crate::muscl_core::protocol::commands::{GetDatabasesPrivilegeDataError, ListDatabasesError, ListUsersError};
use crate::muscl_core::types::{DbOrUser, MySQLDatabase, MySQLUser};
use crate::table::{
    cells_view, decimal_size_text, draw_styled_table, draw_table, drawn_styled_table, drawn_table,
    format_size_decimal, known_styles, styled_cells_view, TableCell,
};
use crate::text::{decimal, join, join_strings, push_str, strings_of, u64_to_decimal};

verus! {

/// A piece of text printed to standard output or to standard error.
#[derive(Debug, PartialEq, Eq)]
pub enum OutputLine {
    Stdout(String),
    Stderr(String),
}

/// A printed piece of text, seen as its characters.
pub enum OutputView {
    Stdout(Seq<char>),
    Stderr(Seq<char>),
}

impl View for OutputLine {
    type V = OutputView;

    open spec fn view(&self) -> OutputView {
        match self {
            OutputLine::Stdout(s) => OutputView::Stdout(s@),
            OutputLine::Stderr(s) => OutputView::Stderr(s@),
        }
    }
}

/// The printed pieces of text, in order.
pub open spec fn lines_view(v: Seq<OutputLine>) -> Seq<OutputView> {
    v.map_values(|l: OutputLine| l@)
}

/// A line printed to standard output or standard error, with its line break.
pub open spec fn line_to(stderr: bool, t: Seq<char>) -> OutputView {
    if stderr {
        OutputView::Stderr(t + "\n"@)
    } else {
        OutputView::Stdout(t + "\n"@)
    }
}

/// What is printed for one result: the line for a success; for a failure, its message,
/// then `Skipping...` if asked for; then an empty line if asked for.
pub open spec fn result_lines(item: Result<Seq<char>, Seq<char>>, errors_to_stderr: bool, skip_note: bool, blank: bool) -> Seq<OutputView> {
    (match item {
        Ok(t) => seq![line_to(false, t)],
        Err(m) => seq![line_to(errors_to_stderr, m)] + if skip_note {
            seq![line_to(errors_to_stderr, "Skipping..."@)]
        } else {
            Seq::empty()
        },
    }) + if blank {
        seq![line_to(false, Seq::empty())]
    } else {
        Seq::empty()
    }
}

/// What is printed for results, in order.
pub open spec fn report_lines(items: Seq<Result<Seq<char>, Seq<char>>>, errors_to_stderr: bool, skip_note: bool, blank: bool) -> Seq<OutputView>
    decreases items.len(),
{
    if items.len() == 0 {
        Seq::empty()
    } else {
        report_lines(items.drop_last(), errors_to_stderr, skip_note, blank) + result_lines(items.last(), errors_to_stderr, skip_note, blank)
    }
}

/// A line of text with its line break, to standard output or standard error.
fn line(stderr: bool, t: &str) -> (r: OutputLine)
    ensures
        r@ == line_to(stderr, t@),
{
    let mut s = String::from_str(t);
    push_str(&mut s, "\n");
    if stderr {
        OutputLine::Stderr(s)
    } else {
        OutputLine::Stdout(s)
    }
}

/// The texts of results, each seen as its characters.
pub open spec fn items_view(items: Seq<Result<String, String>>) -> Seq<Result<Seq<char>, Seq<char>>> {
    items.map_values(|it: Result<String, String>| match it {
        Ok(t) => Ok(t@),
        Err(m) => Err(m@),
    })
}

/// The lines printed for results, in order: the line for each success; for each failure,
/// its message, then `Skipping...` if asked for; after each, an empty line if asked for.
pub fn report(items: &[Result<String, String>], errors_to_stderr: bool, skip_note: bool, blank: bool) -> (r: Vec<OutputLine>)
    ensures
        lines_view(r@) == report_lines(items_view(items@), errors_to_stderr, skip_note, blank),
{
    let ghost iv = items_view(items@);
    let mut out: Vec<OutputLine> = Vec::new();
    let mut i: usize = 0;
    while i < items.len()
        invariant
            i <= items@.len(),
            iv == items_view(items@),
            lines_view(out@) == report_lines(iv.take(i as int), errors_to_stderr, skip_note, blank),
        decreases items@.len() - i,
    {
        let ghost before = lines_view(out@);
        let ghost k = out@.len();
        match &items[i] {
            Ok(t) => {
                out.push(line(false, t.as_str()));
            },
            Err(m) => {
                out.push(line(errors_to_stderr, m.as_str()));
                if skip_note {
                    out.push(line(errors_to_stderr, "Skipping..."));
                }
            },
        }
        if blank {
            out.push(line(false, ""));
        }
        proof {
            assert(iv.take(i + 1).drop_last() =~= iv.take(i as int));
            assert(iv.take(i + 1).last() == iv[i as int]);
            let added = result_lines(iv[i as int], errors_to_stderr, skip_note, blank);
            reveal_strlit("");
            assert(""@ =~= Seq::<char>::empty());
            assert(lines_view(out@) =~= before + added);
        }
        i = i + 1;
    }
    assert(iv.take(items@.len() as int) =~= iv);
    out
}

/// What is printed for the results of creating databases.
pub open spec fn create_databases_output_status_items(output: Seq<(MySQLDatabase, Result<(), CreateDatabaseError>)>, user: Option<UnixUser>) -> Seq<Result<Seq<char>, Seq<char>>> {
    output.map_values(|e: (MySQLDatabase, Result<(), CreateDatabaseError>)| match e.1 {
        Ok(()) => Ok("Database '"@ + e.0@ + "' created successfully."@),
        Err(err) => Err(err.message_view(e.0, user)),
    })
}

/// What is printed for the results of creating databases.
pub fn create_databases_output_status(output: &[(MySQLDatabase, Result<(), CreateDatabaseError>)], unix_user: Option<&UnixUser>) -> (r: Vec<OutputLine>)
    ensures
        lines_view(r@) == report_lines(create_databases_output_status_items(output@, user_opt(unix_user)), false, true, true),
{
    let mut items: Vec<Result<String, String>> = Vec::new();
    let mut i: usize = 0;
    while i < output.len()
        invariant
            i <= output@.len(),
            items_view(items@) == create_databases_output_status_items(output@.take(i as int), user_opt(unix_user)),
        decreases output@.len() - i,
    {
        let (name, result) = &output[i];
        let item: Result<String, String> = match result {
            Ok(()) => {
                let mut s = String::from_str("Database '");
                push_str(&mut s, name.as_str());
                push_str(&mut s, "' created successfully.");
                Ok(s)
            },
            Err(err) => Err(err.to_error_message(name, unix_user)),
        };
        let ghost before = items_view(items@);
        items.push(item);
        proof {
            assert(output@.take(i + 1) =~= output@.take(i as int).push(output@[i as int]));
            assert(items_view(items@) =~= before.push(items_view(items@).last()));
            assert(items_view(items@) =~= create_databases_output_status_items(output@.take(i + 1), user_opt(unix_user)));
        }
        i = i + 1;
    }
    assert(output@.take(output@.len() as int) =~= output@);
    report(items.as_slice(), false, true, true)
}

/// What is printed for the results of creating users.
pub open spec fn create_users_output_status_items(output: Seq<(MySQLUser, Result<(), CreateUserError>)>, user: Option<UnixUser>) -> Seq<Result<Seq<char>, Seq<char>>> {
    output.map_values(|e: (MySQLUser, Result<(), CreateUserError>)| match e.1 {
        Ok(()) => Ok("User '"@ + e.0@ + "' created successfully."@),
        Err(err) => Err(err.message_view(e.0, user)),
    })
}

/// What is printed for the results of creating users.
pub fn create_users_output_status(output: &[(MySQLUser, Result<(), CreateUserError>)], unix_user: Option<&UnixUser>) -> (r: Vec<OutputLine>)
    ensures
        lines_view(r@) == report_lines(create_users_output_status_items(output@, user_opt(unix_user)), false, true, true),
{
    let mut items: Vec<Result<String, String>> = Vec::new();
    let mut i: usize = 0;
    while i < output.len()
        invariant
            i <= output@.len(),
            items_view(items@) == create_users_output_status_items(output@.take(i as int), user_opt(unix_user)),
        decreases output@.len() - i,
    {
        let (name, result) = &output[i];
        let item: Result<String, String> = match result {
            Ok(()) => {
                let mut s = String::from_str("User '");
                push_str(&mut s, name.as_str());
                push_str(&mut s, "' created successfully.");
                Ok(s)
            },
            Err(err) => Err(err.to_error_message(name, unix_user)),
        };
        let ghost before = items_view(items@);
        items.push(item);
        proof {
            assert(output@.take(i + 1) =~= output@.take(i as int).push(output@[i as int]));
            assert(items_view(items@) =~= before.push(items_view(items@).last()));
            assert(items_view(items@) =~= create_users_output_status_items(output@.take(i + 1), user_opt(unix_user)));
        }
        i = i + 1;
    }
    assert(output@.take(output@.len() as int) =~= output@);
    report(items.as_slice(), false, true, true)
}

/// What is printed for the results of dropping databases.
pub open spec fn drop_databases_output_status_items(output: Seq<(MySQLDatabase, Result<(), DropDatabaseError>)>, user: Option<UnixUser>) -> Seq<Result<Seq<char>, Seq<char>>> {
    output.map_values(|e: (MySQLDatabase, Result<(), DropDatabaseError>)| match e.1 {
        Ok(()) => Ok("Database '"@ + e.0@ + "' dropped successfully."@),
        Err(err) => Err(err.message_view(e.0, user)),
    })
}

/// What is printed for the results of dropping databases.
pub fn drop_databases_output_status(output: &[(MySQLDatabase, Result<(), DropDatabaseError>)], unix_user: Option<&UnixUser>) -> (r: Vec<OutputLine>)
    ensures
        lines_view(r@) == report_lines(drop_databases_output_status_items(output@, user_opt(unix_user)), false, true, true),
{
    let mut items: Vec<Result<String, String>> = Vec::new();
    let mut i: usize = 0;
    while i < output.len()
        invariant
            i <= output@.len(),
            items_view(items@) == drop_databases_output_status_items(output@.take(i as int), user_opt(unix_user)),
        decreases output@.len() - i,
    {
        let (name, result) = &output[i];
        let item: Result<String, String> = match result {
            Ok(()) => {
                let mut s = String::from_str("Database '");
                push_str(&mut s, name.as_str());
                push_str(&mut s, "' dropped successfully.");
                Ok(s)
            },
            Err(err) => Err(err.to_error_message(name, unix_user)),
        };
        let ghost before = items_view(items@);
        items.push(item);
        proof {
            assert(output@.take(i + 1) =~= output@.take(i as int).push(output@[i as int]));
            assert(items_view(items@) =~= before.push(items_view(items@).last()));
            assert(items_view(items@) =~= drop_databases_output_status_items(output@.take(i + 1), user_opt(unix_user)));
        }
        i = i + 1;
    }
    assert(output@.take(output@.len() as int) =~= output@);
    report(items.as_slice(), false, true, true)
}

/// What is printed for the results of dropping users.
pub open spec fn drop_users_output_status_items(output: Seq<(MySQLUser, Result<(), DropUserError>)>, user: Option<UnixUser>) -> Seq<Result<Seq<char>, Seq<char>>> {
    output.map_values(|e: (MySQLUser, Result<(), DropUserError>)| match e.1 {
        Ok(()) => Ok("User '"@ + e.0@ + "' dropped successfully."@),
        Err(err) => Err(err.message_view(e.0, user)),
    })
}

/// What is printed for the results of dropping users.
pub fn drop_users_output_status(output: &[(MySQLUser, Result<(), DropUserError>)], unix_user: Option<&UnixUser>) -> (r: Vec<OutputLine>)
    ensures
        lines_view(r@) == report_lines(drop_users_output_status_items(output@, user_opt(unix_user)), false, true, true),
{
    let mut items: Vec<Result<String, String>> = Vec::new();
    let mut i: usize = 0;
    while i < output.len()
        invariant
            i <= output@.len(),
            items_view(items@) == drop_users_output_status_items(output@.take(i as int), user_opt(unix_user)),
        decreases output@.len() - i,
    {
        let (name, result) = &output[i];
        let item: Result<String, String> = match result {
            Ok(()) => {
                let mut s = String::from_str("User '");
                push_str(&mut s, name.as_str());
                push_str(&mut s, "' dropped successfully.");
                Ok(s)
            },
            Err(err) => Err(err.to_error_message(name, unix_user)),
        };
        let ghost before = items_view(items@);
        items.push(item);
        proof {
            assert(output@.take(i + 1) =~= output@.take(i as int).push(output@[i as int]));
            assert(items_view(items@) =~= before.push(items_view(items@).last()));
            assert(items_view(items@) =~= drop_users_output_status_items(output@.take(i + 1), user_opt(unix_user)));
        }
        i = i + 1;
    }
    assert(output@.take(output@.len() as int) =~= output@);
    report(items.as_slice(), false, true, true)
}

/// What is printed for the results of locking users.
pub open spec fn lock_users_output_status_items(output: Seq<(MySQLUser, Result<(), LockUserError>)>, user: Option<UnixUser>) -> Seq<Result<Seq<char>, Seq<char>>> {
    output.map_values(|e: (MySQLUser, Result<(), LockUserError>)| match e.1 {
        Ok(()) => Ok("User '"@ + e.0@ + "' locked successfully."@),
        Err(err) => Err(err.message_view(e.0, user)),
    })
}

/// What is printed for the results of locking users.
pub fn lock_users_output_status(output: &[(MySQLUser, Result<(), LockUserError>)], unix_user: Option<&UnixUser>) -> (r: Vec<OutputLine>)
    ensures
        lines_view(r@) == report_lines(lock_users_output_status_items(output@, user_opt(unix_user)), false, true, true),
{
    let mut items: Vec<Result<String, String>> = Vec::new();
    let mut i: usize = 0;
    while i < output.len()
        invariant
            i <= output@.len(),
            items_view(items@) == lock_users_output_status_items(output@.take(i as int), user_opt(unix_user)),
        decreases output@.len() - i,
    {
        let (name, result) = &output[i];
        let item: Result<String, String> = match result {
            Ok(()) => {
                let mut s = String::from_str("User '");
                push_str(&mut s, name.as_str());
                push_str(&mut s, "' locked successfully.");
                Ok(s)
            },
            Err(err) => Err(err.to_error_message(name, unix_user)),
        };
        let ghost before = items_view(items@);
        items.push(item);
        proof {
            assert(output@.take(i + 1) =~= output@.take(i as int).push(output@[i as int]));
            assert(items_view(items@) =~= before.push(items_view(items@).last()));
            assert(items_view(items@) =~= lock_users_output_status_items(output@.take(i + 1), user_opt(unix_user)));
        }
        i = i + 1;
    }
    assert(output@.take(output@.len() as int) =~= output@);
    report(items.as_slice(), false, true, true)
}

/// What is printed for the results of unlocking users.
pub open spec fn unlock_users_output_status_items(output: Seq<(MySQLUser, Result<(), UnlockUserError>)>, user: Option<UnixUser>) -> Seq<Result<Seq<char>, Seq<char>>> {
    output.map_values(|e: (MySQLUser, Result<(), UnlockUserError>)| match e.1 {
        Ok(()) => Ok("User '"@ + e.0@ + "' unlocked successfully."@),
        Err(err) => Err(err.message_view(e.0, user)),
    })
}

/// What is printed for the results of unlocking users.
pub fn unlock_users_output_status(output: &[(MySQLUser, Result<(), UnlockUserError>)], unix_user: Option<&UnixUser>) -> (r: Vec<OutputLine>)
    ensures
        lines_view(r@) == report_lines(unlock_users_output_status_items(output@, user_opt(unix_user)), true, true, true),
{
    let mut items: Vec<Result<String, String>> = Vec::new();
    let mut i: usize = 0;
    while i < output.len()
        invariant
            i <= output@.len(),
            items_view(items@) == unlock_users_output_status_items(output@.take(i as int), user_opt(unix_user)),
        decreases output@.len() - i,
    {
        let (name, result) = &output[i];
        let item: Result<String, String> = match result {
            Ok(()) => {
                let mut s = String::from_str("User '");
                push_str(&mut s, name.as_str());
                push_str(&mut s, "' unlocked successfully.");
                Ok(s)
            },
            Err(err) => Err(err.to_error_message(name, unix_user)),
        };
        let ghost before = items_view(items@);
        items.push(item);
        proof {
            assert(output@.take(i + 1) =~= output@.take(i as int).push(output@[i as int]));
            assert(items_view(items@) =~= before.push(items_view(items@).last()));
            assert(items_view(items@) =~= unlock_users_output_status_items(output@.take(i + 1), user_opt(unix_user)));
        }
        i = i + 1;
    }
    assert(output@.take(output@.len() as int) =~= output@);
    report(items.as_slice(), true, true, true)
}

/// What is printed for the results of checking whether names may be used: `'name': OK`, or
/// `'name': ` and the message to standard error.
pub open spec fn check_authorization_output_status_items(output: Seq<(DbOrUser, Result<(), CheckAuthorizationError>)>, user: Option<UnixUser>) -> Seq<Result<Seq<char>, Seq<char>>> {
    output.map_values(|e: (DbOrUser, Result<(), CheckAuthorizationError>)| match e.1 {
        Ok(()) => Ok("'"@ + e.0.name_view() + "': OK"@),
        Err(err) => Err("'"@ + e.0.name_view() + "': "@ + authorization_error_text(err.0, e.0, user)),
    })
}

/// What is printed for the results of checking whether names may be used.
pub fn check_authorization_output_status(output: &[(DbOrUser, Result<(), CheckAuthorizationError>)], unix_user: Option<&UnixUser>) -> (r: Vec<OutputLine>)
    ensures
        lines_view(r@) == report_lines(check_authorization_output_status_items(output@, user_opt(unix_user)), true, false, false),
{
    let mut items: Vec<Result<String, String>> = Vec::new();
    let mut i: usize = 0;
    while i < output.len()
        invariant
            i <= output@.len(),
            items_view(items@) == check_authorization_output_status_items(output@.take(i as int), user_opt(unix_user)),
        decreases output@.len() - i,
    {
        let (name, result) = &output[i];
        let mut s = String::from_str("'");
        push_str(&mut s, name.name());
        let item: Result<String, String> = match result {
            Ok(()) => {
                push_str(&mut s, "': OK");
                Ok(s)
            },
            Err(err) => {
                push_str(&mut s, "': ");
                let m = err.to_error_message(name, unix_user);
                push_str(&mut s, m.as_str());
                Err(s)
            },
        };
        let ghost before = items_view(items@);
        items.push(item);
        proof {
            assert(output@.take(i + 1) =~= output@.take(i as int).push(output@[i as int]));
            assert(items_view(items@) =~= before.push(items_view(items@).last()));
            assert(items_view(items@) =~= check_authorization_output_status_items(output@.take(i + 1), user_opt(unix_user)));
        }
        i = i + 1;
    }
    assert(output@.take(output@.len() as int) =~= output@);
    report(items.as_slice(), true, false, false)
}

/// What is printed for the results of changing privileges: a line per database and user, the
/// failures to standard error.
pub open spec fn modify_database_privileges_output_status_items(output: Seq<((MySQLDatabase, MySQLUser), Result<(), ModifyDatabasePrivilegesError>)>, user: Option<UnixUser>) -> Seq<Result<Seq<char>, Seq<char>>> {
    output.map_values(|e: ((MySQLDatabase, MySQLUser), Result<(), ModifyDatabasePrivilegesError>)| match e.1 {
        Ok(()) => Ok("Privileges for user '"@ + e.0.1@ + "' on database '"@ + e.0.0@ + "' modified successfully."@),
        Err(err) => Err(err.message_view(e.0.0, e.0.1, user)),
    })
}

/// What is printed for the results of changing privileges.
pub fn modify_database_privileges_output_status(output: &[((MySQLDatabase, MySQLUser), Result<(), ModifyDatabasePrivilegesError>)], unix_user: Option<&UnixUser>) -> (r: Vec<OutputLine>)
    ensures
        lines_view(r@) == report_lines(modify_database_privileges_output_status_items(output@, user_opt(unix_user)), true, true, true),
{
    let mut items: Vec<Result<String, String>> = Vec::new();
    let mut i: usize = 0;
    while i < output.len()
        invariant
            i <= output@.len(),
            items_view(items@) == modify_database_privileges_output_status_items(output@.take(i as int), user_opt(unix_user)),
        decreases output@.len() - i,
    {
        let ((db, user), result) = &output[i];
        let item: Result<String, String> = match result {
            Ok(()) => {
                let mut s = String::from_str("Privileges for user '");
                push_str(&mut s, user.as_str());
                push_str(&mut s, "' on database '");
                push_str(&mut s, db.as_str());
                push_str(&mut s, "' modified successfully.");
                Ok(s)
            },
            Err(err) => Err(err.to_error_message(db, user, unix_user)),
        };
        let ghost before = items_view(items@);
        items.push(item);
        proof {
            assert(output@.take(i + 1) =~= output@.take(i as int).push(output@[i as int]));
            assert(items_view(items@) =~= before.push(items_view(items@).last()));
            assert(items_view(items@) =~= modify_database_privileges_output_status_items(output@.take(i + 1), user_opt(unix_user)));
        }
        i = i + 1;
    }
    assert(output@.take(output@.len() as int) =~= output@);
    report(items.as_slice(), true, true, true)
}

/// What is printed for the result of setting a password.
pub open spec fn set_password_output_status_item(output: Result<(), SetPasswordError>, username: MySQLUser, user: Option<UnixUser>) -> Result<Seq<char>, Seq<char>> {
    match output {
        Ok(()) => Ok("Password for user '"@ + username@ + "' set successfully."@),
        Err(err) => Err(err.message_view(username, user)),
    }
}

/// What is printed for the result of setting a password: a line for the success, or the
/// message and `Skipping...`.
pub fn set_password_output_status(output: &Result<(), SetPasswordError>, username: &MySQLUser, unix_user: Option<&UnixUser>) -> (r: Vec<OutputLine>)
    ensures
        lines_view(r@) == report_lines(seq![set_password_output_status_item(*output, *username, user_opt(unix_user))], false, true, false),
{
    let item: Result<String, String> = match output {
        Ok(()) => {
            let mut s = String::from_str("Password for user '");
            push_str(&mut s, username.as_str());
            push_str(&mut s, "' set successfully.");
            Ok(s)
        },
        Err(err) => Err(err.to_error_message(username, unix_user)),
    };
    let mut items: Vec<Result<String, String>> = Vec::new();
    items.push(item);
    assert(items_view(items@) =~= seq![set_password_output_status_item(*output, *username, user_opt(unix_user))]);
    report(items.as_slice(), false, true, false)
}

/// What is printed for a listing: for each failure, its message and `Skipping...` to
/// standard error; then the table, or the line for an empty listing.
pub open spec fn listing_lines(errors: Seq<Seq<char>>, table: Option<Seq<char>>, empty_text: Seq<char>) -> Seq<OutputView> {
    report_lines(errors.map_values(|m: Seq<char>| Err::<Seq<char>, Seq<char>>(m)), true, true, false) + match table {
        Some(t) => seq![OutputView::Stdout(t)],
        None => seq![line_to(false, empty_text)],
    }
}

/// The lines of a listing.
fn listing(errors: Vec<String>, table: Option<String>, empty_text: &str) -> (r: Vec<OutputLine>)
    ensures
        lines_view(r@) == listing_lines(strings_of(errors@), match table {
            Some(t) => Some(t@),
            None => None,
        }, empty_text@),
{
    let mut items: Vec<Result<String, String>> = Vec::new();
    let mut i: usize = 0;
    while i < errors.len()
        invariant
            i <= errors@.len(),
            items@.len() == i,
            forall|j: int| 0 <= j < i ==> #[trigger] items@[j] is Err && items@[j]->Err_0@ == errors@[j]@,
        decreases errors@.len() - i,
    {
        items.push(Err(errors[i].clone()));
        i = i + 1;
    }
    assert(items_view(items@) =~= strings_of(errors@).map_values(|m: Seq<char>| Err::<Seq<char>, Seq<char>>(m)));
    let mut out = report(items.as_slice(), true, true, false);
    let ghost before = lines_view(out@);
    match table {
        Some(t) => out.push(OutputLine::Stdout(t)),
        None => out.push(line(false, empty_text)),
    }
    assert(lines_view(out@) =~= before + lines_view(out@).subrange(before.len() as int, out@.len() as int));
    out
}

/// A database as the server lists it.
#[derive(Debug)]
pub struct DatabaseRow {
    pub database: MySQLDatabase,
    pub tables: Vec<String>,
    pub users: Vec<MySQLUser>,
    pub collation: Option<String>,
    pub character_set: Option<String>,
    pub size_bytes: u64,
}

/// A user as the server lists it.
#[derive(Debug)]
pub struct DatabaseUser {
    pub user: MySQLUser,
    pub host: String,
    pub has_password: bool,
    pub is_locked: bool,
    pub databases: Vec<String>,
}

/// An optional text, or `N/A`.
pub open spec fn or_na(t: Option<String>) -> Seq<char> {
    match t {
        Some(s) => s@,
        None => "N/A"@,
    }
}

/// The names of users, each seen as its characters.
pub open spec fn users_of(v: Seq<MySQLUser>) -> Seq<Seq<char>> {
    v.map_values(|u: MySQLUser| u@)
}

/// The cells of a database in the listing of databases.
pub open spec fn database_cells(row: DatabaseRow, size_as_bytes: bool) -> Seq<Seq<char>> {
    seq![
        row.database@,
        join(strings_of(row.tables@), "\n"@),
        join(users_of(row.users@), "\n"@),
        or_na(row.collation),
        or_na(row.character_set),
        if size_as_bytes { decimal(row.size_bytes as nat) } else { decimal_size_text(row.size_bytes) },
    ]
}

/// The title row of the listing of databases.
pub open spec fn database_titles(size_as_bytes: bool) -> Seq<Seq<char>> {
    seq!["Database"@, "Tables"@, "Users"@, "Collation"@, "Character Set"@, if size_as_bytes { "Size (Bytes)"@ } else { "Size"@ }]
}

/// The messages of the failures in a listing of databases, in order.
pub open spec fn database_errors(output: Seq<(MySQLDatabase, Result<DatabaseRow, ListDatabasesError>)>, user: Option<UnixUser>) -> Seq<Seq<char>>
    decreases output.len(),
{
    if output.len() == 0 {
        Seq::empty()
    } else {
        let rest = database_errors(output.drop_last(), user);
        match output.last().1 {
            Ok(_) => rest,
            Err(e) => rest.push(e.message_view(output.last().0, user)),
        }
    }
}

/// The rows of the databases listed, in order.
pub open spec fn database_rows(output: Seq<(MySQLDatabase, Result<DatabaseRow, ListDatabasesError>)>, size_as_bytes: bool) -> Seq<Seq<Seq<char>>>
    decreases output.len(),
{
    if output.len() == 0 {
        Seq::empty()
    } else {
        let rest = database_rows(output.drop_last(), size_as_bytes);
        match output.last().1 {
            Ok(row) => rest.push(database_cells(row, size_as_bytes)),
            Err(_) => rest,
        }
    }
}

/// Joins the strings of a list with line breaks.
fn lines_of(v: &[String]) -> (r: String)
    ensures
        r@ == join(strings_of(v@), "\n"@),
{
    assert(strings_of(v@) =~= v@.map_values(|p: String| p@));
    join_strings(v, "\n")
}

/// Joins user names with line breaks.
fn user_lines(v: &[MySQLUser]) -> (r: String)
    ensures
        r@ == join(users_of(v@), "\n"@),
{
    let mut names: Vec<String> = Vec::new();
    let mut i: usize = 0;
    while i < v.len()
        invariant
            i <= v@.len(),
            names@.len() == i,
            forall|j: int| 0 <= j < i ==> #[trigger] names@[j]@ == v@[j]@,
        decreases v@.len() - i,
    {
        names.push(v[i].0.clone());
        i = i + 1;
    }
    assert(names@.map_values(|p: String| p@) =~= users_of(v@));
    join_strings(names.as_slice(), "\n")
}

/// An optional text, or `N/A`.
fn text_or_na(t: &Option<String>) -> (r: String)
    ensures
        r@ == or_na(*t),
{
    match t {
        Some(s) => s.clone(),
        None => String::from_str("N/A"),
    }
}

/// What is printed for a listing of databases: the failures to standard error, then a table
/// of the databases listed, or `No databases to show.` when there are none.
pub fn list_databases_output_status(
    output: &[(MySQLDatabase, Result<DatabaseRow, ListDatabasesError>)],
    display_size_as_bytes: bool,
    unix_user: Option<&UnixUser>,
) -> (r: Vec<OutputLine>)
    ensures
        lines_view(r@) == listing_lines(
            database_errors(output@, user_opt(unix_user)),
            if database_rows(output@, display_size_as_bytes).len() == 0 {
                None
            } else {
                Some(drawn_table(None, seq![database_titles(display_size_as_bytes)] + database_rows(output@, display_size_as_bytes)))
            },
            "No databases to show."@,
        ),
{
    let mut errors: Vec<String> = Vec::new();
    let mut rows: Vec<Vec<String>> = Vec::new();
    let mut header: Vec<String> = Vec::new();
    header.push(String::from_str("Database"));
    header.push(String::from_str("Tables"));
    header.push(String::from_str("Users"));
    header.push(String::from_str("Collation"));
    header.push(String::from_str("Character Set"));
    if display_size_as_bytes {
        header.push(String::from_str("Size (Bytes)"));
    } else {
        header.push(String::from_str("Size"));
    }
    assert(strings_of(header@) =~= database_titles(display_size_as_bytes));
    rows.push(header);
    let mut i: usize = 0;
    while i < output.len()
        invariant
            i <= output@.len(),
            strings_of(errors@) == database_errors(output@.take(i as int), user_opt(unix_user)),
            cells_view(rows@) == seq![database_titles(display_size_as_bytes)] + database_rows(output@.take(i as int), display_size_as_bytes),
        decreases output@.len() - i,
    {
        assert(output@.take(i + 1).drop_last() =~= output@.take(i as int));
        assert(output@.take(i + 1).last() == output@[i as int]);
        let (name, result) = &output[i];
        match result {
            Ok(db) => {
                let mut cells: Vec<String> = Vec::new();
                cells.push(db.database.0.clone());
                cells.push(lines_of(db.tables.as_slice()));
                cells.push(user_lines(db.users.as_slice()));
                cells.push(text_or_na(&db.collation));
                cells.push(text_or_na(&db.character_set));
                if display_size_as_bytes {
                    cells.push(u64_to_decimal(db.size_bytes));
                } else {
                    cells.push(format_size_decimal(db.size_bytes));
                }
                assert(strings_of(cells@) =~= database_cells(*db, display_size_as_bytes));
                let ghost before = cells_view(rows@);
                rows.push(cells);
                assert(cells_view(rows@) =~= before.push(database_cells(*db, display_size_as_bytes)));
            },
            Err(err) => {
                let ghost before = strings_of(errors@);
                errors.push(err.to_error_message(name, unix_user));
                assert(strings_of(errors@) =~= before.push(err.message_view(*name, user_opt(unix_user))));
            },
        }
        i = i + 1;
    }
    assert(output@.take(output@.len() as int) =~= output@);
    let table = if rows.len() <= 1 {
        None
    } else {
        Some(draw_table(None, rows.as_slice()))
    };
    listing(errors, table, "No databases to show.")
}

/// `true` or `false`, as `bool`'s `Display` writes it.
pub open spec fn bool_text(b: bool) -> Seq<char> {
    if b { "true"@ } else { "false"@ }
}

/// The cells of a user in the listing of users.
pub open spec fn user_cells(u: DatabaseUser) -> Seq<Seq<char>> {
    seq![u.user@, bool_text(u.has_password), bool_text(u.is_locked), join(strings_of(u.databases@), "\n"@)]
}

/// The title row of the listing of users.
pub open spec fn user_titles() -> Seq<Seq<char>> {
    seq!["User"@, "Password is set"@, "Locked"@, "Databases where user has privileges"@]
}

/// The messages of the failures in a listing of users, in order.
pub open spec fn user_errors(output: Seq<(MySQLUser, Result<DatabaseUser, ListUsersError>)>, user: Option<UnixUser>) -> Seq<Seq<char>>
    decreases output.len(),
{
    if output.len() == 0 {
        Seq::empty()
    } else {
        let rest = user_errors(output.drop_last(), user);
        match output.last().1 {
            Ok(_) => rest,
            Err(e) => rest.push(e.message_view(output.last().0, user)),
        }
    }
}

/// The rows of the users listed, in order.
pub open spec fn user_rows(output: Seq<(MySQLUser, Result<DatabaseUser, ListUsersError>)>) -> Seq<Seq<Seq<char>>>
    decreases output.len(),
{
    if output.len() == 0 {
        Seq::empty()
    } else {
        let rest = user_rows(output.drop_last());
        match output.last().1 {
            Ok(u) => rest.push(user_cells(u)),
            Err(_) => rest,
        }
    }
}

/// `true` or `false`.
fn bool_string(b: bool) -> (r: String)
    ensures
        r@ == bool_text(b),
{
    if b { String::from_str("true") } else { String::from_str("false") }
}

/// What is printed for a listing of users: the failures to standard error, then a table of
/// the users listed, or `No users to show.` when there are none.
pub fn list_users_output_status(output: &[(MySQLUser, Result<DatabaseUser, ListUsersError>)], unix_user: Option<&UnixUser>) -> (r: Vec<OutputLine>)
    ensures
        lines_view(r@) == listing_lines(
            user_errors(output@, user_opt(unix_user)),
            if user_rows(output@).len() == 0 {
                None
            } else {
                Some(drawn_table(None, seq![user_titles()] + user_rows(output@)))
            },
            "No users to show."@,
        ),
{
    let mut errors: Vec<String> = Vec::new();
    let mut rows: Vec<Vec<String>> = Vec::new();
    let mut header: Vec<String> = Vec::new();
    header.push(String::from_str("User"));
    header.push(String::from_str("Password is set"));
    header.push(String::from_str("Locked"));
    header.push(String::from_str("Databases where user has privileges"));
    assert(strings_of(header@) =~= user_titles());
    rows.push(header);
    let mut i: usize = 0;
    while i < output.len()
        invariant
            i <= output@.len(),
            strings_of(errors@) == user_errors(output@.take(i as int), user_opt(unix_user)),
            cells_view(rows@) == seq![user_titles()] + user_rows(output@.take(i as int)),
        decreases output@.len() - i,
    {
        assert(output@.take(i + 1).drop_last() =~= output@.take(i as int));
        assert(output@.take(i + 1).last() == output@[i as int]);
        let (name, result) = &output[i];
        match result {
            Ok(u) => {
                let mut cells: Vec<String> = Vec::new();
                cells.push(u.user.0.clone());
                cells.push(bool_string(u.has_password));
                cells.push(bool_string(u.is_locked));
                cells.push(lines_of(u.databases.as_slice()));
                assert(strings_of(cells@) =~= user_cells(*u));
                let ghost before = cells_view(rows@);
                rows.push(cells);
                assert(cells_view(rows@) =~= before.push(user_cells(*u)));
            },
            Err(err) => {
                let ghost before = strings_of(errors@);
                errors.push(err.to_error_message(name, unix_user));
                assert(strings_of(errors@) =~= before.push(err.message_view(*name, user_opt(unix_user))));
            },
        }
        i = i + 1;
    }
    assert(output@.take(output@.len() as int) =~= output@);
    let table = if rows.len() <= 1 {
        None
    } else {
        Some(draw_table(None, rows.as_slice()))
    };
    listing(errors, table, "No users to show.")
}

/// The styled cells of a privilege row in the listing of privileges: the names as they are,
/// the `Y`/`N` cells centered.
pub open spec fn privilege_cells(r: PrivilegeRowView) -> Seq<(Seq<char>, Seq<char>)> {
    Seq::new(13, |i: int| if i == 0 {
        (r.0, Seq::<char>::empty())
    } else if i == 1 {
        (r.1, Seq::<char>::empty())
    } else {
        (yn_chars(r.2[i - 2]), "c"@)
    })
}

/// The title row of the listing of privileges: the titles of the thirteen columns.
pub open spec fn privilege_titles() -> Seq<(Seq<char>, Seq<char>)> {
    Seq::new(13, |i: int| (column_title(i), Seq::<char>::empty()))
}

/// Whether an answer about the privileges on a database holds rows.
pub open spec fn privilege_errors(output: Seq<(MySQLDatabase, Result<Vec<DatabasePrivilegeRow>, GetDatabasesPrivilegeDataError>)>, user: Option<UnixUser>) -> Seq<Seq<char>>
    decreases output.len(),
{
    if output.len() == 0 {
        Seq::empty()
    } else {
        let rest = privilege_errors(output.drop_last(), user);
        match output.last().1 {
            Ok(_) => rest,
            Err(e) => rest.push(e.message_view(output.last().0, user)),
        }
    }
}

/// The rows of privileges listed, database after database, in order.
pub open spec fn privilege_rows(output: Seq<(MySQLDatabase, Result<Vec<DatabasePrivilegeRow>, GetDatabasesPrivilegeDataError>)>) -> Seq<Seq<(Seq<char>, Seq<char>)>>
    decreases output.len(),
{
    if output.len() == 0 {
        Seq::empty()
    } else {
        let rest = privilege_rows(output.drop_last());
        match output.last().1 {
            Ok(rows) => rest + rows_view(rows@).map_values(|r: PrivilegeRowView| privilege_cells(r)),
            Err(_) => rest,
        }
    }
}

/// How many answers about the privileges on a database hold rows.
pub open spec fn privilege_successes(output: Seq<(MySQLDatabase, Result<Vec<DatabasePrivilegeRow>, GetDatabasesPrivilegeDataError>)>) -> nat
    decreases output.len(),
{
    if output.len() == 0 {
        0
    } else {
        privilege_successes(output.drop_last()) + if output.last().1 is Ok { 1nat } else { 0nat }
    }
}

/// The cells of the listing of privileges are centered or plain.
proof fn lemma_privilege_rows_styles(output: Seq<(MySQLDatabase, Result<Vec<DatabasePrivilegeRow>, GetDatabasesPrivilegeDataError>)>)
    ensures
        known_styles(privilege_rows(output)),
        known_styles(seq![privilege_titles()] + privilege_rows(output)),
    decreases output.len(),
{
    reveal_strlit("c");
    if output.len() > 0 {
        lemma_privilege_rows_styles(output.drop_last());
        let rest = privilege_rows(output.drop_last());
        match output.last().1 {
            Ok(rows) => {
                let add = rows_view(rows@).map_values(|r: PrivilegeRowView| privilege_cells(r));
                let all = rest + add;
                assert(all == privilege_rows(output));
                assert forall|i: int, j: int| 0 <= i < all.len() && 0 <= j < all[i].len() implies (#[trigger] all[i][j]).1 == "c"@
                    || all[i][j].1 == Seq::<char>::empty() by {
                    if i >= rest.len() {
                        assert(all[i] == privilege_cells(rows_view(rows@)[i - rest.len()]));
                    } else {
                        assert(all[i] == rest[i]);
                    }
                }
            },
            Err(_) => {},
        }
    }
    let rows = privilege_rows(output);
    let all = seq![privilege_titles()] + rows;
    assert forall|i: int, j: int| 0 <= i < all.len() && 0 <= j < all[i].len() implies (#[trigger] all[i][j]).1 == "c"@
        || all[i][j].1 == Seq::<char>::empty() by {
        if i > 0 {
            assert(all[i] == rows[i - 1]);
        } else {
            assert(all[i] == privilege_titles());
        }
    }
}

/// A cell with a style spec.
fn cell(text: String, centered: bool) -> (r: TableCell)
    ensures
        r.text@ == text@,
        r.style@ == (if centered { "c"@ } else { Seq::<char>::empty() }),
{
    let style = if centered { String::from_str("c") } else { String::new() };
    TableCell { text, style }
}

/// What is printed for a listing of privileges: the failures to standard error, then a table
/// of the privileges on the databases listed, or `No privileges to show.` when no database
/// could be listed.
pub fn list_privileges_output_status(
    output: &[(MySQLDatabase, Result<Vec<DatabasePrivilegeRow>, GetDatabasesPrivilegeDataError>)],
    unix_user: Option<&UnixUser>,
) -> (r: Vec<OutputLine>)
    ensures
        lines_view(r@) == listing_lines(
            privilege_errors(output@, user_opt(unix_user)),
            if privilege_successes(output@) == 0 {
                None
            } else {
                Some(drawn_styled_table(seq![privilege_titles()] + privilege_rows(output@)))
            },
            "No privileges to show."@,
        ),
{
    let mut errors: Vec<String> = Vec::new();
    let mut rows: Vec<Vec<TableCell>> = Vec::new();
    let mut header: Vec<TableCell> = Vec::new();
    let mut k: usize = 0;
    while k < 13
        invariant
            k <= 13,
            header@.len() == k,
            forall|j: int| 0 <= j < k ==> (#[trigger] header@[j]).text@ == column_title(j) && header@[j].style@ == Seq::<char>::empty(),
        decreases 13 - k,
    {
        header.push(cell(db_priv_field_human_readable_name(database_privilege_field(k)), false));
        k = k + 1;
    }
    assert(header@.map_values(|c: TableCell| (c.text@, c.style@)) =~= privilege_titles());
    rows.push(header);
    let mut successes: usize = 0;
    let mut i: usize = 0;
    while i < output.len()
        invariant
            i <= output@.len(),
            successes <= i,
            successes == privilege_successes(output@.take(i as int)),
            strings_of(errors@) == privilege_errors(output@.take(i as int), user_opt(unix_user)),
            styled_cells_view(rows@) == seq![privilege_titles()] + privilege_rows(output@.take(i as int)),
        decreases output@.len() - i,
    {
        assert(output@.take(i + 1).drop_last() =~= output@.take(i as int));
        assert(output@.take(i + 1).last() == output@[i as int]);
        let (name, result) = &output[i];
        match result {
            Ok(privs) => {
                let ghost start = styled_cells_view(rows@);
                let mut j: usize = 0;
                while j < privs.len()
                    invariant
                        j <= privs@.len(),
                        styled_cells_view(rows@) == start + rows_view(privs@.take(j as int)).map_values(|r: PrivilegeRowView| privilege_cells(r)),
                    decreases privs@.len() - j,
                {
                    let row = &privs[j];
                    let mut cells: Vec<TableCell> = Vec::new();
                    cells.push(cell(row.db.0.clone(), false));
                    cells.push(cell(row.user.0.clone(), false));
                    let mut p: usize = 0;
                    while p < 11
                        invariant
                            p <= 11,
                            cells@.len() == p + 2,
                            cells@[0].text@ == row.db@ && cells@[0].style@ == Seq::<char>::empty(),
                            cells@[1].text@ == row.user@ && cells@[1].style@ == Seq::<char>::empty(),
                            forall|x: int| 2 <= x < p + 2 ==> (#[trigger] cells@[x]).text@ == yn_chars(row@.2[x - 2]) && cells@[x].style@ == "c"@,
                        decreases 11 - p,
                    {
                        cells.push(cell(String::from_str(yn(row.privilege_at(p))), true));
                        p = p + 1;
                    }
                    assert(cells@.map_values(|c: TableCell| (c.text@, c.style@)) =~= privilege_cells(row@));
                    let ghost before = styled_cells_view(rows@);
                    rows.push(cells);
                    proof {
                        assert(rows_view(privs@.take(j + 1)) =~= rows_view(privs@.take(j as int)).push(row@));
                        assert(styled_cells_view(rows@) =~= before.push(privilege_cells(row@)));
                        assert(rows_view(privs@.take(j + 1)).map_values(|r: PrivilegeRowView| privilege_cells(r))
                            =~= rows_view(privs@.take(j as int)).map_values(|r: PrivilegeRowView| privilege_cells(r)).push(privilege_cells(row@)));
                        assert(styled_cells_view(rows@) =~= start + rows_view(privs@.take(j + 1)).map_values(|r: PrivilegeRowView| privilege_cells(r)));
                    }
                    j = j + 1;
                }
                assert(privs@.take(privs@.len() as int) =~= privs@);
                successes = successes + 1;
            },
            Err(err) => {
                let ghost before = strings_of(errors@);
                errors.push(err.to_error_message(name, unix_user));
                assert(strings_of(errors@) =~= before.push(err.message_view(*name, user_opt(unix_user))));
            },
        }
        i = i + 1;
    }
    assert(output@.take(output@.len() as int) =~= output@);
    proof {
        lemma_privilege_rows_styles(output@);
    }
    let table = if successes == 0 {
        None
    } else {
        Some(draw_styled_table(rows.as_slice()))
    };
    listing(errors, table, "No privileges to show.")
}

/// The note on the prefixes the user may manage, one ` - prefix` line each.
pub open spec fn owner_hint_text(prefixes: Seq<Seq<char>>) -> Seq<char> {
    "Note: You are allowed to manage databases and users with the following prefixes:\n"@
        + join(prefixes.map_values(|p: Seq<char>| " - "@ + p), "\n"@)
}

/// The note on the prefixes the user may manage, printed after a refused request.
pub fn authorization_owner_hint(prefixes: &[String]) -> (r: String)
    ensures
        r@ == owner_hint_text(strings_of(prefixes@)),
{
    let mut lines: Vec<String> = Vec::new();
    let mut i: usize = 0;
    while i < prefixes.len()
        invariant
            i <= prefixes@.len(),
            lines@.len() == i,
            forall|j: int| 0 <= j < i ==> #[trigger] lines@[j]@ == " - "@ + prefixes@[j]@,
        decreases prefixes@.len() - i,
    {
        let mut l = String::from_str(" - ");
        push_str(&mut l, prefixes[i].as_str());
        lines.push(l);
        i = i + 1;
    }
    assert(lines@.map_values(|p: String| p@) =~= strings_of(prefixes@).map_values(|p: Seq<char>| " - "@ + p));
    let body = join_strings(lines.as_slice(), "\n");
    let mut s = String::from_str("Note: You are allowed to manage databases and users with the following prefixes:\n");
    push_str(&mut s, body.as_str());
    s
}


/// Whether the last answer about a database says it exists, if there is one.
pub open spec fn database_existence(list: Seq<(MySQLDatabase, bool)>, name: Seq<char>) -> Option<bool>
    decreases list.len(),
{
    if list.len() == 0 {
        None
    } else if list.last().0@ == name {
        Some(list.last().1)
    } else {
        database_existence(list.drop_last(), name)
    }
}

/// Whether the last answer about a user says it exists, if there is one.
pub open spec fn user_existence(list: Seq<(MySQLUser, bool)>, name: Seq<char>) -> Option<bool>
    decreases list.len(),
{
    if list.len() == 0 {
        None
    } else if list.last().0@ == name {
        Some(list.last().1)
    } else {
        user_existence(list.drop_last(), name)
    }
}

/// The lines printed for a diff whose database, or else whose user, is known not to exist;
/// none for a diff that is kept.
pub open spec fn skip_lines_of(
    d: PrivilegesDiffView,
    dbs: Seq<(MySQLDatabase, bool)>,
    users: Seq<(MySQLUser, bool)>,
) -> Option<Seq<OutputView>> {
    let key = diff_key(d);
    if database_existence(dbs, key.0) == Some(false) {
        Some(seq![line_to(false, "Database '"@ + key.0 + "' does not exist."@), line_to(false, "Skipping..."@)])
    } else if user_existence(users, key.1) == Some(false) {
        Some(seq![line_to(false, "User '"@ + key.1 + "' does not exist."@), line_to(false, "Skipping..."@)])
    } else {
        None
    }
}

/// The diffs kept, in order, and the lines printed for those skipped, in order.
pub open spec fn existing_diffs(
    ds: Seq<PrivilegesDiffView>,
    dbs: Seq<(MySQLDatabase, bool)>,
    users: Seq<(MySQLUser, bool)>,
) -> (Seq<PrivilegesDiffView>, Seq<OutputView>)
    decreases ds.len(),
{
    if ds.len() == 0 {
        (Seq::empty(), Seq::empty())
    } else {
        let rest = existing_diffs(ds.drop_last(), dbs, users);
        match skip_lines_of(ds.last(), dbs, users) {
            Some(l) => (rest.0, rest.1 + l),
            None => (rest.0.push(ds.last()), rest.1),
        }
    }
}

/// Whether the last answer about a database says it exists.
fn database_exists_in(list: &[(MySQLDatabase, bool)], name: &MySQLDatabase) -> (r: Option<bool>)
    ensures
        r == database_existence(list@, name@),
{
    let mut i = list.len();
    assert(list@.take(i as int) =~= list@);
    while i > 0
        invariant
            i <= list@.len(),
            database_existence(list@, name@) == database_existence(list@.take(i as int), name@),
        decreases i,
    {
        let ghost t = list@.take(i as int);
        assert(t.drop_last() =~= list@.take(i - 1));
        if list[i - 1].0.same_name(name) {
            return Some(list[i - 1].1);
        }
        i = i - 1;
    }
    None
}

/// Whether the last answer about a user says it exists.
fn user_exists_in(list: &[(MySQLUser, bool)], name: &MySQLUser) -> (r: Option<bool>)
    ensures
        r == user_existence(list@, name@),
{
    let mut i = list.len();
    assert(list@.take(i as int) =~= list@);
    while i > 0
        invariant
            i <= list@.len(),
            user_existence(list@, name@) == user_existence(list@.take(i as int), name@),
        decreases i,
    {
        let ghost t = list@.take(i as int);
        assert(t.drop_last() =~= list@.take(i - 1));
        if list[i - 1].0.same_name(name) {
            return Some(list[i - 1].1);
        }
        i = i - 1;
    }
    None
}

/// The lines `<text>` and `Skipping...`.
fn skip_lines(text: String) -> (r: Vec<OutputLine>)
    ensures
        lines_view(r@) == seq![line_to(false, text@), line_to(false, "Skipping..."@)],
{
    let mut v: Vec<OutputLine> = Vec::new();
    v.push(line(false, text.as_str()));
    v.push(line(false, "Skipping..."));
    assert(lines_view(v@) =~= seq![line_to(false, text@), line_to(false, "Skipping..."@)]);
    v
}

/// Keeps the diffs whose database and user are not known to be missing, in order. For each
/// other diff it prints `Database '<name>' does not exist.` (or, where only the user is
/// missing, `User '<name>' does not exist.`) and `Skipping...`; when no diff is kept it
/// prints `No changes to make.`.
pub fn keep_existing_diffs(
    diffs: &[DatabasePrivilegesDiff],
    database_exists: &[(MySQLDatabase, bool)],
    user_exists: &[(MySQLUser, bool)],
) -> (r: (Vec<DatabasePrivilegesDiff>, Vec<OutputLine>))
    ensures
        diffs_view(r.0@) == existing_diffs(diffs_view(diffs@), database_exists@, user_exists@).0,
        lines_view(r.1@) == existing_diffs(diffs_view(diffs@), database_exists@, user_exists@).1 + if existing_diffs(
            diffs_view(diffs@),
            database_exists@,
            user_exists@,
        ).0.len() == 0 {
            seq![line_to(false, "No changes to make."@)]
        } else {
            Seq::<OutputView>::empty()
        },
{
    let ghost dv = diffs_view(diffs@);
    let mut kept: Vec<DatabasePrivilegesDiff> = Vec::new();
    let mut lines: Vec<OutputLine> = Vec::new();
    let mut i: usize = 0;
    while i < diffs.len()
        invariant
            i <= diffs@.len(),
            dv == diffs_view(diffs@),
            diffs_view(kept@) == existing_diffs(dv.take(i as int), database_exists@, user_exists@).0,
            lines_view(lines@) == existing_diffs(dv.take(i as int), database_exists@, user_exists@).1,
        decreases diffs@.len() - i,
    {
        let d = &diffs[i];
        assert(dv.take(i + 1).drop_last() =~= dv.take(i as int));
        assert(dv.take(i + 1).last() == d@);
        let db = d.get_database_name();
        let user = d.get_user_name();
        let ghost before = lines_view(lines@);
        if let Some(false) = database_exists_in(database_exists, db) {
            let mut text = String::from_str("Database '");
            push_str(&mut text, db.as_str());
            push_str(&mut text, "' does not exist.");
            let mut more = skip_lines(text);
            lines.append(&mut more);
            assert(lines_view(lines@) =~= before + seq![
                line_to(false, "Database '"@ + db@ + "' does not exist."@),
                line_to(false, "Skipping..."@),
            ]);
        } else if let Some(false) = user_exists_in(user_exists, user) {
            let mut text = String::from_str("User '");
            push_str(&mut text, user.as_str());
            push_str(&mut text, "' does not exist.");
            let mut more = skip_lines(text);
            lines.append(&mut more);
            assert(lines_view(lines@) =~= before + seq![
                line_to(false, "User '"@ + user@ + "' does not exist."@),
                line_to(false, "Skipping..."@),
            ]);
        } else {
            let ghost kv = diffs_view(kept@);
            kept.push(d.clone());
            assert(diffs_view(kept@) =~= kv.push(d@));
        }
        i = i + 1;
    }
    assert(dv.take(diffs@.len() as int) =~= dv);
    if kept.len() == 0 {
        let ghost before = lines_view(lines@);
        lines.push(line(false, "No changes to make."));
        assert(lines_view(lines@) =~= before + seq![line_to(false, "No changes to make."@)]);
    } else {
        assert(lines_view(lines@) =~= lines_view(lines@) + Seq::<OutputView>::empty());
    }
    (kept, lines)
}


/// The databases of the rows, each once, in the order they first appear.
pub open spec fn databases_of(rows: Seq<PrivilegeRowView>) -> Seq<Seq<char>>
    decreases rows.len(),
{
    if rows.len() == 0 {
        Seq::empty()
    } else {
        let k = databases_of(rows.drop_last());
        if k.contains(rows.last().0) {
            k
        } else {
            k.push(rows.last().0)
        }
    }
}

/// The rows on a database, in order.
pub open spec fn rows_on(rows: Seq<PrivilegeRowView>, db: Seq<char>) -> Seq<PrivilegeRowView>
    decreases rows.len(),
{
    if rows.len() == 0 {
        Seq::empty()
    } else {
        let p = rows_on(rows.drop_last(), db);
        if rows.last().0 == db {
            p.push(rows.last())
        } else {
            p
        }
    }
}

/// The rows grouped by database: one group per database, in the order the databases first
/// appear, each with the rows on it in order.
pub fn group_privileges_by_database(rows: &[DatabasePrivilegeRow]) -> (r: Vec<(MySQLDatabase, Vec<DatabasePrivilegeRow>)>)
    ensures
        r@.len() == databases_of(rows_view(rows@)).len(),
        forall|i: int|
            0 <= i < r@.len() ==> (#[trigger] r@[i]).0@ == databases_of(rows_view(rows@))[i]
                && rows_view(r@[i].1@) == rows_on(rows_view(rows@), r@[i].0@),
{
    let ghost rv = rows_view(rows@);
    let mut groups: Vec<(MySQLDatabase, Vec<DatabasePrivilegeRow>)> = Vec::new();
    let mut i: usize = 0;
    while i < rows.len()
        invariant
            i <= rows@.len(),
            rv == rows_view(rows@),
            groups@.len() == databases_of(rv.take(i as int)).len(),
            forall|g: int|
                0 <= g < groups@.len() ==> (#[trigger] groups@[g]).0@ == databases_of(rv.take(i as int))[g]
                    && rows_view(groups@[g].1@) == rows_on(rv.take(i as int), groups@[g].0@),
        decreases rows@.len() - i,
    {
        let row = &rows[i];
        let ghost t = rv.take(i + 1);
        let ghost t0 = rv.take(i as int);
        assert(t.drop_last() =~= t0);
        assert(t.last() == row@);
        let ghost keys = databases_of(t0);
        let mut g: usize = 0;
        while g < groups.len() && !groups[g].0.same_name(&row.db)
            invariant
                g <= groups@.len(),
                groups@.len() == keys.len(),
                forall|x: int| 0 <= x < groups@.len() ==> (#[trigger] groups@[x]).0@ == keys[x],
                forall|x: int| 0 <= x < g ==> keys[x] != row.db@,
            decreases groups@.len() - g,
        {
            g = g + 1;
        }
        let ghost before = groups@;
        if g < groups.len() {
            assert(keys.contains(row.db@)) by {
                assert(keys[g as int] == row.db@);
            }
            assert(databases_of(t) == keys);
            proof {
                lemma_databases_distinct(t0);
            }
            let (k, mut members) = groups.remove(g);
            members.push(row.clone());
            groups.insert(g, (k, members));
            assert forall|x: int| 0 <= x < groups@.len() implies (#[trigger] groups@[x]).0@ == databases_of(t)[x]
                && rows_view(groups@[x].1@) == rows_on(t, groups@[x].0@) by {
                if x == g {
                    assert(rows_view(groups@[x].1@) =~= rows_view(before[x].1@).push(row@));
                } else {
                    assert(groups@[x] == before[x]);
                    assert(before[x].0@ != row.db@);
                }
            }
        } else {
            assert(!keys.contains(row.db@)) by {
                if keys.contains(row.db@) {
                    let x = choose|x: int| 0 <= x < keys.len() && keys[x] == row.db@;
                }
            }
            assert(databases_of(t) == keys.push(row.db@));
            let mut members: Vec<DatabasePrivilegeRow> = Vec::new();
            members.push(row.clone());
            groups.push((row.db.clone(), members));
            assert forall|x: int| 0 <= x < groups@.len() implies (#[trigger] groups@[x]).0@ == databases_of(t)[x]
                && rows_view(groups@[x].1@) == rows_on(t, groups@[x].0@) by {
                if x < before.len() {
                    assert(groups@[x] == before[x]);
                    assert(before[x].0@ != row.db@);
                } else {
                    assert(rows_on(t0, row.db@) =~= Seq::<PrivilegeRowView>::empty()) by {
                        lemma_rows_on_absent(t0, row.db@);
                    }
                    assert(rows_view(groups@[x].1@) =~= seq![row@]);
                }
            }
        }
        i = i + 1;
    }
    assert(rv.take(rows@.len() as int) =~= rv);
    groups
}

/// Each database occurs once among those of the rows.
proof fn lemma_databases_distinct(rows: Seq<PrivilegeRowView>)
    ensures
        databases_of(rows).no_duplicates(),
    decreases rows.len(),
{
    if rows.len() > 0 {
        lemma_databases_distinct(rows.drop_last());
        let k = databases_of(rows.drop_last());
        if !k.contains(rows.last().0) {
            let n = k.push(rows.last().0);
            assert forall|a: int, b: int| 0 <= a < n.len() && 0 <= b < n.len() && a != b implies n[a] != n[b] by {
                if a < k.len() && b < k.len() {
                    assert(n[a] == k[a] && n[b] == k[b]);
                } else if a < k.len() {
                    assert(n[a] == k[a]);
                } else {
                    assert(n[b] == k[b]);
                }
            }
        }
    }
}

/// A database that is not among those of the rows has no rows.
proof fn lemma_rows_on_absent(rows: Seq<PrivilegeRowView>, db: Seq<char>)
    requires
        !databases_of(rows).contains(db),
    ensures
        rows_on(rows, db) == Seq::<PrivilegeRowView>::empty(),
    decreases rows.len(),
{
    if rows.len() > 0 {
        let k = databases_of(rows.drop_last());
        if k.contains(db) {
            let x = choose|x: int| 0 <= x < k.len() && k[x] == db;
            assert(databases_of(rows).contains(db)) by {
                if !k.contains(rows.last().0) {
                    assert(k.push(rows.last().0)[x] == db);
                }
            }
        }
        if rows.last().0 == db {
            assert(databases_of(rows).contains(db)) by {
                if k.contains(rows.last().0) {
                } else {
                    assert(k.push(rows.last().0)[k.len() as int] == db);
                }
            }
        }
        lemma_rows_on_absent(rows.drop_last(), db);
    }
}


/// In the listing of users, each column shows what its title says: `User` the user's name,
/// `Password is set` whether it has a password, `Locked` whether it is locked, and the last
/// the databases it has privileges on.
pub proof fn lemma_user_columns(u: DatabaseUser)
    ensures
        user_cells(u).len() == user_titles().len(),
        user_titles().contains("Password is set"@),
        user_titles().contains("Locked"@),
        forall|j: int| 0 <= j < user_titles().len() && #[trigger] user_titles()[j] == "User"@ ==> user_cells(u)[j] == u.user@,
        forall|j: int| 0 <= j < user_titles().len() && #[trigger] user_titles()[j] == "Password is set"@ ==> user_cells(u)[j] == bool_text(u.has_password),
        forall|j: int| 0 <= j < user_titles().len() && #[trigger] user_titles()[j] == "Locked"@ ==> user_cells(u)[j] == bool_text(u.is_locked),
        forall|j: int| 0 <= j < user_titles().len() && #[trigger] user_titles()[j] == "Databases where user has privileges"@ ==> user_cells(u)[j] == join(strings_of(u.databases@), "\n"@),
{
    reveal_strlit("User");
    reveal_strlit("Password is set");
    reveal_strlit("Locked");
    reveal_strlit("Databases where user has privileges");
    let t = user_titles();
    assert(t[1] == "Password is set"@);
    assert(t[2] == "Locked"@);
    assert("User"@[0] == 'U' && "Password is set"@[0] == 'P' && "Locked"@[0] == 'L' && "Databases where user has privileges"@[0] == 'D');
    assert(t[0] != "Password is set"@ && t[0] != "Locked"@ && t[0] != "Databases where user has privileges"@);
    assert(t[1] != "User"@ && t[1] != "Locked"@ && t[1] != "Databases where user has privileges"@);
    assert(t[2] != "User"@ && t[2] != "Password is set"@ && t[2] != "Databases where user has privileges"@);
    assert(t[3] != "User"@ && t[3] != "Password is set"@ && t[3] != "Locked"@);
}

/// In the listing of privileges, each column shows what its title says: `Database` and
/// `User` the names, and the column titled with a privilege's name a `Y`/`N` cell that reads
/// back as that privilege of the row.
pub proof fn lemma_privilege_columns(r: PrivilegeRowView)
    ensures
        privilege_cells(r).len() == privilege_titles().len(),
        privilege_titles()[0].0 == "Database"@ && privilege_cells(r)[0].0 == r.0,
        privilege_titles()[1].0 == "User"@ && privilege_cells(r)[1].0 == r.1,
        forall|i: int| 0 <= i < 11 ==> (#[trigger] privilege_titles()[i + 2]).0 == human_readable_name(privilege_name(i))
            && rev_yn_spec(privilege_cells(r)[i + 2].0) == Some(r.2[i]),
{
    reveal_strlit("Db");
    reveal_strlit("User");
    assert("Db"@ != "User"@) by {
        assert("Db"@.len() == 2 && "User"@.len() == 4);
    }
    assert forall|i: int| 0 <= i < 11 implies (#[trigger] privilege_titles()[i + 2]).0 == human_readable_name(privilege_name(i))
        && rev_yn_spec(privilege_cells(r)[i + 2].0) == Some(r.2[i]) by {
        lemma_rev_yn_of_yn(r.2[i]);
        assert(yn_chars(r.2[i]) == (if r.2[i] { "Y"@ } else { "N"@ }));
    }
}


/// In the listing of databases, each column shows what its title says: the name, the tables,
/// the users, the collation, the character set, and the size in bytes or in decimal units.
pub proof fn lemma_database_columns(row: DatabaseRow, size_as_bytes: bool)
    ensures
        database_cells(row, size_as_bytes).len() == database_titles(size_as_bytes).len(),
        forall|j: int| 0 <= j < 6 && #[trigger] database_titles(size_as_bytes)[j] == "Database"@ ==> database_cells(row, size_as_bytes)[j] == row.database@,
        forall|j: int| 0 <= j < 6 && #[trigger] database_titles(size_as_bytes)[j] == "Tables"@ ==> database_cells(row, size_as_bytes)[j] == join(strings_of(row.tables@), "\n"@),
        forall|j: int| 0 <= j < 6 && #[trigger] database_titles(size_as_bytes)[j] == "Users"@ ==> database_cells(row, size_as_bytes)[j] == join(users_of(row.users@), "\n"@),
        forall|j: int| 0 <= j < 6 && #[trigger] database_titles(size_as_bytes)[j] == "Collation"@ ==> database_cells(row, size_as_bytes)[j] == or_na(row.collation),
        forall|j: int| 0 <= j < 6 && #[trigger] database_titles(size_as_bytes)[j] == "Character Set"@ ==> database_cells(row, size_as_bytes)[j] == or_na(row.character_set),
        forall|j: int| 0 <= j < 6 && #[trigger] database_titles(size_as_bytes)[j] == "Size (Bytes)"@ ==> database_cells(row, size_as_bytes)[j] == decimal(row.size_bytes as nat),
        forall|j: int| 0 <= j < 6 && #[trigger] database_titles(size_as_bytes)[j] == "Size"@ ==> database_cells(row, size_as_bytes)[j] == decimal_size_text(row.size_bytes),
{
    reveal_strlit("Database");
    reveal_strlit("Tables");
    reveal_strlit("Users");
    reveal_strlit("Collation");
    reveal_strlit("Character Set");
    reveal_strlit("Size (Bytes)");
    reveal_strlit("Size");
    let t = database_titles(size_as_bytes);
    assert("Database"@[0] == 'D' && "Tables"@[0] == 'T' && "Users"@[0] == 'U');
    assert("Collation"@[1] == 'o' && "Character Set"@[1] == 'h');
    assert("Collation"@[0] == 'C' && "Character Set"@[0] == 'C');
    assert("Size (Bytes)"@[0] == 'S' && "Size"@[0] == 'S');
    assert("Size (Bytes)"@.len() == 12 && "Size"@.len() == 4);
    assert(t[0] == "Database"@ && t[1] == "Tables"@ && t[2] == "Users"@);
    assert(t[3] == "Collation"@ && t[4] == "Character Set"@);
    assert(t[0] != "Tables"@ && t[0] != "Users"@ && t[0] != "Collation"@ && t[0] != "Character Set"@ && t[0] != "Size (Bytes)"@ && t[0] != "Size"@);
    assert(t[1] != "Database"@ && t[1] != "Users"@ && t[1] != "Collation"@ && t[1] != "Character Set"@ && t[1] != "Size (Bytes)"@ && t[1] != "Size"@);
    assert(t[2] != "Database"@ && t[2] != "Tables"@ && t[2] != "Collation"@ && t[2] != "Character Set"@ && t[2] != "Size (Bytes)"@ && t[2] != "Size"@);
    assert(t[3] != "Database"@ && t[3] != "Tables"@ && t[3] != "Users"@ && t[3] != "Character Set"@ && t[3] != "Size (Bytes)"@ && t[3] != "Size"@);
    assert(t[4] != "Database"@ && t[4] != "Tables"@ && t[4] != "Users"@ && t[4] != "Collation"@ && t[4] != "Size (Bytes)"@ && t[4] != "Size"@);
    if size_as_bytes {
        assert(t[5] == "Size (Bytes)"@);
        assert(t[5] != "Size"@);
    } else {
        assert(t[5] == "Size"@);
        assert(t[5] != "Size (Bytes)"@);
    }
    assert(t[5] != "Database"@ && t[5] != "Tables"@ && t[5] != "Users"@ && t[5] != "Collation"@ && t[5] != "Character Set"@);
}

} // verus!
