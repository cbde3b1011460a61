//! The privileges of one user on one database, and the names of the privilege fields.
use vstd::prelude::*;
use vstd::string::*;

use crate::muscl_core::types::{MySQLDatabase, MySQLUser};
use crate::text::{push_str, str_eq};

verus! {

/// The column names of the `db` table that hold a database, a user and their privileges.
pub const DATABASE_PRIVILEGE_FIELDS: [&'static str; 13] = [
    "Db",
    "User",
    "select_priv",
    "insert_priv",
    "update_priv",
    "delete_priv",
    "create_priv",
    "drop_priv",
    "alter_priv",
    "index_priv",
    "create_tmp_table_priv",
    "lock_tables_priv",
    "references_priv",
];

/// Two sequences of eleven elements are equal when they agree at each position.
pub proof fn lemma_seq11_ext<T>(a: Seq<T>, b: Seq<T>)
    requires
        a.len() == 11,
        b.len() == 11,
        a[0] == b[0],
        a[1] == b[1],
        a[2] == b[2],
        a[3] == b[3],
        a[4] == b[4],
        a[5] == b[5],
        a[6] == b[6],
        a[7] == b[7],
        a[8] == b[8],
        a[9] == b[9],
        a[10] == b[10],
    ensures
        a == b,
{
    assert forall|i: int| 0 <= i < 11 implies a[i] == b[i] by {
        if i == 0 {} else if i == 1 {} else if i == 2 {} else if i == 3 {} else if i == 4 {}
        else if i == 5 {} else if i == 6 {} else if i == 7 {} else if i == 8 {} else if i == 9 {}
        else {}
    }
    assert(a =~= b);
}

/// The number of privilege columns.
pub const NUM_PRIVILEGES: usize = 11;

/// The `i`th of the thirteen field names, in the order of [`DATABASE_PRIVILEGE_FIELDS`].
pub open spec fn field_name(i: int) -> Seq<char> {
    if i == 0 { "Db"@ }
    else if i == 1 { "User"@ }
    else if i == 2 { "select_priv"@ }
    else if i == 3 { "insert_priv"@ }
    else if i == 4 { "update_priv"@ }
    else if i == 5 { "delete_priv"@ }
    else if i == 6 { "create_priv"@ }
    else if i == 7 { "drop_priv"@ }
    else if i == 8 { "alter_priv"@ }
    else if i == 9 { "index_priv"@ }
    else if i == 10 { "create_tmp_table_priv"@ }
    else if i == 11 { "lock_tables_priv"@ }
    else { "references_priv"@ }
}

/// The name of the `i`th privilege (`0 <= i < 11`).
pub open spec fn privilege_name(i: int) -> Seq<char> {
    field_name(i + 2)
}

/// The `i`th field name, as a string slice.
pub fn database_privilege_field(i: usize) -> (r: &'static str)
    requires
        i < 13,
    ensures
        r@ == field_name(i as int),
{
    if i == 0 { "Db" }
    else if i == 1 { "User" }
    else if i == 2 { "select_priv" }
    else if i == 3 { "insert_priv" }
    else if i == 4 { "update_priv" }
    else if i == 5 { "delete_priv" }
    else if i == 6 { "create_priv" }
    else if i == 7 { "drop_priv" }
    else if i == 8 { "alter_priv" }
    else if i == 9 { "index_priv" }
    else if i == 10 { "create_tmp_table_priv" }
    else if i == 11 { "lock_tables_priv" }
    else { "references_priv" }
}

/// The position of a privilege name among the eleven privileges.
pub open spec fn privilege_index(name: Seq<char>) -> Option<int> {
    if name == "select_priv"@ { Some(0) }
    else if name == "insert_priv"@ { Some(1) }
    else if name == "update_priv"@ { Some(2) }
    else if name == "delete_priv"@ { Some(3) }
    else if name == "create_priv"@ { Some(4) }
    else if name == "drop_priv"@ { Some(5) }
    else if name == "alter_priv"@ { Some(6) }
    else if name == "index_priv"@ { Some(7) }
    else if name == "create_tmp_table_priv"@ { Some(8) }
    else if name == "lock_tables_priv"@ { Some(9) }
    else if name == "references_priv"@ { Some(10) }
    else { None }
}

/// The set of privileges of a single user on a single database.
#[derive(Debug, PartialEq, Eq, PartialOrd, Ord)]
pub struct DatabasePrivilegeRow {
    pub db: MySQLDatabase,
    pub user: MySQLUser,
    pub select_priv: bool,
    pub insert_priv: bool,
    pub update_priv: bool,
    pub delete_priv: bool,
    pub create_priv: bool,
    pub drop_priv: bool,
    pub alter_priv: bool,
    pub index_priv: bool,
    pub create_tmp_table_priv: bool,
    pub lock_tables_priv: bool,
    pub references_priv: bool,
}

/// A row seen as its database name, its user name and its eleven privileges.
pub type PrivilegeRowView = (Seq<char>, Seq<char>, Seq<bool>);

impl View for DatabasePrivilegeRow {
    type V = PrivilegeRowView;

    open spec fn view(&self) -> PrivilegeRowView {
        (self.db@, self.user@, self.privs())
    }
}

impl DatabasePrivilegeRow {
    /// The eleven privileges, in the order of the privilege fields.
    pub open spec fn privs(&self) -> Seq<bool> {
        Seq::new(11, |i: int| self.spec_privilege(i))
    }

    /// The `i`th privilege, in the order of the privilege fields.
    pub open spec fn spec_privilege(&self, i: int) -> bool {
        if i == 0 { self.select_priv }
        else if i == 1 { self.insert_priv }
        else if i == 2 { self.update_priv }
        else if i == 3 { self.delete_priv }
        else if i == 4 { self.create_priv }
        else if i == 5 { self.drop_priv }
        else if i == 6 { self.alter_priv }
        else if i == 7 { self.index_priv }
        else if i == 8 { self.create_tmp_table_priv }
        else if i == 9 { self.lock_tables_priv }
        else { self.references_priv }
    }

    /// A row whose privileges are the given eleven flags.
    pub fn from_privileges(db: MySQLDatabase, user: MySQLUser, p: &[bool]) -> (r: Self)
        requires
            p@.len() == 11,
        ensures
            r.db == db,
            r.user == user,
            r.privs() == p@,
    {
        let r = DatabasePrivilegeRow {
            db,
            user,
            select_priv: p[0],
            insert_priv: p[1],
            update_priv: p[2],
            delete_priv: p[3],
            create_priv: p[4],
            drop_priv: p[5],
            alter_priv: p[6],
            index_priv: p[7],
            create_tmp_table_priv: p[8],
            lock_tables_priv: p[9],
            references_priv: p[10],
        };
        proof { lemma_seq11_ext(r.privs(), p@); }
        r
    }

    /// The `i`th privilege.
    pub fn privilege_at(&self, i: usize) -> (r: bool)
        requires
            i < 11,
        ensures
            r == self.privs()[i as int],
    {
        if i == 0 { self.select_priv }
        else if i == 1 { self.insert_priv }
        else if i == 2 { self.update_priv }
        else if i == 3 { self.delete_priv }
        else if i == 4 { self.create_priv }
        else if i == 5 { self.drop_priv }
        else if i == 6 { self.alter_priv }
        else if i == 7 { self.index_priv }
        else if i == 8 { self.create_tmp_table_priv }
        else if i == 9 { self.lock_tables_priv }
        else { self.references_priv }
    }

    /// Gets the value of a privilege by its name.
    pub fn get_privilege_by_name(&self, name: &str) -> (r: Option<bool>)
        ensures
            r == (match privilege_index(name@) {
                Some(i) => Some(self.privs()[i]),
                None => None,
            }),
    {
        match privilege_index_of(name) {
            Some(i) => Some(self.privilege_at(i)),
            None => None,
        }
    }

    /// The row as it is displayed: one line per privilege,
    /// `<name>: Y` or `<name>: N`.
    pub fn to_display_string(&self) -> (r: String)
        ensures
            r@ == row_display(self.privs(), 11),
    {
        let mut out = String::new();
        let mut i: usize = 0;
        while i < 11
            invariant
                i <= 11,
                out@ == row_display(self.privs(), i as int),
            decreases 11 - i,
        {
            let name = db_priv_field_human_readable_name(database_privilege_field(i + 2));
            push_str(&mut out, name.as_str());
            if self.privilege_at(i) {
                push_str(&mut out, ": Y\n");
            } else {
                push_str(&mut out, ": N\n");
            }
            i = i + 1;
        }
        out
    }
}

impl Clone for DatabasePrivilegeRow {
    fn clone(&self) -> (r: Self)
        ensures
            r == *self,
    {
        DatabasePrivilegeRow {
            db: self.db.clone(),
            user: self.user.clone(),
            select_priv: self.select_priv,
            insert_priv: self.insert_priv,
            update_priv: self.update_priv,
            delete_priv: self.delete_priv,
            create_priv: self.create_priv,
            drop_priv: self.drop_priv,
            alter_priv: self.alter_priv,
            index_priv: self.index_priv,
            create_tmp_table_priv: self.create_tmp_table_priv,
            lock_tables_priv: self.lock_tables_priv,
            references_priv: self.references_priv,
        }
    }
}

/// The first `n` lines of a row's display.
pub open spec fn row_display(privs: Seq<bool>, n: int) -> Seq<char>
    decreases n,
{
    if n <= 0 {
        Seq::empty()
    } else {
        row_display(privs, n - 1) + human_readable_name(privilege_name(n - 1))
            + (if privs[n - 1] { ": Y\n"@ } else { ": N\n"@ })
    }
}

/// The position of a privilege name, looked up at run time.
pub fn privilege_index_of(name: &str) -> (r: Option<usize>)
    ensures
        match privilege_index(name@) {
            Some(i) => r == Some(i as usize),
            None => r is None,
        },
{
    if str_eq(name, "select_priv") { Some(0) }
    else if str_eq(name, "insert_priv") { Some(1) }
    else if str_eq(name, "update_priv") { Some(2) }
    else if str_eq(name, "delete_priv") { Some(3) }
    else if str_eq(name, "create_priv") { Some(4) }
    else if str_eq(name, "drop_priv") { Some(5) }
    else if str_eq(name, "alter_priv") { Some(6) }
    else if str_eq(name, "index_priv") { Some(7) }
    else if str_eq(name, "create_tmp_table_priv") { Some(8) }
    else if str_eq(name, "lock_tables_priv") { Some(9) }
    else if str_eq(name, "references_priv") { Some(10) }
    else { None }
}

/// The human-readable column title of a field name.
pub open spec fn human_readable_name(name: Seq<char>) -> Seq<char> {
    if name == "Db"@ { "Database"@ }
    else if name == "User"@ { "User"@ }
    else if name == "select_priv"@ { "Select"@ }
    else if name == "insert_priv"@ { "Insert"@ }
    else if name == "update_priv"@ { "Update"@ }
    else if name == "delete_priv"@ { "Delete"@ }
    else if name == "create_priv"@ { "Create"@ }
    else if name == "drop_priv"@ { "Drop"@ }
    else if name == "alter_priv"@ { "Alter"@ }
    else if name == "index_priv"@ { "Index"@ }
    else if name == "create_tmp_table_priv"@ { "Temp"@ }
    else if name == "lock_tables_priv"@ { "Lock"@ }
    else if name == "references_priv"@ { "References"@ }
    else { "Unknown("@ + name + ")"@ }
}

/// Converts a database privilege field name to a human-readable name.
pub fn db_priv_field_human_readable_name(name: &str) -> (r: String)
    ensures
        r@ == human_readable_name(name@),
{
    if str_eq(name, "Db") { String::from_str("Database") }
    else if str_eq(name, "User") { String::from_str("User") }
    else if str_eq(name, "select_priv") { String::from_str("Select") }
    else if str_eq(name, "insert_priv") { String::from_str("Insert") }
    else if str_eq(name, "update_priv") { String::from_str("Update") }
    else if str_eq(name, "delete_priv") { String::from_str("Delete") }
    else if str_eq(name, "create_priv") { String::from_str("Create") }
    else if str_eq(name, "drop_priv") { String::from_str("Drop") }
    else if str_eq(name, "alter_priv") { String::from_str("Alter") }
    else if str_eq(name, "index_priv") { String::from_str("Index") }
    else if str_eq(name, "create_tmp_table_priv") { String::from_str("Temp") }
    else if str_eq(name, "lock_tables_priv") { String::from_str("Lock") }
    else if str_eq(name, "references_priv") { String::from_str("References") }
    else {
        let mut s = String::from_str("Unknown(");
        push_str(&mut s, name);
        push_str(&mut s, ")");
        s
    }
}

/// The single character that stands for a privilege in the privilege editing syntax.
pub open spec fn single_character_name(name: Seq<char>) -> Seq<char> {
    if name == "select_priv"@ { "s"@ }
    else if name == "insert_priv"@ { "i"@ }
    else if name == "update_priv"@ { "u"@ }
    else if name == "delete_priv"@ { "d"@ }
    else if name == "create_priv"@ { "c"@ }
    else if name == "drop_priv"@ { "D"@ }
    else if name == "alter_priv"@ { "a"@ }
    else if name == "index_priv"@ { "I"@ }
    else if name == "create_tmp_table_priv"@ { "t"@ }
    else if name == "lock_tables_priv"@ { "l"@ }
    else if name == "references_priv"@ { "r"@ }
    else { "?"@ }
}

/// Converts a database privilege field name to a single-character name.
pub fn db_priv_field_single_character_name(name: &str) -> (r: &'static str)
    ensures
        r@ == single_character_name(name@),
{
    if str_eq(name, "select_priv") { "s" }
    else if str_eq(name, "insert_priv") { "i" }
    else if str_eq(name, "update_priv") { "u" }
    else if str_eq(name, "delete_priv") { "d" }
    else if str_eq(name, "create_priv") { "c" }
    else if str_eq(name, "drop_priv") { "D" }
    else if str_eq(name, "alter_priv") { "a" }
    else if str_eq(name, "index_priv") { "I" }
    else if str_eq(name, "create_tmp_table_priv") { "t" }
    else if str_eq(name, "lock_tables_priv") { "l" }
    else if str_eq(name, "references_priv") { "r" }
    else { "?" }
}

} // verus!
