//! Reading and writing the command line arguments that edit database privileges, such as
//! `database:user:+siud`.
use vstd::prelude::*;
use vstd::string::*;

use crate::muscl_core::database_privileges::diff::{
    DatabasePrivilegeChange, DatabasePrivilegeRowDiff, apply_change,
};
use crate::muscl_core::database_privileges::base::{
    privilege_name, single_character_name, DatabasePrivilegeRow,
};
use crate::muscl_core::types::{MySQLDatabase, MySQLUser};
use crate::text::{push_char, push_str};

verus! {

/// The characters accepted in a privilege edit, in the order the error message lists them.
pub open spec fn valid_edit_chars() -> Seq<char> {
    seq!['s', 'i', 'u', 'd', 'c', 'D', 'a', 'A', 'I', 't', 'l', 'r', 'A']
}

/// Whether a character may appear in a privilege edit.
pub open spec fn is_valid_edit_char(c: char) -> bool {
    valid_edit_chars().contains(c)
}

/// The character that stands for the `i`th privilege, in the order of the privilege fields.
pub open spec fn privilege_char(i: int) -> char {
    if i == 0 { 's' }
    else if i == 1 { 'i' }
    else if i == 2 { 'u' }
    else if i == 3 { 'd' }
    else if i == 4 { 'c' }
    else if i == 5 { 'D' }
    else if i == 6 { 'a' }
    else if i == 7 { 'I' }
    else if i == 8 { 't' }
    else if i == 9 { 'l' }
    else { 'r' }
}

/// Characters written as `'c'` and joined by `, `.
pub open spec fn quoted_list(cs: Seq<char>) -> Seq<char>
    decreases cs.len(),
{
    if cs.len() == 0 {
        Seq::empty()
    } else if cs.len() == 1 {
        seq!['\'', cs[0], '\'']
    } else {
        quoted_list(cs.drop_last()) + seq![',', ' ', '\'', cs.last(), '\'']
    }
}

/// The characters of `cs` that may not appear in a privilege edit, in order.
pub open spec fn invalid_chars(cs: Seq<char>) -> Seq<char>
    decreases cs.len(),
{
    if cs.len() == 0 {
        Seq::empty()
    } else if is_valid_edit_char(cs.last()) {
        invalid_chars(cs.drop_last())
    } else {
        invalid_chars(cs.drop_last()).push(cs.last())
    }
}

/// Whether privileges are added, set, or removed.
#[derive(Debug, Clone, Copy, PartialEq, Eq, Structural)]
pub enum DatabasePrivilegeEditEntryType {
    Add,
    Assign,
    Remove,
}

/// The kind of an edit: a leading `+` adds, a leading `-` removes, anything else sets.
pub open spec fn edit_type_of(s: Seq<char>) -> DatabasePrivilegeEditEntryType {
    if s.len() > 0 && s[0] == '+' {
        DatabasePrivilegeEditEntryType::Add
    } else if s.len() > 0 && s[0] == '-' {
        DatabasePrivilegeEditEntryType::Remove
    } else {
        DatabasePrivilegeEditEntryType::Assign
    }
}

/// The privilege characters of an edit: what follows the `+` or `-`, if there is one.
pub open spec fn edit_chars_of(s: Seq<char>) -> Seq<char> {
    if s.len() > 0 && (s[0] == '+' || s[0] == '-') {
        s.drop_first()
    } else {
        s
    }
}

/// The message for an edit with characters that are not privileges.
pub open spec fn invalid_edit_message(cs: Seq<char>) -> Seq<char> {
    "Invalid character(s) in privilege edit entry: "@ + quoted_list(invalid_chars(cs))
        + "\n\nValid characters are: "@ + quoted_list(valid_edit_chars())
}

/// A privilege edit read from text: its kind and characters, or the message for the
/// characters that are not privileges.
pub open spec fn parse_edit(s: Seq<char>) -> Result<
    (DatabasePrivilegeEditEntryType, Seq<char>),
    Seq<char>,
> {
    let cs = edit_chars_of(s);
    if forall|i: int| 0 <= i < cs.len() ==> is_valid_edit_char(#[trigger] cs[i]) {
        Ok((edit_type_of(s), cs))
    } else {
        Err(invalid_edit_message(cs))
    }
}

/// A privilege edit written as text: `+` for adding, `-` for removing, then the characters.
pub open spec fn edit_display(t: DatabasePrivilegeEditEntryType, cs: Seq<char>) -> Seq<char> {
    match t {
        DatabasePrivilegeEditEntryType::Add => seq!['+'] + cs,
        DatabasePrivilegeEditEntryType::Assign => cs,
        DatabasePrivilegeEditEntryType::Remove => seq!['-'] + cs,
    }
}

/// The privileges to add, set, or remove, as characters.
#[derive(Debug, PartialEq, Eq)]
pub struct DatabasePrivilegeEdit {
    pub type_: DatabasePrivilegeEditEntryType,
    pub privileges: Vec<char>,
}

impl View for DatabasePrivilegeEdit {
    type V = (DatabasePrivilegeEditEntryType, Seq<char>);

    open spec fn view(&self) -> (DatabasePrivilegeEditEntryType, Seq<char>) {
        (self.type_, self.privileges@)
    }
}

impl Clone for DatabasePrivilegeEdit {
    fn clone(&self) -> (r: Self)
        ensures
            r@ == self@,
    {
        DatabasePrivilegeEdit { type_: self.type_, privileges: self.privileges.clone() }
    }
}

/// Whether `c` is one of the characters accepted in a privilege edit.
fn is_valid_privilege_edit_char(c: char) -> (r: bool)
    ensures
        r == is_valid_edit_char(c),
{
    let r = c == 's' || c == 'i' || c == 'u' || c == 'd' || c == 'c' || c == 'D' || c == 'a'
        || c == 'A' || c == 'I' || c == 't' || c == 'l' || c == 'r';
    proof {
        let v = valid_edit_chars();
        if r {
            assert(v[0] == 's' && v[1] == 'i' && v[2] == 'u' && v[3] == 'd' && v[4] == 'c');
            assert(v[5] == 'D' && v[6] == 'a' && v[7] == 'A' && v[8] == 'I' && v[9] == 't');
            assert(v[10] == 'l' && v[11] == 'r');
        } else {
            assert forall|i: int| 0 <= i < v.len() implies v[i] != c by {}
        }
    }
    r
}

/// The accepted characters, in the order the error message lists them.
fn valid_privilege_edit_chars() -> (r: Vec<char>)
    ensures
        r@ == valid_edit_chars(),
{
    let mut v: Vec<char> = Vec::new();
    v.push('s');
    v.push('i');
    v.push('u');
    v.push('d');
    v.push('c');
    v.push('D');
    v.push('a');
    v.push('A');
    v.push('I');
    v.push('t');
    v.push('l');
    v.push('r');
    v.push('A');
    assert(v@ =~= valid_edit_chars());
    v
}

/// Writes characters as `'c'`, joined by `, `.
fn quoted_chars(cs: &[char]) -> (r: String)
    ensures
        r@ == quoted_list(cs@),
{
    let mut out = String::new();
    let mut i: usize = 0;
    while i < cs.len()
        invariant
            i <= cs@.len(),
            out@ == quoted_list(cs@.take(i as int)),
        decreases cs@.len() - i,
    {
        assert(cs@.take(i + 1).drop_last() =~= cs@.take(i as int));
        if i > 0 {
            push_char(&mut out, ',');
            push_char(&mut out, ' ');
        }
        push_char(&mut out, '\'');
        push_char(&mut out, cs[i]);
        push_char(&mut out, '\'');
        i = i + 1;
        assert(out@ =~= quoted_list(cs@.take(i as int)));
    }
    assert(cs@.take(cs@.len() as int) =~= cs@);
    out
}

impl DatabasePrivilegeEdit {
    /// Reads a privilege edit: an optional `+` (add) or `-` (remove), then privilege
    /// characters. Fails, listing the offending characters and the accepted ones, when a
    /// character is not a privilege.
    pub fn parse_from_str(input: &str) -> (r: Result<DatabasePrivilegeEdit, String>)
        ensures
            match parse_edit(input@) {
                Ok(e) => r is Ok && r->Ok_0@ == e,
                Err(m) => r is Err && r->Err_0@ == m,
            },
    {
        let len = input.unicode_len();
        let first_is_plus = len > 0 && input.get_char(0) == '+';
        let first_is_minus = len > 0 && input.get_char(0) == '-';
        let edit_type = if first_is_plus {
            DatabasePrivilegeEditEntryType::Add
        } else if first_is_minus {
            DatabasePrivilegeEditEntryType::Remove
        } else {
            DatabasePrivilegeEditEntryType::Assign
        };
        let start: usize = if first_is_plus || first_is_minus { 1 } else { 0 };
        let ghost cs = edit_chars_of(input@);
        assert(cs =~= input@.subrange(start as int, len as int));
        let mut privileges: Vec<char> = Vec::new();
        let mut invalid: Vec<char> = Vec::new();
        let mut i: usize = start;
        while i < len
            invariant
                len == input@.len(),
                start <= i <= len,
                cs == input@.subrange(start as int, len as int),
                privileges@ == cs.take(i - start),
                invalid@ == invalid_chars(cs.take(i - start)),
            decreases len - i,
        {
            let c = input.get_char(i);
            assert(cs.take(i - start + 1).drop_last() =~= cs.take(i - start));
            assert(cs.take(i - start + 1).last() == c);
            privileges.push(c);
            if !is_valid_privilege_edit_char(c) {
                invalid.push(c);
            }
            i = i + 1;
            assert(privileges@ =~= cs.take(i - start));
        }
        assert(cs.take(len - start) =~= cs);
        if invalid.len() > 0 {
            proof {
                lemma_invalid_chars_empty(cs);
            }
            let mut msg = String::from_str("Invalid character(s) in privilege edit entry: ");
            let listed = quoted_chars(invalid.as_slice());
            push_str(&mut msg, listed.as_str());
            push_str(&mut msg, "\n\nValid characters are: ");
            let valid = valid_privilege_edit_chars();
            let listed_valid = quoted_chars(valid.as_slice());
            push_str(&mut msg, listed_valid.as_str());
            return Err(msg);
        }
        proof {
            lemma_invalid_chars_empty(cs);
        }
        Ok(DatabasePrivilegeEdit { type_: edit_type, privileges })
    }

    /// The edit as text: `+` for adding, `-` for removing, then the privilege characters.
    pub fn to_display_string(&self) -> (r: String)
        ensures
            r@ == edit_display(self.type_, self.privileges@),
    {
        let mut out = String::new();
        match self.type_ {
            DatabasePrivilegeEditEntryType::Add => push_char(&mut out, '+'),
            DatabasePrivilegeEditEntryType::Assign => {},
            DatabasePrivilegeEditEntryType::Remove => push_char(&mut out, '-'),
        }
        let ghost prefix = out@;
        let mut i: usize = 0;
        while i < self.privileges.len()
            invariant
                i <= self.privileges@.len(),
                out@ == prefix + self.privileges@.take(i as int),
            decreases self.privileges@.len() - i,
        {
            push_char(&mut out, self.privileges[i]);
            i = i + 1;
            assert(out@ =~= prefix + self.privileges@.take(i as int));
        }
        assert(self.privileges@.take(self.privileges@.len() as int) =~= self.privileges@);
        assert(out@ =~= edit_display(self.type_, self.privileges@));
        out
    }
}

/// The invalid characters are none exactly when every character is valid.
proof fn lemma_invalid_chars_empty(cs: Seq<char>)
    ensures
        (invalid_chars(cs).len() == 0) <==> (forall|i: int|
            0 <= i < cs.len() ==> is_valid_edit_char(#[trigger] cs[i])),
    decreases cs.len(),
{
    if cs.len() > 0 {
        let dl = cs.drop_last();
        lemma_invalid_chars_empty(dl);
        if forall|i: int| 0 <= i < cs.len() ==> is_valid_edit_char(#[trigger] cs[i]) {
            assert forall|i: int| 0 <= i < dl.len() implies is_valid_edit_char(#[trigger] dl[i]) by {
                assert(dl[i] == cs[i]);
            }
            assert(is_valid_edit_char(cs[cs.len() - 1]));
        }
        if invalid_chars(cs).len() == 0 {
            assert(is_valid_edit_char(cs.last()));
            assert forall|i: int| 0 <= i < cs.len() implies is_valid_edit_char(#[trigger] cs[i]) by {
                if i < dl.len() {
                    assert(dl[i] == cs[i]);
                }
            }
        }
    }
}

/// The pieces of `s` between the occurrences of `sep`, as `str::split` gives them.
pub open spec fn split_on(s: Seq<char>, sep: char) -> Seq<Seq<char>>
    decreases s.len(),
{
    if s.len() == 0 {
        seq![Seq::empty()]
    } else if s.last() == sep {
        split_on(s.drop_last(), sep).push(Seq::empty())
    } else {
        let p = split_on(s.drop_last(), sep);
        p.update(p.len() - 1, p.last().push(s.last()))
    }
}

/// Splitting always gives at least one piece.
pub proof fn lemma_split_nonempty(s: Seq<char>, sep: char)
    ensures
        split_on(s, sep).len() >= 1,
    decreases s.len(),
{
    if s.len() > 0 {
        lemma_split_nonempty(s.drop_last(), sep);
    }
}

/// A privilege edit entry read from text: database, user, kind and characters, or the
/// message of what is wrong with it.
pub open spec fn parse_entry(arg: Seq<char>) -> Result<
    (Seq<char>, Seq<char>, (DatabasePrivilegeEditEntryType, Seq<char>)),
    Seq<char>,
> {
    let parts = split_on(arg, ':');
    if parts.len() != 3 {
        Err("Invalid privilege edit entry format: "@ + arg)
    } else if parts[1].len() == 0 {
        Err("Username cannot be empty in privilege edit entry: "@ + arg)
    } else {
        match parse_edit(parts[2]) {
            Ok(e) => Ok((parts[0], parts[1], e)),
            Err(m) => Err(m),
        }
    }
}

/// An entry written as text, as its `Display` writes it.
pub open spec fn entry_display(db: Seq<char>, user: Seq<char>, e: (DatabasePrivilegeEditEntryType, Seq<char>)) -> Seq<char> {
    db + ":, "@ + user + ": "@ + edit_display(e.0, e.1)
}

/// Whether the edit touches the `k`th privilege: its character, or `A` for all of them.
pub open spec fn edit_touches(cs: Seq<char>, k: int) -> bool {
    cs.contains(privilege_char(k)) || cs.contains('A')
}

/// The eleven changes that an edit makes: setting gives every privilege a change to its
/// new value; adding and removing change only the privileges they name.
pub open spec fn edit_changes(t: DatabasePrivilegeEditEntryType, cs: Seq<char>) -> Seq<
    Option<DatabasePrivilegeChange>,
> {
    Seq::new(
        11,
        |k: int|
            match t {
                DatabasePrivilegeEditEntryType::Assign => if edit_touches(cs, k) {
                    Some(DatabasePrivilegeChange::NoToYes)
                } else {
                    Some(DatabasePrivilegeChange::YesToNo)
                },
                DatabasePrivilegeEditEntryType::Add => if edit_touches(cs, k) {
                    Some(DatabasePrivilegeChange::NoToYes)
                } else {
                    None
                },
                DatabasePrivilegeEditEntryType::Remove => if edit_touches(cs, k) {
                    Some(DatabasePrivilegeChange::YesToNo)
                } else {
                    None
                },
            },
    )
}

/// One command line argument that edits the privileges of one user on one database, written
/// `database_name:username:[+|-]privileges`.
#[derive(Debug, PartialEq, Eq)]
pub struct DatabasePrivilegeEditEntry {
    pub database: MySQLDatabase,
    pub user: MySQLUser,
    pub privilege_edit: DatabasePrivilegeEdit,
}

impl View for DatabasePrivilegeEditEntry {
    type V = (Seq<char>, Seq<char>, (DatabasePrivilegeEditEntryType, Seq<char>));

    open spec fn view(&self) -> (Seq<char>, Seq<char>, (DatabasePrivilegeEditEntryType, Seq<char>)) {
        (self.database@, self.user@, self.privilege_edit@)
    }
}

impl Clone for DatabasePrivilegeEditEntry {
    fn clone(&self) -> (r: Self)
        ensures
            r@ == self@,
    {
        DatabasePrivilegeEditEntry {
            database: self.database.clone(),
            user: self.user.clone(),
            privilege_edit: self.privilege_edit.clone(),
        }
    }
}

/// The pieces of `s` between the occurrences of `sep`.
pub fn split_by(s: &str, sep: char) -> (r: Vec<String>)
    ensures
        r@.len() == split_on(s@, sep).len(),
        forall|i: int| 0 <= i < r@.len() ==> #[trigger] r@[i]@ == split_on(s@, sep)[i],
{
    let len = s.unicode_len();
    let mut done: Vec<String> = Vec::new();
    let mut cur = String::new();
    let mut i: usize = 0;
    while i < len
        invariant
            len == s@.len(),
            i <= len,
            done@.len() + 1 == split_on(s@.take(i as int), sep).len(),
            forall|j: int| 0 <= j < done@.len() ==> #[trigger] done@[j]@ == split_on(s@.take(i as int), sep)[j],
            cur@ == split_on(s@.take(i as int), sep).last(),
        decreases len - i,
    {
        let c = s.get_char(i);
        let ghost t = s@.take(i + 1);
        assert(t.drop_last() =~= s@.take(i as int));
        assert(t.last() == c);
        proof {
            lemma_split_nonempty(s@.take(i as int), sep);
        }
        if c == sep {
            done.push(cur);
            cur = String::new();
        } else {
            push_char(&mut cur, c);
        }
        i = i + 1;
        assert forall|j: int| 0 <= j < done@.len() implies #[trigger] done@[j]@ == split_on(s@.take(i as int), sep)[j] by {}
    }
    assert(s@.take(len as int) =~= s@);
    done.push(cur);
    done
}

impl DatabasePrivilegeEditEntry {
    /// Reads an entry written `database_name:username:[+|-]privileges`. Fails when the
    /// text does not have exactly three parts separated by `:`, when the user name is empty,
    /// or when the privileges are not valid.
    pub fn parse_from_str(arg: &str) -> (r: Result<DatabasePrivilegeEditEntry, String>)
        ensures
            match parse_entry(arg@) {
                Ok(e) => r is Ok && r->Ok_0@ == e,
                Err(m) => r is Err && r->Err_0@ == m,
            },
    {
        let parts = split_by(arg, ':');
        if parts.len() != 3 {
            let mut msg = String::from_str("Invalid privilege edit entry format: ");
            push_str(&mut msg, arg);
            return Err(msg);
        }
        if parts[1].unicode_len() == 0 {
            let mut msg = String::from_str("Username cannot be empty in privilege edit entry: ");
            push_str(&mut msg, arg);
            return Err(msg);
        }
        let privilege_edit = match DatabasePrivilegeEdit::parse_from_str(parts[2].as_str()) {
            Ok(e) => e,
            Err(m) => {
                return Err(m);
            },
        };
        Ok(DatabasePrivilegeEditEntry {
            database: MySQLDatabase(parts[0].clone()),
            user: MySQLUser(parts[1].clone()),
            privilege_edit,
        })
    }

    /// The row diff that carries out this edit: setting gives every privilege a change to
    /// whether the edit names it; adding and removing change only the privileges it names.
    pub fn as_database_privileges_diff(&self) -> (r: Result<DatabasePrivilegeRowDiff, String>)
        requires
            forall|i: int|
                0 <= i < self.privilege_edit.privileges@.len() ==> is_valid_edit_char(
                    #[trigger] self.privilege_edit.privileges@[i],
                ),
        ensures
            r is Ok,
            r->Ok_0@ == (self.database@, self.user@, edit_changes(self.privilege_edit.type_, self.privilege_edit.privileges@)),
    {
        let t = self.privilege_edit.type_;
        let initial: Option<DatabasePrivilegeChange> = match t {
            DatabasePrivilegeEditEntryType::Assign => Some(DatabasePrivilegeChange::YesToNo),
            _ => None,
        };
        let value = match t {
            DatabasePrivilegeEditEntryType::Remove => DatabasePrivilegeChange::YesToNo,
            _ => DatabasePrivilegeChange::NoToYes,
        };
        let ghost privs = self.privilege_edit.privileges@;
        let mut changes: Vec<Option<DatabasePrivilegeChange>> = Vec::new();
        let mut k: usize = 0;
        while k < 11
            invariant
                k <= 11,
                changes@.len() == k,
                forall|j: int| 0 <= j < k ==> #[trigger] changes@[j] == initial,
            decreases 11 - k,
        {
            changes.push(initial);
            k = k + 1;
        }
        let mut i: usize = 0;
        while i < self.privilege_edit.privileges.len()
            invariant
                i <= privs.len(),
                privs == self.privilege_edit.privileges@,
                forall|x: int| 0 <= x < privs.len() ==> is_valid_edit_char(#[trigger] privs[x]),
                changes@.len() == 11,
                forall|j: int|
                    0 <= j < 11 ==> #[trigger] changes@[j] == if edit_touches(privs.take(i as int), j) {
                        Some(value)
                    } else {
                        initial
                    },
            decreases privs.len() - i,
        {
            let c = self.privilege_edit.privileges[i];
            let ghost before = privs.take(i as int);
            let ghost after = privs.take(i + 1);
            assert(after =~= before.push(c));
            assert(is_valid_edit_char(c));
            if c == 'A' {
                let mut j: usize = 0;
                while j < 11
                    invariant
                        j <= 11,
                        changes@.len() == 11,
                        forall|x: int| 0 <= x < j ==> #[trigger] changes@[x] == Some(value),
                        forall|x: int|
                            j <= x < 11 ==> #[trigger] changes@[x] == if edit_touches(before, x) {
                                Some(value)
                            } else {
                                initial
                            },
                    decreases 11 - j,
                {
                    changes.set(j, Some(value));
                    j = j + 1;
                }
                assert forall|x: int| 0 <= x < 11 implies edit_touches(after, x) by {
                    assert(after[after.len() - 1] == 'A');
                }
            } else {
                let idx = privilege_index_of_char(c);
                changes.set(idx, Some(value));
                assert forall|x: int| 0 <= x < 11 implies #[trigger] changes@[x] == if edit_touches(after, x) {
                    Some(value)
                } else {
                    initial
                } by {
                    assert(after[after.len() - 1] == c);
                    if x != idx {
                        assert(privilege_char(x) != c) by {
                            lemma_privilege_char_injective(x, idx as int);
                        }
                        assert(after.contains(privilege_char(x)) == before.contains(privilege_char(x)));
                        assert(after.contains('A') == before.contains('A'));
                    }
                }
            }
            i = i + 1;
        }
        assert(privs.take(privs.len() as int) =~= privs);
        let diff = DatabasePrivilegeRowDiff::from_changes(self.database.clone(), self.user.clone(), changes.as_slice());
        assert(diff.changes() =~= edit_changes(t, privs));
        Ok(diff)
    }

    /// The entry as text, as its `Display` writes it: `database:, user: edit`.
    pub fn to_display_string(&self) -> (r: String)
        ensures
            r@ == entry_display(self.database@, self.user@, self.privilege_edit@),
    {
        let mut out = String::new();
        push_str(&mut out, self.database.as_str());
        push_str(&mut out, ":, ");
        push_str(&mut out, self.user.as_str());
        push_str(&mut out, ": ");
        let e = self.privilege_edit.to_display_string();
        push_str(&mut out, e.as_str());
        out
    }
}

/// Distinct privileges have distinct characters.
proof fn lemma_privilege_char_injective(a: int, b: int)
    requires
        0 <= a < 11,
        0 <= b < 11,
        a != b,
    ensures
        privilege_char(a) != privilege_char(b),
{
}

/// The index of the privilege that a character other than `A` stands for.
fn privilege_index_of_char(c: char) -> (r: usize)
    requires
        is_valid_edit_char(c),
        c != 'A',
    ensures
        r < 11,
        privilege_char(r as int) == c,
{
    proof {
        let v = valid_edit_chars();
        let i = choose|i: int| 0 <= i < v.len() && v[i] == c;
    }
    if c == 's' { 0 }
    else if c == 'i' { 1 }
    else if c == 'u' { 2 }
    else if c == 'd' { 3 }
    else if c == 'c' { 4 }
    else if c == 'D' { 5 }
    else if c == 'a' { 6 }
    else if c == 'I' { 7 }
    else if c == 't' { 8 }
    else if c == 'l' { 9 }
    else { 10 }
}

/// The first character of `cs`, from position `i` on, that names no privilege.
pub open spec fn first_invalid_char(cs: Seq<char>, i: int) -> Option<char>
    decreases cs.len() - i,
{
    if i < 0 || i >= cs.len() {
        None
    } else if !is_valid_edit_char(cs[i]) {
        Some(cs[i])
    } else {
        first_invalid_char(cs, i + 1)
    }
}

/// The message for an argument that is not three parts separated by `:`.
pub open spec fn table_arg_format_message() -> Seq<char> {
    "Invalid argument format. See `edit-db-privs --help` for more information."@
}

/// A privilege table argument `database:user:privileges` read as a row: the privileges
/// granted are those whose character it holds, or all of them when it holds `A`. Fails when
/// it is not three parts, or at the first character that names no privilege.
pub open spec fn parse_table_arg(arg: Seq<char>) -> Result<(Seq<char>, Seq<char>, Seq<bool>), Seq<char>> {
    let parts = split_on(arg, ':');
    if parts.len() != 3 {
        Err(table_arg_format_message())
    } else {
        match first_invalid_char(parts[2], 0) {
            Some(c) => Err("Invalid privilege character: "@.push(c)),
            None => Ok((parts[0], parts[1], Seq::new(11, |k: int| edit_touches(parts[2], k)))),
        }
    }
}

/// A sequence with one more character holds what it held and that character.
proof fn lemma_contains_push(s: Seq<char>, c: char, x: char)
    ensures
        s.push(c).contains(x) <==> (s.contains(x) || c == x),
{
    if s.push(c).contains(x) {
        let j = choose|j: int| 0 <= j < s.push(c).len() && s.push(c)[j] == x;
        if j < s.len() {
            assert(s[j] == x);
        }
    }
    if s.contains(x) {
        let j = choose|j: int| 0 <= j < s.len() && s[j] == x;
        assert(s.push(c)[j] == x);
    }
    if c == x {
        assert(s.push(c)[s.len() as int] == x);
    }
}

/// Reads a privilege table argument `database:user:privileges` into a row; see
/// `parse_table_arg`.
pub fn parse_privilege_table_cli_arg(arg: &str) -> (r: Result<DatabasePrivilegeRow, String>)
    ensures
        match parse_table_arg(arg@) {
            Ok(v) => r is Ok && r->Ok_0@ == v,
            Err(m) => r is Err && r->Err_0@ == m,
        },
{
    let parts = split_by(arg, ':');
    if parts.len() != 3 {
        return Err(String::from_str("Invalid argument format. See `edit-db-privs --help` for more information."));
    }
    let privs = parts[2].as_str();
    let ghost cs = privs@;
    let n = privs.unicode_len();
    let mut p: Vec<bool> = Vec::new();
    while p.len() < 11
        invariant
            p@.len() <= 11,
            forall|k: int| 0 <= k < p@.len() ==> !p@[k],
        decreases 11 - p@.len(),
    {
        p.push(false);
    }
    assert forall|k: int| 0 <= k < 11 implies p@[k] == edit_touches(cs.take(0), k) by {
        assert(!cs.take(0).contains(privilege_char(k)));
        assert(!cs.take(0).contains('A'));
    }
    let mut i: usize = 0;
    while i < n
        invariant
            cs == privs@,
            parts@.len() == 3,
            split_on(arg@, ':').len() == 3,
            forall|j: int| 0 <= j < 3 ==> #[trigger] parts@[j]@ == split_on(arg@, ':')[j],
            cs == split_on(arg@, ':')[2],
            n == cs.len(),
            i <= n,
            p@.len() == 11,
            first_invalid_char(cs, 0) == first_invalid_char(cs, i as int),
            forall|k: int| 0 <= k < 11 ==> #[trigger] p@[k] == edit_touches(cs.take(i as int), k),
        decreases n - i,
    {
        let c = privs.get_char(i);
        assert(cs.take(i + 1) =~= cs.take(i as int).push(c));
        proof {
            lemma_contains_push(cs.take(i as int), c, 'A');
        }
        assert(first_invalid_char(cs, i as int) == if is_valid_edit_char(c) {
            first_invalid_char(cs, i + 1)
        } else {
            Some(c)
        });
        if !is_valid_privilege_edit_char(c) {
            let mut msg = String::from_str("Invalid privilege character: ");
            push_char(&mut msg, c);
            return Err(msg);
        }
        if c == 'A' {
            let mut k: usize = 0;
            while k < 11
                invariant
                    p@.len() == 11,
                    k <= 11,
                    forall|j: int| 0 <= j < k ==> #[trigger] p@[j],
                    forall|j: int| k <= j < 11 ==> #[trigger] p@[j] == edit_touches(cs.take(i as int), j),
                decreases 11 - k,
            {
                p.set(k, true);
                k = k + 1;
            }
            assert forall|k: int| 0 <= k < 11 implies #[trigger] p@[k] == edit_touches(cs.take(i + 1), k) by {}
        } else {
            let idx = privilege_index_of_char(c);
            let ghost old_p = p@;
            p.set(idx, true);
            assert forall|k: int| 0 <= k < 11 implies #[trigger] p@[k] == edit_touches(cs.take(i + 1), k) by {
                lemma_contains_push(cs.take(i as int), c, privilege_char(k));
                if k != idx {
                    lemma_privilege_char_injective(k, idx as int);
                }
            }
        }
        i = i + 1;
    }
    assert(cs.take(n as int) =~= cs);
    Ok(DatabasePrivilegeRow::from_privileges(MySQLDatabase(parts[0].clone()), MySQLUser(parts[1].clone()), p.as_slice()))
}

/// Writing an edit that was read gives back the text it was read from.
pub proof fn lemma_edit_display_of_parse(s: Seq<char>)
    requires
        parse_edit(s) is Ok,
    ensures
        edit_display(parse_edit(s)->Ok_0.0, parse_edit(s)->Ok_0.1) == s,
{
    if s.len() > 0 && (s[0] == '+' || s[0] == '-') {
        assert(seq![s[0]] + s.drop_first() =~= s);
    }
}

/// Reading an edit of valid characters, written as text, gives back that edit.
pub proof fn lemma_parse_of_edit_display(t: DatabasePrivilegeEditEntryType, cs: Seq<char>)
    requires
        forall|i: int| 0 <= i < cs.len() ==> is_valid_edit_char(#[trigger] cs[i]),
    ensures
        parse_edit(edit_display(t, cs)) == Ok::<(DatabasePrivilegeEditEntryType, Seq<char>), Seq<char>>((t, cs)),
{
    let s = edit_display(t, cs);
    if cs.len() > 0 {
        let v = valid_edit_chars();
        let j = choose|j: int| 0 <= j < v.len() && v[j] == cs[0];
        assert(cs[0] != '+' && cs[0] != '-');
    }
    match t {
        DatabasePrivilegeEditEntryType::Add => {
            assert(s.drop_first() =~= cs);
        },
        DatabasePrivilegeEditEntryType::Remove => {
            assert(s.drop_first() =~= cs);
        },
        DatabasePrivilegeEditEntryType::Assign => {},
    }
}

/// What an edit does to a row: setting leaves exactly the named privileges; adding grants
/// the named privileges and keeps the others; removing revokes the named privileges and
/// keeps the others. `A` names every privilege.
pub proof fn lemma_edit_effect(t: DatabasePrivilegeEditEntryType, cs: Seq<char>, ps: Seq<bool>, k: int)
    requires
        0 <= k < 11,
    ensures
        apply_change(edit_changes(t, cs)[k], ps[k]) == match t {
            DatabasePrivilegeEditEntryType::Assign => edit_touches(cs, k),
            DatabasePrivilegeEditEntryType::Add => ps[k] || edit_touches(cs, k),
            DatabasePrivilegeEditEntryType::Remove => ps[k] && !edit_touches(cs, k),
        },
{
}


/// The character of each privilege in an edit is the one-letter name of its field: `s` for
/// `select_priv`, ..., `l` for `lock_tables_priv`, `r` for `references_priv`.
pub proof fn lemma_privilege_chars_name_fields()
    ensures
        forall|k: int| 0 <= k < 11 ==> seq![privilege_char(k)] == single_character_name(#[trigger] privilege_name(k)),
{
    reveal_strlit("select_priv");
    reveal_strlit("insert_priv");
    reveal_strlit("update_priv");
    reveal_strlit("delete_priv");
    reveal_strlit("create_priv");
    reveal_strlit("drop_priv");
    reveal_strlit("alter_priv");
    reveal_strlit("index_priv");
    reveal_strlit("create_tmp_table_priv");
    reveal_strlit("lock_tables_priv");
    reveal_strlit("references_priv");
    reveal_strlit("Db");
    reveal_strlit("User");
    reveal_strlit("s");
    reveal_strlit("i");
    reveal_strlit("u");
    reveal_strlit("d");
    reveal_strlit("c");
    reveal_strlit("D");
    reveal_strlit("a");
    reveal_strlit("I");
    reveal_strlit("t");
    reveal_strlit("l");
    reveal_strlit("r");
    assert forall|k: int| 0 <= k < 11 implies seq![privilege_char(k)] == single_character_name(#[trigger] privilege_name(k)) by {
        let n = privilege_name(k);
        assert("select_priv"@[0] == 's' && "select_priv"@.len() == 11);
        assert("insert_priv"@[0] == 'i' && "insert_priv"@.len() == 11);
        assert("update_priv"@[0] == 'u' && "update_priv"@.len() == 11);
        assert("delete_priv"@[0] == 'd' && "delete_priv"@.len() == 11);
        assert("create_priv"@[0] == 'c' && "create_priv"@.len() == 11);
        assert("drop_priv"@[0] == 'd' && "drop_priv"@.len() == 9);
        assert("alter_priv"@[0] == 'a' && "alter_priv"@.len() == 10);
        assert("index_priv"@[0] == 'i' && "index_priv"@.len() == 10);
        assert("create_tmp_table_priv"@[0] == 'c' && "create_tmp_table_priv"@.len() == 21);
        assert("lock_tables_priv"@[0] == 'l' && "lock_tables_priv"@.len() == 16);
        assert("references_priv"@[0] == 'r' && "references_priv"@.len() == 15);
        if k == 0 {
            assert(n == "select_priv"@);
            assert(n[0] == 's' && n.len() == 11);
            assert(seq![privilege_char(k)] =~= "s"@);
        } else if k == 1 {
            assert(n == "insert_priv"@);
            assert(n[0] == 'i' && n.len() == 11);
            assert(n != "select_priv"@);
            assert(seq![privilege_char(k)] =~= "i"@);
        } else if k == 2 {
            assert(n == "update_priv"@);
            assert(n[0] == 'u' && n.len() == 11);
            assert(n != "select_priv"@);
            assert(n != "insert_priv"@);
            assert(seq![privilege_char(k)] =~= "u"@);
        } else if k == 3 {
            assert(n == "delete_priv"@);
            assert(n[0] == 'd' && n.len() == 11);
            assert(n != "select_priv"@);
            assert(n != "insert_priv"@);
            assert(n != "update_priv"@);
            assert(seq![privilege_char(k)] =~= "d"@);
        } else if k == 4 {
            assert(n == "create_priv"@);
            assert(n[0] == 'c' && n.len() == 11);
            assert(n != "select_priv"@);
            assert(n != "insert_priv"@);
            assert(n != "update_priv"@);
            assert(n != "delete_priv"@);
            assert(seq![privilege_char(k)] =~= "c"@);
        } else if k == 5 {
            assert(n == "drop_priv"@);
            assert(n[0] == 'd' && n.len() == 9);
            assert(n != "select_priv"@);
            assert(n != "insert_priv"@);
            assert(n != "update_priv"@);
            assert(n != "delete_priv"@);
            assert(n != "create_priv"@);
            assert(seq![privilege_char(k)] =~= "D"@);
        } else if k == 6 {
            assert(n == "alter_priv"@);
            assert(n[0] == 'a' && n.len() == 10);
            assert(n != "select_priv"@);
            assert(n != "insert_priv"@);
            assert(n != "update_priv"@);
            assert(n != "delete_priv"@);
            assert(n != "create_priv"@);
            assert(n != "drop_priv"@);
            assert(seq![privilege_char(k)] =~= "a"@);
        } else if k == 7 {
            assert(n == "index_priv"@);
            assert(n[0] == 'i' && n.len() == 10);
            assert(n != "select_priv"@);
            assert(n != "insert_priv"@);
            assert(n != "update_priv"@);
            assert(n != "delete_priv"@);
            assert(n != "create_priv"@);
            assert(n != "drop_priv"@);
            assert(n != "alter_priv"@);
            assert(seq![privilege_char(k)] =~= "I"@);
        } else if k == 8 {
            assert(n == "create_tmp_table_priv"@);
            assert(n[0] == 'c' && n.len() == 21);
            assert(n != "select_priv"@);
            assert(n != "insert_priv"@);
            assert(n != "update_priv"@);
            assert(n != "delete_priv"@);
            assert(n != "create_priv"@);
            assert(n != "drop_priv"@);
            assert(n != "alter_priv"@);
            assert(n != "index_priv"@);
            assert(seq![privilege_char(k)] =~= "t"@);
        } else if k == 9 {
            assert(n == "lock_tables_priv"@);
            assert(n[0] == 'l' && n.len() == 16);
            assert(n != "select_priv"@);
            assert(n != "insert_priv"@);
            assert(n != "update_priv"@);
            assert(n != "delete_priv"@);
            assert(n != "create_priv"@);
            assert(n != "drop_priv"@);
            assert(n != "alter_priv"@);
            assert(n != "index_priv"@);
            assert(n != "create_tmp_table_priv"@);
            assert(seq![privilege_char(k)] =~= "l"@);
        } else {
            assert(n == "references_priv"@);
            assert(n[0] == 'r' && n.len() == 15);
            assert(n != "select_priv"@);
            assert(n != "insert_priv"@);
            assert(n != "update_priv"@);
            assert(n != "delete_priv"@);
            assert(n != "create_priv"@);
            assert(n != "drop_priv"@);
            assert(n != "alter_priv"@);
            assert(n != "index_priv"@);
            assert(n != "create_tmp_table_priv"@);
            assert(n != "lock_tables_priv"@);
            assert(seq![privilege_char(k)] =~= "r"@);
        }
    }
}

/// An edit (or a privilege table argument) that holds just the one-letter name of a field
/// touches that field and no other: `+l` grants `lock_tables_priv` alone, `-r` revokes
/// `references_priv` alone.
pub proof fn lemma_field_letter_edits_that_field(k: int)
    requires
        0 <= k < 11,
    ensures
        forall|j: int| 0 <= j < 11 ==> #[trigger] edit_touches(single_character_name(privilege_name(k)), j) == (j == k),
        forall|j: int| 0 <= j < 11 ==> #[trigger] edit_changes(DatabasePrivilegeEditEntryType::Add, single_character_name(privilege_name(k)))[j]
            == (if j == k { Some(DatabasePrivilegeChange::NoToYes) } else { None }),
        forall|j: int| 0 <= j < 11 ==> #[trigger] edit_changes(DatabasePrivilegeEditEntryType::Remove, single_character_name(privilege_name(k)))[j]
            == (if j == k { Some(DatabasePrivilegeChange::YesToNo) } else { None }),
{
    lemma_privilege_chars_name_fields();
    let cs = single_character_name(privilege_name(k));
    assert(cs == seq![privilege_char(k)]);
    assert forall|j: int| 0 <= j < 11 implies #[trigger] edit_touches(cs, j) == (j == k) by {
        if j != k {
            lemma_privilege_char_injective(j, k);
            assert(!cs.contains(privilege_char(j))) by {
                if cs.contains(privilege_char(j)) {
                    let x = choose|x: int| 0 <= x < cs.len() && cs[x] == privilege_char(j);
                }
            }
        } else {
            assert(cs[0] == privilege_char(j));
        }
        assert(!cs.contains('A')) by {
            if cs.contains('A') {
                let x = choose|x: int| 0 <= x < cs.len() && cs[x] == 'A';
            }
        }
    }
}

} // verus!
