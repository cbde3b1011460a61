//! Names of MySQL users and databases, and a tag for telling them apart.
use std::ops::Deref;
use vstd::prelude::*;
use vstd::string::*;

use crate::text::{pad_right, pad_right_str};

verus! {

/// The name of a MySQL user.
#[derive(Debug, PartialEq, Eq, PartialOrd, Ord, Hash, Default)]
pub struct MySQLUser(pub String);

/// The name of a MySQL database.
#[derive(Debug, PartialEq, Eq, PartialOrd, Ord, Hash, Default)]
pub struct MySQLDatabase(pub String);

impl View for MySQLUser {
    type V = Seq<char>;

    open spec fn view(&self) -> Seq<char> {
        self.0@
    }
}

impl View for MySQLDatabase {
    type V = Seq<char>;

    open spec fn view(&self) -> Seq<char> {
        self.0@
    }
}

impl Clone for MySQLUser {
    fn clone(&self) -> (r: Self)
        ensures
            r == *self,
    {
        MySQLUser(self.0.clone())
    }
}

impl Clone for MySQLDatabase {
    fn clone(&self) -> (r: Self)
        ensures
            r == *self,
    {
        MySQLDatabase(self.0.clone())
    }
}

impl MySQLUser {
    /// The name as a string slice.
    pub fn as_str(&self) -> (r: &str)
        ensures
            r@ == self@,
    {
        self.0.as_str()
    }

    /// Whether two user names are the same.
    pub fn same_name(&self, other: &MySQLUser) -> (r: bool)
        ensures
            r == (self@ == other@),
    {
        self.0 == other.0
    }
}

impl MySQLDatabase {
    /// The name as a string slice.
    pub fn as_str(&self) -> (r: &str)
        ensures
            r@ == self@,
    {
        self.0.as_str()
    }

    /// Whether two database names are the same.
    pub fn same_name(&self, other: &MySQLDatabase) -> (r: bool)
        ensures
            r == (self@ == other@),
    {
        self.0 == other.0
    }
}

impl Deref for MySQLUser {
    type Target = String;

    fn deref(&self) -> (r: &String)
        ensures
            r == &self.0,
    {
        &self.0
    }
}

impl Deref for MySQLDatabase {
    type Target = String;

    fn deref(&self) -> (r: &String)
        ensures
            r == &self.0,
    {
        &self.0
    }
}

impl From<&str> for MySQLUser {
    fn from(s: &str) -> (r: Self)
        ensures
            r@ == s@,
    {
        MySQLUser(String::from_str(s))
    }
}

impl vstd::std_specs::convert::FromSpecImpl<&str> for MySQLUser {
    open spec fn obeys_from_spec() -> bool {
        false
    }

    open spec fn from_spec(v: &str) -> Self {
        arbitrary()
    }
}

impl From<String> for MySQLUser {
    fn from(s: String) -> (r: Self)
        ensures
            r.0 == s,
    {
        MySQLUser(s)
    }
}

impl vstd::std_specs::convert::FromSpecImpl<String> for MySQLUser {
    open spec fn obeys_from_spec() -> bool {
        true
    }

    open spec fn from_spec(v: String) -> Self {
        MySQLUser(v)
    }
}

impl From<&str> for MySQLDatabase {
    fn from(s: &str) -> (r: Self)
        ensures
            r@ == s@,
    {
        MySQLDatabase(String::from_str(s))
    }
}

impl vstd::std_specs::convert::FromSpecImpl<&str> for MySQLDatabase {
    open spec fn obeys_from_spec() -> bool {
        false
    }

    open spec fn from_spec(v: &str) -> Self {
        arbitrary()
    }
}

impl From<String> for MySQLDatabase {
    fn from(s: String) -> (r: Self)
        ensures
            r.0 == s,
    {
        MySQLDatabase(s)
    }
}

impl vstd::std_specs::convert::FromSpecImpl<String> for MySQLDatabase {
    open spec fn obeys_from_spec() -> bool {
        true
    }

    open spec fn from_spec(v: String) -> Self {
        MySQLDatabase(v)
    }
}

/// A database name or a user name, tagged with which of the two it is.
#[derive(Debug, PartialEq, Eq, PartialOrd, Ord, Hash)]
pub enum DbOrUser {
    Database(MySQLDatabase),
    User(MySQLUser),
}

impl Clone for DbOrUser {
    fn clone(&self) -> (r: Self)
        ensures
            r == *self,
    {
        match self {
            DbOrUser::Database(db) => DbOrUser::Database(db.clone()),
            DbOrUser::User(user) => DbOrUser::User(user.clone()),
        }
    }
}

/// The index of the first occurrence of `c` in `s`, or the length of `s` if there is none.
pub open spec fn first_index_of(s: Seq<char>, c: char) -> int
    decreases s.len(),
{
    if s.len() == 0 {
        0
    } else if s[0] == c {
        0
    } else {
        1 + first_index_of(s.drop_first(), c)
    }
}

/// The part of `s` before the first underscore (all of `s` if it has none).
pub open spec fn prefix_before_underscore(s: Seq<char>) -> Seq<char> {
    s.take(first_index_of(s, '_'))
}

pub proof fn lemma_first_index_of(s: Seq<char>, c: char)
    ensures
        0 <= first_index_of(s, c) <= s.len(),
        forall|i: int| 0 <= i < first_index_of(s, c) ==> s[i] != c,
        first_index_of(s, c) < s.len() ==> s[first_index_of(s, c)] == c,
    decreases s.len(),
{
    if s.len() > 0 && s[0] != c {
        lemma_first_index_of(s.drop_first(), c);
        assert forall|i: int| 0 <= i < first_index_of(s, c) implies s[i] != c by {
            if i > 0 {
                assert(s[i] == s.drop_first()[i - 1]);
            }
        }
    }
}

/// The index of the first `c` in `s`, or its length when `c` does not occur.
pub fn find_char(s: &str, c: char) -> (r: usize)
    ensures
        r == first_index_of(s@, c),
{
    proof {
        lemma_first_index_of(s@, c);
    }
    let len = s.unicode_len();
    let mut i: usize = 0;
    while i < len
        invariant
            len == s@.len(),
            i <= len,
            forall|j: int| 0 <= j < i ==> s@[j] != c,
            first_index_of(s@, c) >= i,
        decreases len - i,
    {
        proof {
            lemma_first_index_of(s@, c);
        }
        if s.get_char(i) == c {
            proof {
                lemma_first_index_of(s@, c);
            }
            return i;
        }
        i = i + 1;
    }
    proof {
        lemma_first_index_of(s@, c);
    }
    i
}

impl DbOrUser {
    /// The name of the database or user.
    pub open spec fn name_view(&self) -> Seq<char> {
        match self {
            DbOrUser::Database(db) => db@,
            DbOrUser::User(user) => user@,
        }
    }

    pub fn lowercased_noun(&self) -> (r: &'static str)
        ensures
            r@ == (if self is Database { "database"@ } else { "user"@ }),
    {
        match self {
            DbOrUser::Database(_) => "database",
            DbOrUser::User(_) => "user",
        }
    }

    pub fn capitalized_noun(&self) -> (r: &'static str)
        ensures
            r@ == (if self is Database { "Database"@ } else { "User"@ }),
    {
        match self {
            DbOrUser::Database(_) => "Database",
            DbOrUser::User(_) => "User",
        }
    }

    pub fn name(&self) -> (r: &str)
        ensures
            r@ == self.name_view(),
    {
        match self {
            DbOrUser::Database(db) => db.as_str(),
            DbOrUser::User(user) => user.as_str(),
        }
    }

    /// The part of the name before its first underscore, the whole name if it has none.
    pub fn prefix(&self) -> (r: &str)
        ensures
            r@ == prefix_before_underscore(self.name_view()),
    {
        let name = self.name();
        let idx = find_char(name, '_');
        proof {
            lemma_first_index_of(name@, '_');
        }
        name.substring_char(0, idx)
    }
}

impl std::str::FromStr for MySQLUser {
    type Err = String;

    fn from_str(s: &str) -> (r: Result<MySQLUser, String>)
        ensures
            r matches Ok(n) && n@ == s@,
    {
        Ok(MySQLUser::from(s))
    }
}

impl std::str::FromStr for MySQLDatabase {
    type Err = String;

    fn from_str(s: &str) -> (r: Result<MySQLDatabase, String>)
        ensures
            r matches Ok(n) && n@ == s@,
    {
        Ok(MySQLDatabase::from(s))
    }
}

impl MySQLUser {
    /// The name as its `Display` writes it, padded with spaces to the width asked for.
    pub fn to_display_string(&self, width: Option<usize>) -> (r: String)
        ensures
            r@ == pad_right(self@, match width {
                Some(w) => w as int,
                None => 0,
            }),
    {
        pad_right_str(self.0.as_str(), match width {
            Some(w) => w,
            None => 0,
        })
    }
}

impl MySQLDatabase {
    /// The name as its `Display` writes it, padded with spaces to the width asked for.
    pub fn to_display_string(&self, width: Option<usize>) -> (r: String)
        ensures
            r@ == pad_right(self@, match width {
                Some(w) => w as int,
                None => 0,
            }),
    {
        pad_right_str(self.0.as_str(), match width {
            Some(w) => w,
            None => 0,
        })
    }
}

impl DbOrUser {
    /// `database` or `user`.
    pub fn lowercased(&self) -> (r: &'static str)
        ensures
            r@ == (if self is Database { "database"@ } else { "user"@ }),
    {
        self.lowercased_noun()
    }

    /// `Database` or `User`.
    pub fn capitalized(&self) -> (r: &'static str)
        ensures
            r@ == (if self is Database { "Database"@ } else { "User"@ }),
    {
        self.capitalized_noun()
    }
}

} // verus!
