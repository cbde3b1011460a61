//! Checking the names in a request: that they are well formed, and that they belong to the
//! unix user who makes it.
use vstd::prelude::*;
use vstd::string::*;

use crate::muscl_core::common::UnixUser;
use crate::muscl_core::types::{DbOrUser, MySQLDatabase, MySQLUser};
use crate::text::{join, push_str, sort_strings, sort_strings_vec, str_eq, str_len, strings_of};

verus! {

/// What is wrong with a name.
#[derive(Debug, Clone, Copy, PartialEq, Eq, Structural)]
pub enum NameValidationError {
    EmptyString,
    InvalidCharacters,
    TooLong,
}

/// What keeps a name from belonging to the user.
#[derive(Debug, Clone, Copy, PartialEq, Eq, Structural)]
pub enum OwnerValidationError {
    NoMatch,
    StringEmpty,
}

/// Why a request for a name is refused.
#[derive(Debug, Clone, Copy, PartialEq, Eq, Structural)]
pub enum AuthorizationError {
    SanitizationError(NameValidationError),
    OwnershipError(OwnerValidationError),
}

/// The longest name allowed, in bytes.
pub const MAX_NAME_LENGTH: usize = 64;

/// The characters allowed in a name: ASCII letters and digits, `_` and `-`.
pub open spec fn is_name_char(c: char) -> bool {
    ('a' <= c && c <= 'z') || ('A' <= c && c <= 'Z') || ('0' <= c && c <= '9') || c == '_' || c == '-'
}

/// What is wrong with a name, if anything: it is empty, longer than 64 bytes, or holds a
/// character that is not allowed, checked in that order.
pub open spec fn name_error(name: Seq<char>) -> Option<NameValidationError> {
    if name.len() == 0 {
        Some(NameValidationError::EmptyString)
    } else if str_len(name) > 64 {
        Some(NameValidationError::TooLong)
    } else if exists|i: int| 0 <= i < name.len() && !is_name_char(#[trigger] name[i]) {
        Some(NameValidationError::InvalidCharacters)
    } else {
        None
    }
}

/// Whether `name` starts with `prefix` followed by `_`.
pub open spec fn has_prefix(name: Seq<char>, prefix: Seq<char>) -> bool {
    name.len() > prefix.len() && name.take(prefix.len() as int) == prefix && name[prefix.len() as int] == '_'
}

/// What keeps a name from belonging to the owner of the prefixes, if anything: it is empty,
/// or it starts with none of the prefixes followed by `_`.
pub open spec fn owner_error(name: Seq<char>, prefixes: Seq<Seq<char>>) -> Option<OwnerValidationError> {
    if name.len() == 0 {
        Some(OwnerValidationError::StringEmpty)
    } else if !(exists|i: int| 0 <= i < prefixes.len() && has_prefix(name, #[trigger] prefixes[i])) {
        Some(OwnerValidationError::NoMatch)
    } else {
        None
    }
}

/// The prefixes a unix user may use: its user name and the names of its groups.
pub open spec fn allowed_prefixes(user: UnixUser) -> Seq<Seq<char>> {
    seq![user.username@] + strings_of(user.groups@)
}

/// Why a request for a name by a unix user is refused, if it is: the name is checked first,
/// then whether it belongs to the user.
pub open spec fn authorization_error(name: Seq<char>, user: UnixUser) -> Option<AuthorizationError> {
    match name_error(name) {
        Some(e) => Some(AuthorizationError::SanitizationError(e)),
        None => match owner_error(name, allowed_prefixes(user)) {
            Some(e) => Some(AuthorizationError::OwnershipError(e)),
            None => None,
        },
    }
}

/// Whether a character is allowed in a name.
fn is_valid_name_char(c: char) -> (r: bool)
    ensures
        r == is_name_char(c),
{
    ('a' <= c && c <= 'z') || ('A' <= c && c <= 'Z') || ('0' <= c && c <= '9') || c == '_' || c == '-'
}

/// Checks that a name is not empty, at most 64 bytes long, and made of ASCII letters and
/// digits, `_` and `-`.
pub fn validate_name(name: &str) -> (r: Result<(), NameValidationError>)
    ensures
        match name_error(name@) {
            Some(e) => r == Err::<(), NameValidationError>(e),
            None => r is Ok,
        },
{
    let len = name.unicode_len();
    if len == 0 {
        return Err(NameValidationError::EmptyString);
    }
    if name.len() > MAX_NAME_LENGTH {
        return Err(NameValidationError::TooLong);
    }
    let mut i: usize = 0;
    while i < len
        invariant
            len == name@.len(),
            len > 0,
            i <= len,
            str_len(name@) <= 64,
            forall|j: int| 0 <= j < i ==> is_name_char(#[trigger] name@[j]),
        decreases len - i,
    {
        if !is_valid_name_char(name.get_char(i)) {
            assert(!is_name_char(name@[i as int]));
            return Err(NameValidationError::InvalidCharacters);
        }
        i = i + 1;
    }
    Ok(())
}

/// Whether `name` starts with `prefix` followed by `_`.
fn starts_with_prefix(name: &str, prefix: &str) -> (r: bool)
    ensures
        r == has_prefix(name@, prefix@),
{
    let ln = name.unicode_len();
    let lp = prefix.unicode_len();
    if ln <= lp {
        return false;
    }
    let mut i: usize = 0;
    while i < lp
        invariant
            ln == name@.len(),
            lp == prefix@.len(),
            lp < ln,
            i <= lp,
            forall|j: int| 0 <= j < i ==> name@[j] == prefix@[j],
        decreases lp - i,
    {
        if name.get_char(i) != prefix.get_char(i) {
            assert(name@.take(lp as int)[i as int] != prefix@[i as int]);
            return false;
        }
        i = i + 1;
    }
    assert(name@.take(lp as int) =~= prefix@);
    name.get_char(lp) == '_'
}

/// Checks that a name is not empty and starts with one of the prefixes followed by `_`.
pub fn validate_ownership_by_prefixes(name: &str, prefixes: &[String]) -> (r: Result<(), OwnerValidationError>)
    ensures
        match owner_error(name@, strings_of(prefixes@)) {
            Some(e) => r == Err::<(), OwnerValidationError>(e),
            None => r is Ok,
        },
{
    if name.unicode_len() == 0 {
        return Err(OwnerValidationError::StringEmpty);
    }
    let ghost ps = strings_of(prefixes@);
    let mut i: usize = 0;
    while i < prefixes.len()
        invariant
            i <= prefixes@.len(),
            ps == strings_of(prefixes@),
            forall|j: int| 0 <= j < i ==> !has_prefix(name@, #[trigger] ps[j]),
        decreases prefixes@.len() - i,
    {
        if starts_with_prefix(name, prefixes[i].as_str()) {
            assert(has_prefix(name@, ps[i as int]));
            return Ok(());
        }
        i = i + 1;
    }
    Err(OwnerValidationError::NoMatch)
}

/// Checks that a unix user may make a request for a name: the name is well formed, and it
/// starts with the user's name or the name of one of the user's groups, followed by `_`.
pub fn validate_db_or_user_request(db_or_user: &DbOrUser, unix_user: &UnixUser) -> (r: Result<(), AuthorizationError>)
    ensures
        match authorization_error(db_or_user.name_view(), *unix_user) {
            Some(e) => r == Err::<(), AuthorizationError>(e),
            None => r is Ok,
        },
{
    let name = db_or_user.name();
    match validate_name(name) {
        Err(e) => {
            return Err(AuthorizationError::SanitizationError(e));
        },
        Ok(()) => {},
    }
    let mut prefixes: Vec<String> = Vec::new();
    prefixes.push(unix_user.username.clone());
    let mut i: usize = 0;
    while i < unix_user.groups.len()
        invariant
            i <= unix_user.groups@.len(),
            prefixes@.len() == i + 1,
            prefixes@[0]@ == unix_user.username@,
            forall|j: int| 0 <= j < i ==> #[trigger] prefixes@[j + 1]@ == unix_user.groups@[j]@,
        decreases unix_user.groups@.len() - i,
    {
        prefixes.push(unix_user.groups[i].clone());
        i = i + 1;
    }
    assert forall|j: int| 0 <= j < prefixes@.len() implies #[trigger] strings_of(prefixes@)[j] == allowed_prefixes(*unix_user)[j] by {
        if j > 0 {
            assert(prefixes@[(j - 1) + 1]@ == unix_user.groups@[j - 1]@);
        }
    }
    assert(strings_of(prefixes@) =~= allowed_prefixes(*unix_user));
    match validate_ownership_by_prefixes(name, prefixes.as_slice()) {
        Err(e) => Err(AuthorizationError::OwnershipError(e)),
        Ok(()) => Ok(()),
    }
}

/// The lowercase noun for what a name is of.
pub open spec fn noun_lower(d: DbOrUser) -> Seq<char> {
    if d is Database { "database"@ } else { "user"@ }
}

/// The capitalized noun for what a name is of.
pub open spec fn noun_capital(d: DbOrUser) -> Seq<char> {
    if d is Database { "Database"@ } else { "User"@ }
}

/// The message for a name that is not well formed.
pub open spec fn name_error_message(e: NameValidationError, d: DbOrUser) -> Seq<char> {
    match e {
        NameValidationError::EmptyString => noun_capital(d) + " name cannot be empty."@,
        NameValidationError::TooLong => noun_capital(d) + " is too long. Maximum length is 64 characters."@,
        NameValidationError::InvalidCharacters => "Invalid characters in "@ + noun_lower(d) + " name: '"@
            + d.name_view() + "'\n\nOnly A-Z, a-z, 0-9, _ (underscore) and - (dash) are permitted.\n"@,
    }
}

/// The lines listing the groups other than the user's own name as allowed prefixes.
pub open spec fn group_lines(groups: Seq<Seq<char>>, username: Seq<char>) -> Seq<Seq<char>>
    decreases groups.len(),
{
    if groups.len() == 0 {
        Seq::empty()
    } else {
        let rest = group_lines(groups.drop_last(), username);
        if groups.last() == username {
            rest
        } else {
            rest.push("  - "@ + groups.last())
        }
    }
}

/// The user name and groups that a message about prefixes lists: those of the user, or `???`
/// and no groups when the user could not be looked up.
pub open spec fn listed_user(user: Option<UnixUser>) -> (Seq<char>, Seq<Seq<char>>) {
    match user {
        Some(u) => (u.username@, strings_of(u.groups@)),
        None => ("???"@, Seq::empty()),
    }
}

/// The message for a name that does not belong to the user: for a name without a matching
/// prefix, the prefixes the user may use, its own name first and then its other groups in
/// order.
pub open spec fn owner_error_message(e: OwnerValidationError, d: DbOrUser, user: Option<UnixUser>) -> Seq<char> {
    let (username, groups) = listed_user(user);
    match e {
        OwnerValidationError::NoMatch => "Invalid "@ + noun_lower(d) + " name prefix: '"@ + d.name_view()
            + "' does not match your username or any of your groups.\nAre you sure you are allowed to create "@
            + noun_lower(d) + " names with this prefix?\nThe format should be: <prefix>_<"@ + noun_lower(d)
            + " name>\n\nAllowed prefixes:\n  - "@ + username + "\n"@
            + join(group_lines(sort_strings(groups), username), "\n"@) + "\n"@,
        OwnerValidationError::StringEmpty => "'"@ + d.name_view() + "' is not a valid "@ + noun_lower(d) + " name."@,
    }
}

/// The message for a refused request.
pub open spec fn authorization_error_text(e: AuthorizationError, d: DbOrUser, user: Option<UnixUser>) -> Seq<char> {
    match e {
        AuthorizationError::SanitizationError(n) => name_error_message(n, d),
        AuthorizationError::OwnershipError(o) => owner_error_message(o, d, user),
    }
}

/// The kind of a malformed name, as a short tag.
pub open spec fn name_error_type(e: NameValidationError) -> Seq<char> {
    match e {
        NameValidationError::EmptyString => "empty-string"@,
        NameValidationError::InvalidCharacters => "invalid-characters"@,
        NameValidationError::TooLong => "too-long"@,
    }
}

/// The kind of an ownership failure, as a short tag.
pub open spec fn owner_error_type(e: OwnerValidationError) -> Seq<char> {
    match e {
        OwnerValidationError::NoMatch => "no-match"@,
        OwnerValidationError::StringEmpty => "string-empty"@,
    }
}

/// The kind of a refused request, as a tag: `sanitization-error/...` or `ownership-error/...`.
pub open spec fn authorization_error_type(e: AuthorizationError) -> Seq<char> {
    match e {
        AuthorizationError::SanitizationError(n) => "sanitization-error/"@ + name_error_type(n),
        AuthorizationError::OwnershipError(o) => "ownership-error/"@ + owner_error_type(o),
    }
}

impl NameValidationError {
    /// The message for this error about the given name.
    pub fn to_error_message(self, db_or_user: DbOrUser) -> (r: String)
        ensures
            r@ == name_error_message(self, db_or_user),
    {
        match self {
            NameValidationError::EmptyString => {
                let mut s = String::from_str(db_or_user.capitalized_noun());
                push_str(&mut s, " name cannot be empty.");
                s
            },
            NameValidationError::TooLong => {
                let mut s = String::from_str(db_or_user.capitalized_noun());
                push_str(&mut s, " is too long. Maximum length is 64 characters.");
                s
            },
            NameValidationError::InvalidCharacters => {
                let mut s = String::from_str("Invalid characters in ");
                push_str(&mut s, db_or_user.lowercased_noun());
                push_str(&mut s, " name: '");
                push_str(&mut s, db_or_user.name());
                push_str(&mut s, "'\n\nOnly A-Z, a-z, 0-9, _ (underscore) and - (dash) are permitted.\n");
                s
            },
        }
    }

    /// The kind of this error, as a short tag.
    pub fn error_type(&self) -> (r: &'static str)
        ensures
            r@ == name_error_type(*self),
    {
        match self {
            NameValidationError::EmptyString => "empty-string",
            NameValidationError::InvalidCharacters => "invalid-characters",
            NameValidationError::TooLong => "too-long",
        }
    }
}

/// Lists the groups other than the user name as `  - group` lines, joined by line breaks.
fn group_list(groups: &[String], username: &str) -> (r: String)
    ensures
        r@ == join(group_lines(strings_of(groups@), username@), "\n"@),
{
    let ghost gs = strings_of(groups@);
    let mut lines: Vec<String> = Vec::new();
    let mut i: usize = 0;
    while i < groups.len()
        invariant
            i <= groups@.len(),
            gs == strings_of(groups@),
            strings_of(lines@) == group_lines(gs.take(i as int), username@),
        decreases groups@.len() - i,
    {
        assert(gs.take(i + 1).drop_last() =~= gs.take(i as int));
        assert(gs.take(i + 1).last() == groups@[i as int]@);
        if !str_eq(groups[i].as_str(), username) {
            let mut line = String::from_str("  - ");
            push_str(&mut line, groups[i].as_str());
            let ghost before = strings_of(lines@);
            lines.push(line);
            assert(strings_of(lines@) =~= before.push("  - "@ + groups@[i as int]@));
        }
        i = i + 1;
    }
    assert(gs.take(groups@.len() as int) =~= gs);
    crate::text::join_strings(lines.as_slice(), "\n")
}

impl OwnerValidationError {
    /// The message for this error about the given name, for the given unix user (`None` when
    /// it could not be looked up).
    pub fn to_error_message(self, db_or_user: DbOrUser, unix_user: Option<&UnixUser>) -> (r: String)
        ensures
            r@ == owner_error_message(self, db_or_user, match unix_user {
                Some(u) => Some(*u),
                None => None,
            }),
    {
        match self {
            OwnerValidationError::NoMatch => {
                let (username, groups) = match unix_user {
                    Some(u) => (u.username.clone(), sort_strings_vec(u.groups.as_slice())),
                    None => (String::from_str("???"), Vec::new()),
                };
                proof {
                    if unix_user is None {
                        assert(strings_of(groups@) =~= sort_strings(Seq::<Seq<char>>::empty()));
                    }
                }
                let noun = db_or_user.lowercased_noun();
                let mut s = String::from_str("Invalid ");
                push_str(&mut s, noun);
                push_str(&mut s, " name prefix: '");
                push_str(&mut s, db_or_user.name());
                push_str(&mut s, "' does not match your username or any of your groups.\nAre you sure you are allowed to create ");
                push_str(&mut s, noun);
                push_str(&mut s, " names with this prefix?\nThe format should be: <prefix>_<");
                push_str(&mut s, noun);
                push_str(&mut s, " name>\n\nAllowed prefixes:\n  - ");
                push_str(&mut s, username.as_str());
                push_str(&mut s, "\n");
                let list = group_list(groups.as_slice(), username.as_str());
                push_str(&mut s, list.as_str());
                push_str(&mut s, "\n");
                s
            },
            OwnerValidationError::StringEmpty => {
                let mut s = String::from_str("'");
                push_str(&mut s, db_or_user.name());
                push_str(&mut s, "' is not a valid ");
                push_str(&mut s, db_or_user.lowercased_noun());
                push_str(&mut s, " name.");
                s
            },
        }
    }

    /// The kind of this error, as a short tag.
    pub fn error_type(&self) -> (r: &'static str)
        ensures
            r@ == owner_error_type(*self),
    {
        match self {
            OwnerValidationError::NoMatch => "no-match",
            OwnerValidationError::StringEmpty => "string-empty",
        }
    }
}

impl AuthorizationError {
    /// The message for this error about the given name, for the given unix user (`None` when
    /// it could not be looked up).
    pub fn to_error_message(&self, db_or_user: DbOrUser, unix_user: Option<&UnixUser>) -> (r: String)
        ensures
            r@ == authorization_error_text(*self, db_or_user, match unix_user {
                Some(u) => Some(*u),
                None => None,
            }),
    {
        match self {
            AuthorizationError::SanitizationError(err) => err.to_error_message(db_or_user),
            AuthorizationError::OwnershipError(err) => err.to_error_message(db_or_user, unix_user),
        }
    }

    /// The kind of this error, as a tag.
    pub fn error_type(&self) -> (r: String)
        ensures
            r@ == authorization_error_type(*self),
    {
        match self {
            AuthorizationError::SanitizationError(err) => {
                let mut s = String::from_str("sanitization-error/");
                push_str(&mut s, err.error_type());
                s
            },
            AuthorizationError::OwnershipError(err) => {
                let mut s = String::from_str("ownership-error/");
                push_str(&mut s, err.error_type());
                s
            },
        }
    }
}

/// A name that a unix user may manage: its user name or one of its groups, then `_`, then
/// anything made of the allowed characters, 64 bytes in all at most.
pub proof fn lemma_prefixed_name_is_authorized(user: UnixUser, k: int, rest: Seq<char>)
    requires
        0 <= k < allowed_prefixes(user).len(),
        forall|i: int| 0 <= i < allowed_prefixes(user)[k].len() ==> is_name_char(#[trigger] allowed_prefixes(user)[k][i]),
        forall|i: int| 0 <= i < rest.len() ==> is_name_char(#[trigger] rest[i]),
        str_len(allowed_prefixes(user)[k] + seq!['_'] + rest) <= 64,
    ensures
        authorization_error(allowed_prefixes(user)[k] + seq!['_'] + rest, user) is None,
{
    let p = allowed_prefixes(user)[k];
    let name = p + seq!['_'] + rest;
    assert forall|i: int| 0 <= i < name.len() implies is_name_char(#[trigger] name[i]) by {
        if i < p.len() {
            assert(name[i] == p[i]);
        } else if i > p.len() {
            assert(name[i] == rest[i - p.len() - 1]);
        }
    }
    assert(name.take(p.len() as int) =~= p);
    assert(has_prefix(name, p));
}

/// A name that a unix user may manage starts with its user name or one of its groups,
/// followed by `_`, and is well formed.
pub proof fn lemma_authorized_name_is_prefixed(name: Seq<char>, user: UnixUser)
    requires
        authorization_error(name, user) is None,
    ensures
        name_error(name) is None,
        exists|k: int| 0 <= k < allowed_prefixes(user).len() && has_prefix(name, #[trigger] allowed_prefixes(user)[k]),
{
}

/// Checks that a unix user may use a database name.
pub fn validate_database_name(name: &str, unix_user: &UnixUser) -> (r: Result<(), AuthorizationError>)
    ensures
        match authorization_error(name@, *unix_user) {
            Some(e) => r == Err::<(), AuthorizationError>(e),
            None => r is Ok,
        },
{
    validate_db_or_user_request(&DbOrUser::Database(MySQLDatabase::from(name)), unix_user)
}

/// Checks that a unix user may use a user name.
pub fn validate_user_name(name: &str, unix_user: &UnixUser) -> (r: Result<(), AuthorizationError>)
    ensures
        match authorization_error(name@, *unix_user) {
            Some(e) => r == Err::<(), AuthorizationError>(e),
            None => r is Ok,
        },
{
    validate_db_or_user_request(&DbOrUser::User(MySQLUser::from(name)), unix_user)
}

} // verus!
