//! The errors the server answers requests with, and their messages and tags.
use vstd::prelude::*;
use vstd::string::*;

use crate::muscl_core::common::UnixUser;
use crate::muscl_core::database_privileges::base::{
    database_privilege_field, privilege_name, DatabasePrivilegeRow, PrivilegeRowView,
};
use crate::muscl_core::database_privileges::diff::{
    DatabasePrivilegeChange, DatabasePrivilegeRowDiff, RowDiffView,
};
use crate::muscl_core::protocol::request_validation::{
    authorization_error_text, authorization_error_type, name_error_message, owner_error_message,
    AuthorizationError, NameValidationError, OwnerValidationError,
};
use crate::muscl_core::types::{DbOrUser, MySQLDatabase, MySQLUser};
use crate::text::{push_str, str_debug, str_debug_text};

verus! {

/// The unix user a message is written for, as a value.
pub open spec fn user_opt(u: Option<&UnixUser>) -> Option<UnixUser> {
    match u {
        Some(x) => Some(*x),
        None => None,
    }
}

/// `MySQL error: ` and the server's message.
pub open spec fn mysql_error_text(e: Seq<char>) -> Seq<char> {
    "MySQL error: "@ + e
}

/// Writes `MySQL error: ` and the server's message.
fn mysql_error_message(e: &String) -> (r: String)
    ensures
        r@ == mysql_error_text(e@),
{
    let mut s = String::from_str("MySQL error: ");
    push_str(&mut s, e.as_str());
    s
}

/// Writes `before`, the name, then `after`.
fn around(before: &str, name: &str, after: &str) -> (r: String)
    ensures
        r@ == before@ + name@ + after@,
{
    let mut s = String::from_str(before);
    push_str(&mut s, name);
    push_str(&mut s, after);
    s
}

/// A copy of a string.
fn copy_string(s: &str) -> (r: String)
    ensures
        r@ == s@,
{
    String::from_str(s)
}

/// The failure of a request for everything of one kind: only the server can fail it.
#[derive(Debug, PartialEq, Eq)]
pub enum ListAllDatabasesError {
    MySqlError(String),
}

impl ListAllDatabasesError {
    /// The message for this error.
    pub fn to_error_message(&self) -> (r: String)
        ensures
            r@ == match self {
                ListAllDatabasesError::MySqlError(e) => mysql_error_text(e@),
            },
    {
        match self {
            ListAllDatabasesError::MySqlError(e) => mysql_error_message(e),
        }
    }

    /// The kind of this error, as a tag.
    pub fn error_type(&self) -> (r: String)
        ensures
            r@ == "mysql-error"@,
    {
        String::from_str("mysql-error")
    }
}

/// The failure of a request for everything of one kind: only the server can fail it.
#[derive(Debug, PartialEq, Eq)]
pub enum ListAllPrivilegesError {
    MySqlError(String),
}

impl ListAllPrivilegesError {
    /// The message for this error.
    pub fn to_error_message(&self) -> (r: String)
        ensures
            r@ == match self {
                ListAllPrivilegesError::MySqlError(e) => mysql_error_text(e@),
            },
    {
        match self {
            ListAllPrivilegesError::MySqlError(e) => mysql_error_message(e),
        }
    }

    /// The kind of this error, as a tag.
    pub fn error_type(&self) -> (r: String)
        ensures
            r@ == "mysql-error"@,
    {
        String::from_str("mysql-error")
    }
}

/// The failure of a request for everything of one kind: only the server can fail it.
#[derive(Debug, PartialEq, Eq)]
pub enum ListAllUsersError {
    MySqlError(String),
}

impl ListAllUsersError {
    /// The message for this error.
    pub fn to_error_message(&self) -> (r: String)
        ensures
            r@ == match self {
                ListAllUsersError::MySqlError(e) => mysql_error_text(e@),
            },
    {
        match self {
            ListAllUsersError::MySqlError(e) => mysql_error_message(e),
        }
    }

    /// The kind of this error, as a tag.
    pub fn error_type(&self) -> (r: String)
        ensures
            r@ == "mysql-error"@,
    {
        String::from_str("mysql-error")
    }
}

/// The failure of a request for everything of one kind: only the server can fail it.
#[derive(Debug, PartialEq, Eq)]
pub enum GetAllDatabasesPrivilegeDataError {
    MySqlError(String),
}

impl GetAllDatabasesPrivilegeDataError {
    /// The message for this error.
    pub fn to_error_message(&self) -> (r: String)
        ensures
            r@ == match self {
                GetAllDatabasesPrivilegeDataError::MySqlError(e) => mysql_error_text(e@),
            },
    {
        match self {
            GetAllDatabasesPrivilegeDataError::MySqlError(e) => mysql_error_message(e),
        }
    }
}

/// The failure to create a database.
#[derive(Debug, PartialEq, Eq)]
pub enum CreateDatabaseError {
    SanitizationError(NameValidationError),
    OwnershipError(OwnerValidationError),
    DatabaseAlreadyExists,
    MySqlError(String),
}

impl CreateDatabaseError {
    /// The message for this error about the given name, for the given unix user.
    pub open spec fn message_view(&self, database_name: MySQLDatabase, user: Option<UnixUser>) -> Seq<char> {
        match self {
            CreateDatabaseError::SanitizationError(e) => name_error_message(*e, DbOrUser::Database(database_name)),
            CreateDatabaseError::OwnershipError(e) => owner_error_message(*e, DbOrUser::Database(database_name), user),
            CreateDatabaseError::DatabaseAlreadyExists => "Database "@ + database_name@ + " already exists."@,
            CreateDatabaseError::MySqlError(e) => mysql_error_text(e@),
        }
    }

    /// The message for this error about the given name, for the given unix user (`None` when
    /// it could not be looked up).
    pub fn to_error_message(&self, database_name: &MySQLDatabase, unix_user: Option<&UnixUser>) -> (r: String)
        ensures
            r@ == self.message_view(*database_name, user_opt(unix_user)),
    {
        match self {
            CreateDatabaseError::SanitizationError(e) => e.to_error_message(DbOrUser::Database(database_name.clone())),
            CreateDatabaseError::OwnershipError(e) => e.to_error_message(DbOrUser::Database(database_name.clone()), unix_user),
            CreateDatabaseError::DatabaseAlreadyExists => around("Database ", database_name.as_str(), " already exists."),
            CreateDatabaseError::MySqlError(e) => mysql_error_message(e),
        }
    }
}

/// The failure to create a user.
#[derive(Debug, PartialEq, Eq)]
pub enum CreateUserError {
    SanitizationError(NameValidationError),
    OwnershipError(OwnerValidationError),
    UserAlreadyExists,
    MySqlError(String),
}

impl CreateUserError {
    /// The message for this error about the given name, for the given unix user.
    pub open spec fn message_view(&self, username: MySQLUser, user: Option<UnixUser>) -> Seq<char> {
        match self {
            CreateUserError::SanitizationError(e) => name_error_message(*e, DbOrUser::User(username)),
            CreateUserError::OwnershipError(e) => owner_error_message(*e, DbOrUser::User(username), user),
            CreateUserError::UserAlreadyExists => "User '"@ + username@ + "' already exists."@,
            CreateUserError::MySqlError(e) => mysql_error_text(e@),
        }
    }

    /// The message for this error about the given name, for the given unix user (`None` when
    /// it could not be looked up).
    pub fn to_error_message(&self, username: &MySQLUser, unix_user: Option<&UnixUser>) -> (r: String)
        ensures
            r@ == self.message_view(*username, user_opt(unix_user)),
    {
        match self {
            CreateUserError::SanitizationError(e) => e.to_error_message(DbOrUser::User(username.clone())),
            CreateUserError::OwnershipError(e) => e.to_error_message(DbOrUser::User(username.clone()), unix_user),
            CreateUserError::UserAlreadyExists => around("User '", username.as_str(), "' already exists."),
            CreateUserError::MySqlError(e) => mysql_error_message(e),
        }
    }
}

/// The failure to drop a database.
#[derive(Debug, PartialEq, Eq)]
pub enum DropDatabaseError {
    SanitizationError(NameValidationError),
    OwnershipError(OwnerValidationError),
    DatabaseDoesNotExist,
    MySqlError(String),
}

impl DropDatabaseError {
    /// The message for this error about the given name, for the given unix user.
    pub open spec fn message_view(&self, database_name: MySQLDatabase, user: Option<UnixUser>) -> Seq<char> {
        match self {
            DropDatabaseError::SanitizationError(e) => name_error_message(*e, DbOrUser::Database(database_name)),
            DropDatabaseError::OwnershipError(e) => owner_error_message(*e, DbOrUser::Database(database_name), user),
            DropDatabaseError::DatabaseDoesNotExist => "Database "@ + database_name@ + " does not exist."@,
            DropDatabaseError::MySqlError(e) => mysql_error_text(e@),
        }
    }

    /// The message for this error about the given name, for the given unix user (`None` when
    /// it could not be looked up).
    pub fn to_error_message(&self, database_name: &MySQLDatabase, unix_user: Option<&UnixUser>) -> (r: String)
        ensures
            r@ == self.message_view(*database_name, user_opt(unix_user)),
    {
        match self {
            DropDatabaseError::SanitizationError(e) => e.to_error_message(DbOrUser::Database(database_name.clone())),
            DropDatabaseError::OwnershipError(e) => e.to_error_message(DbOrUser::Database(database_name.clone()), unix_user),
            DropDatabaseError::DatabaseDoesNotExist => around("Database ", database_name.as_str(), " does not exist."),
            DropDatabaseError::MySqlError(e) => mysql_error_message(e),
        }
    }

    /// The kind of this error, as a tag.
    pub open spec fn type_view(&self) -> Seq<char> {
        match self {
            DropDatabaseError::SanitizationError(_) => "sanitization-error"@,
            DropDatabaseError::OwnershipError(_) => "ownership-error"@,
            DropDatabaseError::DatabaseDoesNotExist => "database-does-not-exist"@,
            DropDatabaseError::MySqlError(_) => "mysql-error"@,
        }
    }

    /// The kind of this error, as a tag.
    pub fn error_type(&self) -> (r: &'static str)
        ensures
            r@ == self.type_view(),
    {
        match self {
            DropDatabaseError::SanitizationError(_) => "sanitization-error",
            DropDatabaseError::OwnershipError(_) => "ownership-error",
            DropDatabaseError::DatabaseDoesNotExist => "database-does-not-exist",
            DropDatabaseError::MySqlError(_) => "mysql-error",
        }
    }
}

/// The failure to read the privileges on a database.
#[derive(Debug, PartialEq, Eq)]
pub enum GetDatabasesPrivilegeDataError {
    SanitizationError(NameValidationError),
    OwnershipError(OwnerValidationError),
    DatabaseDoesNotExist,
    MySqlError(String),
}

impl GetDatabasesPrivilegeDataError {
    /// The message for this error about the given name, for the given unix user.
    pub open spec fn message_view(&self, database_name: MySQLDatabase, user: Option<UnixUser>) -> Seq<char> {
        match self {
            GetDatabasesPrivilegeDataError::SanitizationError(e) => name_error_message(*e, DbOrUser::Database(database_name)),
            GetDatabasesPrivilegeDataError::OwnershipError(e) => owner_error_message(*e, DbOrUser::Database(database_name), user),
            GetDatabasesPrivilegeDataError::DatabaseDoesNotExist => "Database '"@ + database_name@ + "' does not exist."@,
            GetDatabasesPrivilegeDataError::MySqlError(e) => mysql_error_text(e@),
        }
    }

    /// The message for this error about the given name, for the given unix user (`None` when
    /// it could not be looked up).
    pub fn to_error_message(&self, database_name: &MySQLDatabase, unix_user: Option<&UnixUser>) -> (r: String)
        ensures
            r@ == self.message_view(*database_name, user_opt(unix_user)),
    {
        match self {
            GetDatabasesPrivilegeDataError::SanitizationError(e) => e.to_error_message(DbOrUser::Database(database_name.clone())),
            GetDatabasesPrivilegeDataError::OwnershipError(e) => e.to_error_message(DbOrUser::Database(database_name.clone()), unix_user),
            GetDatabasesPrivilegeDataError::DatabaseDoesNotExist => around("Database '", database_name.as_str(), "' does not exist."),
            GetDatabasesPrivilegeDataError::MySqlError(e) => mysql_error_message(e),
        }
    }

    /// The kind of this error, as a tag.
    pub open spec fn type_view(&self) -> Seq<char> {
        match self {
            GetDatabasesPrivilegeDataError::SanitizationError(_) => "sanitization-error"@,
            GetDatabasesPrivilegeDataError::OwnershipError(_) => "ownership-error"@,
            GetDatabasesPrivilegeDataError::DatabaseDoesNotExist => "database-does-not-exist"@,
            GetDatabasesPrivilegeDataError::MySqlError(_) => "mysql-error"@,
        }
    }

    /// The kind of this error, as a tag.
    pub fn error_type(&self) -> (r: &'static str)
        ensures
            r@ == self.type_view(),
    {
        match self {
            GetDatabasesPrivilegeDataError::SanitizationError(_) => "sanitization-error",
            GetDatabasesPrivilegeDataError::OwnershipError(_) => "ownership-error",
            GetDatabasesPrivilegeDataError::DatabaseDoesNotExist => "database-does-not-exist",
            GetDatabasesPrivilegeDataError::MySqlError(_) => "mysql-error",
        }
    }
}

/// The failure to lock a user.
#[derive(Debug, PartialEq, Eq)]
pub enum LockUserError {
    SanitizationError(NameValidationError),
    OwnershipError(OwnerValidationError),
    UserDoesNotExist,
    UserIsAlreadyLocked,
    MySqlError(String),
}

impl LockUserError {
    /// The message for this error about the given name, for the given unix user.
    pub open spec fn message_view(&self, username: MySQLUser, user: Option<UnixUser>) -> Seq<char> {
        match self {
            LockUserError::SanitizationError(e) => name_error_message(*e, DbOrUser::User(username)),
            LockUserError::OwnershipError(e) => owner_error_message(*e, DbOrUser::User(username), user),
            LockUserError::UserDoesNotExist => "User '"@ + username@ + "' does not exist."@,
            LockUserError::UserIsAlreadyLocked => "User '"@ + username@ + "' is already locked."@,
            LockUserError::MySqlError(e) => mysql_error_text(e@),
        }
    }

    /// The message for this error about the given name, for the given unix user (`None` when
    /// it could not be looked up).
    pub fn to_error_message(&self, username: &MySQLUser, unix_user: Option<&UnixUser>) -> (r: String)
        ensures
            r@ == self.message_view(*username, user_opt(unix_user)),
    {
        match self {
            LockUserError::SanitizationError(e) => e.to_error_message(DbOrUser::User(username.clone())),
            LockUserError::OwnershipError(e) => e.to_error_message(DbOrUser::User(username.clone()), unix_user),
            LockUserError::UserDoesNotExist => around("User '", username.as_str(), "' does not exist."),
            LockUserError::UserIsAlreadyLocked => around("User '", username.as_str(), "' is already locked."),
            LockUserError::MySqlError(e) => mysql_error_message(e),
        }
    }
}

/// The failure to drop a user.
#[derive(Debug, PartialEq, Eq)]
pub enum DropUserError {
    AuthorizationError(AuthorizationError),
    UserDoesNotExist,
    MySqlError(String),
}

impl DropUserError {
    /// The message for this error about the given name, for the given unix user.
    pub open spec fn message_view(&self, username: MySQLUser, user: Option<UnixUser>) -> Seq<char> {
        match self {
            DropUserError::AuthorizationError(e) => authorization_error_text(*e, DbOrUser::User(username), user),
            DropUserError::UserDoesNotExist => "User '"@ + username@ + "' does not exist."@,
            DropUserError::MySqlError(e) => mysql_error_text(e@),
        }
    }

    /// The message for this error about the given name, for the given unix user (`None` when
    /// it could not be looked up).
    pub fn to_error_message(&self, username: &MySQLUser, unix_user: Option<&UnixUser>) -> (r: String)
        ensures
            r@ == self.message_view(*username, user_opt(unix_user)),
    {
        match self {
            DropUserError::AuthorizationError(e) => e.to_error_message(DbOrUser::User(username.clone()), unix_user),
            DropUserError::UserDoesNotExist => around("User '", username.as_str(), "' does not exist."),
            DropUserError::MySqlError(e) => mysql_error_message(e),
        }
    }

    /// The kind of this error, as a tag.
    pub open spec fn type_view(&self) -> Seq<char> {
        match self {
            DropUserError::AuthorizationError(e) => authorization_error_type(*e),
            DropUserError::UserDoesNotExist => "user-does-not-exist"@,
            DropUserError::MySqlError(_) => "mysql-error"@,
        }
    }

    /// The kind of this error, as a tag.
    pub fn error_type(&self) -> (r: String)
        ensures
            r@ == self.type_view(),
    {
        match self {
            DropUserError::AuthorizationError(e) => e.error_type(),
            DropUserError::UserDoesNotExist => copy_string("user-does-not-exist"),
            DropUserError::MySqlError(_) => copy_string("mysql-error"),
        }
    }
}

/// The failure to show a user.
#[derive(Debug, PartialEq, Eq)]
pub enum ListUsersError {
    AuthorizationError(AuthorizationError),
    UserDoesNotExist,
    MySqlError(String),
}

impl ListUsersError {
    /// The message for this error about the given name, for the given unix user.
    pub open spec fn message_view(&self, username: MySQLUser, user: Option<UnixUser>) -> Seq<char> {
        match self {
            ListUsersError::AuthorizationError(e) => authorization_error_text(*e, DbOrUser::User(username), user),
            ListUsersError::UserDoesNotExist => "User '"@ + username@ + "' does not exist."@,
            ListUsersError::MySqlError(e) => mysql_error_text(e@),
        }
    }

    /// The message for this error about the given name, for the given unix user (`None` when
    /// it could not be looked up).
    pub fn to_error_message(&self, username: &MySQLUser, unix_user: Option<&UnixUser>) -> (r: String)
        ensures
            r@ == self.message_view(*username, user_opt(unix_user)),
    {
        match self {
            ListUsersError::AuthorizationError(e) => e.to_error_message(DbOrUser::User(username.clone()), unix_user),
            ListUsersError::UserDoesNotExist => around("User '", username.as_str(), "' does not exist."),
            ListUsersError::MySqlError(e) => mysql_error_message(e),
        }
    }

    /// The kind of this error, as a tag.
    pub open spec fn type_view(&self) -> Seq<char> {
        match self {
            ListUsersError::AuthorizationError(e) => authorization_error_type(*e),
            ListUsersError::UserDoesNotExist => "user-does-not-exist"@,
            ListUsersError::MySqlError(_) => "mysql-error"@,
        }
    }

    /// The kind of this error, as a tag.
    pub fn error_type(&self) -> (r: String)
        ensures
            r@ == self.type_view(),
    {
        match self {
            ListUsersError::AuthorizationError(e) => e.error_type(),
            ListUsersError::UserDoesNotExist => copy_string("user-does-not-exist"),
            ListUsersError::MySqlError(_) => copy_string("mysql-error"),
        }
    }
}

/// The failure to set the password of a user.
#[derive(Debug, PartialEq, Eq)]
pub enum SetPasswordError {
    AuthorizationError(AuthorizationError),
    UserDoesNotExist,
    MySqlError(String),
}

impl SetPasswordError {
    /// The message for this error about the given name, for the given unix user.
    pub open spec fn message_view(&self, username: MySQLUser, user: Option<UnixUser>) -> Seq<char> {
        match self {
            SetPasswordError::AuthorizationError(e) => authorization_error_text(*e, DbOrUser::User(username), user),
            SetPasswordError::UserDoesNotExist => "User '"@ + username@ + "' does not exist."@,
            SetPasswordError::MySqlError(e) => mysql_error_text(e@),
        }
    }

    /// The message for this error about the given name, for the given unix user (`None` when
    /// it could not be looked up).
    pub fn to_error_message(&self, username: &MySQLUser, unix_user: Option<&UnixUser>) -> (r: String)
        ensures
            r@ == self.message_view(*username, user_opt(unix_user)),
    {
        match self {
            SetPasswordError::AuthorizationError(e) => e.to_error_message(DbOrUser::User(username.clone()), unix_user),
            SetPasswordError::UserDoesNotExist => around("User '", username.as_str(), "' does not exist."),
            SetPasswordError::MySqlError(e) => mysql_error_message(e),
        }
    }

    /// The kind of this error, as a tag.
    pub open spec fn type_view(&self) -> Seq<char> {
        match self {
            SetPasswordError::AuthorizationError(e) => authorization_error_type(*e),
            SetPasswordError::UserDoesNotExist => "user-does-not-exist"@,
            SetPasswordError::MySqlError(_) => "mysql-error"@,
        }
    }

    /// The kind of this error, as a tag.
    pub fn error_type(&self) -> (r: String)
        ensures
            r@ == self.type_view(),
    {
        match self {
            SetPasswordError::AuthorizationError(e) => e.error_type(),
            SetPasswordError::UserDoesNotExist => copy_string("user-does-not-exist"),
            SetPasswordError::MySqlError(_) => copy_string("mysql-error"),
        }
    }
}

/// The failure to unlock a user.
#[derive(Debug, PartialEq, Eq)]
pub enum UnlockUserError {
    ValidationError(AuthorizationError),
    UserDoesNotExist,
    UserIsAlreadyUnlocked,
    MySqlError(String),
}

impl UnlockUserError {
    /// The message for this error about the given name, for the given unix user.
    pub open spec fn message_view(&self, username: MySQLUser, user: Option<UnixUser>) -> Seq<char> {
        match self {
            UnlockUserError::ValidationError(e) => authorization_error_text(*e, DbOrUser::User(username), user),
            UnlockUserError::UserDoesNotExist => "User '"@ + username@ + "' does not exist."@,
            UnlockUserError::UserIsAlreadyUnlocked => "User '"@ + username@ + "' is already unlocked."@,
            UnlockUserError::MySqlError(e) => mysql_error_text(e@),
        }
    }

    /// The message for this error about the given name, for the given unix user (`None` when
    /// it could not be looked up).
    pub fn to_error_message(&self, username: &MySQLUser, unix_user: Option<&UnixUser>) -> (r: String)
        ensures
            r@ == self.message_view(*username, user_opt(unix_user)),
    {
        match self {
            UnlockUserError::ValidationError(e) => e.to_error_message(DbOrUser::User(username.clone()), unix_user),
            UnlockUserError::UserDoesNotExist => around("User '", username.as_str(), "' does not exist."),
            UnlockUserError::UserIsAlreadyUnlocked => around("User '", username.as_str(), "' is already unlocked."),
            UnlockUserError::MySqlError(e) => mysql_error_message(e),
        }
    }

    /// The kind of this error, as a tag.
    pub open spec fn type_view(&self) -> Seq<char> {
        match self {
            UnlockUserError::ValidationError(e) => authorization_error_type(*e),
            UnlockUserError::UserDoesNotExist => "user-does-not-exist"@,
            UnlockUserError::UserIsAlreadyUnlocked => "user-is-already-unlocked"@,
            UnlockUserError::MySqlError(_) => "mysql-error"@,
        }
    }

    /// The kind of this error, as a tag.
    pub fn error_type(&self) -> (r: String)
        ensures
            r@ == self.type_view(),
    {
        match self {
            UnlockUserError::ValidationError(e) => e.error_type(),
            UnlockUserError::UserDoesNotExist => copy_string("user-does-not-exist"),
            UnlockUserError::UserIsAlreadyUnlocked => copy_string("user-is-already-unlocked"),
            UnlockUserError::MySqlError(_) => copy_string("mysql-error"),
        }
    }
}

/// The failure to show a database.
#[derive(Debug, PartialEq, Eq)]
pub enum ListDatabasesError {
    ValidationError(AuthorizationError),
    DatabaseDoesNotExist,
    MySqlError(String),
}

impl ListDatabasesError {
    /// The message for this error about the given name, for the given unix user.
    pub open spec fn message_view(&self, database_name: MySQLDatabase, user: Option<UnixUser>) -> Seq<char> {
        match self {
            ListDatabasesError::ValidationError(e) => authorization_error_text(*e, DbOrUser::Database(database_name), user),
            ListDatabasesError::DatabaseDoesNotExist => "Database '"@ + database_name@ + "' does not exist."@,
            ListDatabasesError::MySqlError(e) => mysql_error_text(e@),
        }
    }

    /// The message for this error about the given name, for the given unix user (`None` when
    /// it could not be looked up).
    pub fn to_error_message(&self, database_name: &MySQLDatabase, unix_user: Option<&UnixUser>) -> (r: String)
        ensures
            r@ == self.message_view(*database_name, user_opt(unix_user)),
    {
        match self {
            ListDatabasesError::ValidationError(e) => e.to_error_message(DbOrUser::Database(database_name.clone()), unix_user),
            ListDatabasesError::DatabaseDoesNotExist => around("Database '", database_name.as_str(), "' does not exist."),
            ListDatabasesError::MySqlError(e) => mysql_error_message(e),
        }
    }

    /// The kind of this error, as a tag.
    pub open spec fn type_view(&self) -> Seq<char> {
        match self {
            ListDatabasesError::ValidationError(e) => authorization_error_type(*e),
            ListDatabasesError::DatabaseDoesNotExist => "database-does-not-exist"@,
            ListDatabasesError::MySqlError(_) => "mysql-error"@,
        }
    }

    /// The kind of this error, as a tag.
    pub fn error_type(&self) -> (r: String)
        ensures
            r@ == self.type_view(),
    {
        match self {
            ListDatabasesError::ValidationError(e) => e.error_type(),
            ListDatabasesError::DatabaseDoesNotExist => copy_string("database-does-not-exist"),
            ListDatabasesError::MySqlError(_) => copy_string("mysql-error"),
        }
    }
}

/// The refusal to check whether a name may be used.
#[derive(Debug, PartialEq, Eq)]
pub struct CheckAuthorizationError(pub AuthorizationError);

impl CheckAuthorizationError {
    /// The message for this error about the given name, for the given unix user (`None` when
    /// it could not be looked up).
    pub fn to_error_message(&self, db_or_user: &DbOrUser, unix_user: Option<&UnixUser>) -> (r: String)
        ensures
            r@ == authorization_error_text(self.0, *db_or_user, user_opt(unix_user)),
    {
        self.0.to_error_message(db_or_user.clone(), unix_user)
    }

    /// The kind of this error, as a tag.
    pub fn error_type(&self) -> (r: String)
        ensures
            r@ == authorization_error_type(self.0),
    {
        self.0.error_type()
    }
}

/// What `{:?}` writes for a privilege flag.
pub open spec fn bool_debug_text(b: bool) -> Seq<char> {
    if b {
        "true"@
    } else {
        "false"@
    }
}

/// What `{:?}` writes for the change of a privilege, if any.
pub open spec fn change_debug_text(c: Option<DatabasePrivilegeChange>) -> Seq<char> {
    match c {
        None => "None"@,
        Some(DatabasePrivilegeChange::YesToNo) => "Some(YesToNo)"@,
        Some(DatabasePrivilegeChange::NoToYes) => "Some(NoToYes)"@,
    }
}

/// The privilege fields as `{:?}` writes them: `, <name>: <value>` for each, in field order.
pub open spec fn privilege_fields_debug_text(values: Seq<Seq<char>>) -> Seq<char>
    decreases values.len(),
{
    if values.len() == 0 {
        Seq::empty()
    } else {
        privilege_fields_debug_text(values.drop_last()) + ", "@ + privilege_name(values.len() - 1)
            + ": "@ + values.last()
    }
}

/// The start of what `{:?}` writes for a row or a row diff: the type's name, then the names
/// of the database and of the user, each in its tuple struct.
pub open spec fn names_debug_text(struct_name: Seq<char>, db: Seq<char>, user: Seq<char>) -> Seq<char> {
    struct_name + " { db: MySQLDatabase("@ + str_debug_text(db) + "), user: MySQLUser("@
        + str_debug_text(user) + ")"@
}

/// What `{:?}` writes for a privilege row: its derived `Debug`.
pub open spec fn row_debug_text(r: PrivilegeRowView) -> Seq<char> {
    names_debug_text("DatabasePrivilegeRow"@, r.0, r.1) + privilege_fields_debug_text(
        Seq::new(11, |i: int| bool_debug_text(r.2[i])),
    ) + " }"@
}

/// What `{:?}` writes for a row diff: its derived `Debug`.
pub open spec fn row_diff_debug_text(d: RowDiffView) -> Seq<char> {
    names_debug_text("DatabasePrivilegeRowDiff"@, d.0, d.1) + privilege_fields_debug_text(
        Seq::new(11, |i: int| change_debug_text(d.2[i])),
    ) + " }"@
}

/// Writes the start of a row or a row diff as `{:?}` does.
fn names_debug(struct_name: &str, db: &MySQLDatabase, user: &MySQLUser) -> (r: String)
    ensures
        r@ == names_debug_text(struct_name@, db@, user@),
{
    let mut s = String::from_str(struct_name);
    push_str(&mut s, " { db: MySQLDatabase(");
    let d = str_debug(db.as_str());
    push_str(&mut s, d.as_str());
    push_str(&mut s, "), user: MySQLUser(");
    let u = str_debug(user.as_str());
    push_str(&mut s, u.as_str());
    push_str(&mut s, ")");
    s
}

/// Appends the `i`th privilege field, `, <name>: <value>`, as `{:?}` writes it.
fn push_field_debug(s: &mut String, i: usize, value: &str, Ghost(values): Ghost<Seq<Seq<char>>>)
    requires
        i < 11,
        values.len() == 11,
        values[i as int] == value@,
    ensures
        final(s)@ == old(s)@ + ", "@ + privilege_name(i as int) + ": "@ + value@,
        privilege_fields_debug_text(values.take(i + 1)) == privilege_fields_debug_text(
            values.take(i as int),
        ) + ", "@ + privilege_name(i as int) + ": "@ + value@,
{
    let ghost t = values.take(i + 1);
    assert(t.drop_last() =~= values.take(i as int));
    let ghost prev = privilege_fields_debug_text(values.take(i as int));
    let ghost tail = ", "@ + privilege_name(i as int) + ": "@ + value@;
    assert(privilege_fields_debug_text(t) =~= prev + tail);
    push_str(s, ", ");
    push_str(s, database_privilege_field(i + 2));
    push_str(s, ": ");
    push_str(s, value);
}

/// Writes a privilege row as `{:?}` does.
fn row_debug(row: &DatabasePrivilegeRow) -> (r: String)
    ensures
        r@ == row_debug_text(row@),
{
    let ghost values = Seq::new(11, |k: int| bool_debug_text(row@.2[k]));
    let mut s = names_debug("DatabasePrivilegeRow", &row.db, &row.user);
    let ghost start = s@;
    let mut i: usize = 0;
    while i < 11
        invariant
            i <= 11,
            values == Seq::new(11, |k: int| bool_debug_text(row@.2[k])),
            s@ == start + privilege_fields_debug_text(values.take(i as int)),
        decreases 11 - i,
    {
        let value: &str = if row.privilege_at(i) { "true" } else { "false" };
        push_field_debug(&mut s, i, value, Ghost(values));
        assert(s@ =~= start + privilege_fields_debug_text(values.take(i + 1)));
        i = i + 1;
    }
    assert(values.take(11) =~= values);
    push_str(&mut s, " }");
    s
}

/// Writes a row diff as `{:?}` does.
fn row_diff_debug(d: &DatabasePrivilegeRowDiff) -> (r: String)
    ensures
        r@ == row_diff_debug_text(d@),
{
    let ghost values = Seq::new(11, |k: int| change_debug_text(d@.2[k]));
    let mut s = names_debug("DatabasePrivilegeRowDiff", &d.db, &d.user);
    let ghost start = s@;
    let mut i: usize = 0;
    while i < 11
        invariant
            i <= 11,
            values == Seq::new(11, |k: int| change_debug_text(d@.2[k])),
            s@ == start + privilege_fields_debug_text(values.take(i as int)),
        decreases 11 - i,
    {
        let value: &str = match d.change_at(i) {
            None => "None",
            Some(DatabasePrivilegeChange::YesToNo) => "Some(YesToNo)",
            Some(DatabasePrivilegeChange::NoToYes) => "Some(NoToYes)",
        };
        push_field_debug(&mut s, i, value, Ghost(values));
        assert(s@ =~= start + privilege_fields_debug_text(values.take(i + 1)));
        i = i + 1;
    }
    assert(values.take(11) =~= values);
    push_str(&mut s, " }");
    s
}

/// Why a privilege diff cannot be carried out on the rows the server holds.
#[derive(Debug, PartialEq, Eq)]
pub enum DiffDoesNotApplyError {
    RowAlreadyExists(MySQLDatabase, MySQLUser),
    RowDoesNotExist(MySQLDatabase, MySQLUser),
    RowPrivilegeChangeDoesNotApply(DatabasePrivilegeRowDiff, DatabasePrivilegeRow),
}

/// The message for a diff that cannot be carried out.
pub open spec fn diff_error_text(e: DiffDoesNotApplyError) -> Seq<char> {
    match e {
        DiffDoesNotApplyError::RowAlreadyExists(db, user) => "Privileges for user '"@ + user@
            + "' on database '"@ + db@ + "' already exist."@,
        DiffDoesNotApplyError::RowDoesNotExist(db, user) => "Privileges for user '"@ + user@
            + "' on database '"@ + db@ + "' do not exist."@,
        DiffDoesNotApplyError::RowPrivilegeChangeDoesNotApply(d, r) => "Could not apply privilege change "@
            + row_diff_debug_text(d@) + " to row "@ + row_debug_text(r@),
    }
}

/// The kind of a diff that cannot be carried out, as a tag.
pub open spec fn diff_error_type(e: DiffDoesNotApplyError) -> Seq<char> {
    match e {
        DiffDoesNotApplyError::RowAlreadyExists(_, _) => "row-already-exists"@,
        DiffDoesNotApplyError::RowDoesNotExist(_, _) => "row-does-not-exist"@,
        DiffDoesNotApplyError::RowPrivilegeChangeDoesNotApply(_, _) => "row-privilege-change-does-not-apply"@,
    }
}

impl DiffDoesNotApplyError {
    /// The message for this error.
    pub fn to_error_message(&self) -> (r: String)
        ensures
            r@ == diff_error_text(*self),
    {
        match self {
            DiffDoesNotApplyError::RowAlreadyExists(db, user) => {
                let mut s = around("Privileges for user '", user.as_str(), "' on database '");
                push_str(&mut s, db.as_str());
                push_str(&mut s, "' already exist.");
                s
            },
            DiffDoesNotApplyError::RowDoesNotExist(db, user) => {
                let mut s = around("Privileges for user '", user.as_str(), "' on database '");
                push_str(&mut s, db.as_str());
                push_str(&mut s, "' do not exist.");
                s
            },
            DiffDoesNotApplyError::RowPrivilegeChangeDoesNotApply(d, r) => {
                let mut s = String::from_str("Could not apply privilege change ");
                let dt = row_diff_debug(d);
                push_str(&mut s, dt.as_str());
                push_str(&mut s, " to row ");
                let rt = row_debug(r);
                push_str(&mut s, rt.as_str());
                s
            },
        }
    }

    /// The kind of this error, as a tag.
    pub fn error_type(&self) -> (r: String)
        ensures
            r@ == diff_error_type(*self),
    {
        match self {
            DiffDoesNotApplyError::RowAlreadyExists(_, _) => copy_string("row-already-exists"),
            DiffDoesNotApplyError::RowDoesNotExist(_, _) => copy_string("row-does-not-exist"),
            DiffDoesNotApplyError::RowPrivilegeChangeDoesNotApply(_, _) => copy_string("row-privilege-change-does-not-apply"),
        }
    }
}

/// The failure to change the privileges of a user on a database.
#[derive(Debug, PartialEq, Eq)]
pub enum ModifyDatabasePrivilegesError {
    DatabaseValidationError(AuthorizationError),
    UserValidationError(AuthorizationError),
    DatabaseDoesNotExist,
    UserDoesNotExist,
    DiffDoesNotApply(DiffDoesNotApplyError),
    MySqlError(String),
}

impl ModifyDatabasePrivilegesError {
    /// The message for this error about the given database and user, for the given unix user.
    pub open spec fn message_view(&self, database_name: MySQLDatabase, username: MySQLUser, user: Option<UnixUser>) -> Seq<char> {
        match self {
            ModifyDatabasePrivilegesError::DatabaseValidationError(e) => authorization_error_text(
                *e,
                DbOrUser::Database(database_name),
                user,
            ),
            ModifyDatabasePrivilegesError::UserValidationError(e) => authorization_error_text(
                *e,
                DbOrUser::User(username),
                user,
            ),
            ModifyDatabasePrivilegesError::DatabaseDoesNotExist => "Database '"@ + database_name@ + "' does not exist."@,
            ModifyDatabasePrivilegesError::UserDoesNotExist => "User '"@ + username@ + "' does not exist."@,
            ModifyDatabasePrivilegesError::DiffDoesNotApply(d) => "Could not apply privilege change:\n"@ + diff_error_text(*d),
            ModifyDatabasePrivilegesError::MySqlError(e) => mysql_error_text(e@),
        }
    }

    /// The message for this error about the given database and user, for the given unix
    /// user (`None` when it could not be looked up).
    pub fn to_error_message(&self, database_name: &MySQLDatabase, username: &MySQLUser, unix_user: Option<&UnixUser>) -> (r: String)
        ensures
            r@ == self.message_view(*database_name, *username, user_opt(unix_user)),
    {
        match self {
            ModifyDatabasePrivilegesError::DatabaseValidationError(e) => e.to_error_message(DbOrUser::Database(database_name.clone()), unix_user),
            ModifyDatabasePrivilegesError::UserValidationError(e) => e.to_error_message(DbOrUser::User(username.clone()), unix_user),
            ModifyDatabasePrivilegesError::DatabaseDoesNotExist => around("Database '", database_name.as_str(), "' does not exist."),
            ModifyDatabasePrivilegesError::UserDoesNotExist => around("User '", username.as_str(), "' does not exist."),
            ModifyDatabasePrivilegesError::DiffDoesNotApply(d) => {
                let mut s = String::from_str("Could not apply privilege change:\n");
                let m = d.to_error_message();
                push_str(&mut s, m.as_str());
                s
            },
            ModifyDatabasePrivilegesError::MySqlError(e) => mysql_error_message(e),
        }
    }

    /// The kind of this error, as a tag.
    pub open spec fn type_view(&self) -> Seq<char> {
        match self {
            ModifyDatabasePrivilegesError::DatabaseValidationError(e) => authorization_error_type(*e) + "/database"@,
            ModifyDatabasePrivilegesError::UserValidationError(e) => authorization_error_type(*e) + "/user"@,
            ModifyDatabasePrivilegesError::DatabaseDoesNotExist => "database-does-not-exist"@,
            ModifyDatabasePrivilegesError::UserDoesNotExist => "user-does-not-exist"@,
            ModifyDatabasePrivilegesError::DiffDoesNotApply(d) => "diff-does-not-apply/"@ + diff_error_type(*d),
            ModifyDatabasePrivilegesError::MySqlError(_) => "mysql-error"@,
        }
    }

    /// The kind of this error, as a tag.
    pub fn error_type(&self) -> (r: String)
        ensures
            r@ == self.type_view(),
    {
        match self {
            ModifyDatabasePrivilegesError::DatabaseValidationError(e) => {
                let mut s = e.error_type();
                push_str(&mut s, "/database");
                s
            },
            ModifyDatabasePrivilegesError::UserValidationError(e) => {
                let mut s = e.error_type();
                push_str(&mut s, "/user");
                s
            },
            ModifyDatabasePrivilegesError::DatabaseDoesNotExist => copy_string("database-does-not-exist"),
            ModifyDatabasePrivilegesError::UserDoesNotExist => copy_string("user-does-not-exist"),
            ModifyDatabasePrivilegesError::DiffDoesNotApply(d) => {
                let mut s = String::from_str("diff-does-not-apply/");
                let t = d.error_type();
                push_str(&mut s, t.as_str());
                s
            },
            ModifyDatabasePrivilegesError::MySqlError(_) => copy_string("mysql-error"),
        }
    }
}

} // verus!
