//! The error taxonomy of the library.  Every public operation returns
//! a `Result` whose error distinguishes lookup misses, malformed
//! records, stale snapshots, missing backing files, and free-form
//! messages with an optional I/O cause kept for diagnostics.

use crate::text::str_eq;
use vstd::prelude::*;

verus! {

/// The record field at which parsing failed.
#[derive(Debug, PartialEq, Eq, Structural, Clone, Copy)]
pub enum ParseError {
    Username,
    Password,
    Uid,
    Gid,
    Gecos,
    HomeDir,
    ShellDir,
}

/// A free-form diagnostic, either a plain message or a message with
/// the text of the underlying I/O error kept beside it.
#[derive(Debug)]
pub enum MyMessage {
    Simple(String),
    IOError(String, String),
}

/// The error type of every fallible operation of the library.
#[derive(Debug)]
pub enum UserLibError {
    NotFound,
    ParseError,
    FilesChanged,
    FilesRequired,
    Message(MyMessage),
}

/// What equality of two diagnostics means: same shape, same texts.
pub open spec fn my_message_eq_spec(a: &MyMessage, b: &MyMessage) -> bool {
    match (a, b) {
        (MyMessage::Simple(x), MyMessage::Simple(y)) => x@ == y@,
        (MyMessage::IOError(x1, x2), MyMessage::IOError(y1, y2)) => x1@ == y1@ && x2@ == y2@,
        _ => false,
    }
}

/// What equality of two errors means: same variant, equal diagnostics.
pub open spec fn user_lib_error_eq_spec(a: &UserLibError, b: &UserLibError) -> bool {
    match (a, b) {
        (UserLibError::NotFound, UserLibError::NotFound) => true,
        (UserLibError::ParseError, UserLibError::ParseError) => true,
        (UserLibError::FilesChanged, UserLibError::FilesChanged) => true,
        (UserLibError::FilesRequired, UserLibError::FilesRequired) => true,
        (UserLibError::Message(x), UserLibError::Message(y)) => my_message_eq_spec(x, y),
        _ => false,
    }
}

/// Whether `e` is exactly the plain message `text`.
pub open spec fn is_simple_error(e: &UserLibError, text: Seq<char>) -> bool {
    match e {
        UserLibError::Message(MyMessage::Simple(s)) => s@ == text,
        _ => false,
    }
}

/// Whether `r` failed with exactly the plain message `text`.
pub open spec fn is_simple_message<T>(r: &Result<T, UserLibError>, text: Seq<char>) -> bool {
    match r {
        Err(UserLibError::Message(MyMessage::Simple(s))) => s@ == text,
        _ => false,
    }
}

impl PartialEq for MyMessage {
    fn eq(&self, other: &MyMessage) -> (r: bool) {
        match (self, other) {
            (MyMessage::Simple(x), MyMessage::Simple(y)) => str_eq(x.as_str(), y.as_str()),
            (MyMessage::IOError(x1, x2), MyMessage::IOError(y1, y2)) => str_eq(
                x1.as_str(),
                y1.as_str(),
            ) && str_eq(x2.as_str(), y2.as_str()),
            _ => false,
        }
    }
}

impl vstd::std_specs::cmp::PartialEqSpecImpl for MyMessage {
    open spec fn obeys_eq_spec() -> bool {
        true
    }

    open spec fn eq_spec(&self, other: &MyMessage) -> bool {
        my_message_eq_spec(self, other)
    }
}

impl PartialEq for UserLibError {
    fn eq(&self, other: &UserLibError) -> (r: bool) {
        match (self, other) {
            (UserLibError::NotFound, UserLibError::NotFound) => true,
            (UserLibError::ParseError, UserLibError::ParseError) => true,
            (UserLibError::FilesChanged, UserLibError::FilesChanged) => true,
            (UserLibError::FilesRequired, UserLibError::FilesRequired) => true,
            (UserLibError::Message(x), UserLibError::Message(y)) => x.eq(y),
            _ => false,
        }
    }
}

impl vstd::std_specs::cmp::PartialEqSpecImpl for UserLibError {
    open spec fn obeys_eq_spec() -> bool {
        true
    }

    open spec fn eq_spec(&self, other: &UserLibError) -> bool {
        user_lib_error_eq_spec(self, other)
    }
}

impl MyMessage {
    /// The rendered diagnostic; an I/O-carrying message keeps the
    /// cause after a comma, as in `context,cause`.
    pub open spec fn message_spec(&self) -> Seq<char> {
        match self {
            MyMessage::Simple(m) => m@,
            MyMessage::IOError(m, e) => m@ + ","@ + e@,
        }
    }

    /// The diagnostic as a plain string.
    pub fn message(&self) -> (r: String)
        ensures
            r@ == self.message_spec(),
    {
        match self {
            MyMessage::Simple(m) => m.clone(),
            MyMessage::IOError(m, e) => {
                let mut r = m.clone();
                r.append(",");
                r.append(e.as_str());
                r
            },
        }
    }
}

impl UserLibError {
    /// The rendered error text.
    pub open spec fn message_spec(&self) -> Seq<char> {
        match self {
            UserLibError::NotFound => "not found"@,
            UserLibError::ParseError => "failed to parse"@,
            UserLibError::FilesChanged => "The files changed. Updating could lead to conflict aborting."@,
            UserLibError::FilesRequired => "File locking is only possible if some files are specified"@,
            UserLibError::Message(m) => m.message_spec(),
        }
    }

    /// The error as a plain string.
    pub fn message(&self) -> (r: String)
        ensures
            r@ == self.message_spec(),
    {
        match self {
            UserLibError::NotFound => "not found".to_owned(),
            UserLibError::ParseError => "failed to parse".to_owned(),
            UserLibError::FilesChanged => {
                "The files changed. Updating could lead to conflict aborting.".to_owned()
            },
            UserLibError::FilesRequired => {
                "File locking is only possible if some files are specified".to_owned()
            },
            UserLibError::Message(m) => m.message(),
        }
    }

    /// Wraps a plain message.
    pub fn from(err: &str) -> (r: UserLibError)
        ensures
            (r matches UserLibError::Message(m) && m matches MyMessage::Simple(s) && s@ == err@),
    {
        UserLibError::Message(MyMessage::Simple(err.to_owned()))
    }

    /// Wraps an owned message.
    pub fn from_string(err: String) -> (r: UserLibError)
        ensures
            (r matches UserLibError::Message(m) && m matches MyMessage::Simple(s) && s@ == err@),
    {
        UserLibError::Message(MyMessage::Simple(err))
    }

    /// Wraps a message together with the text of its I/O cause.
    pub fn from_io(context: String, cause: String) -> (r: UserLibError)
        ensures
            (r matches UserLibError::Message(m) && m matches MyMessage::IOError(c, e) && c@
                == context@ && e@ == cause@),
    {
        UserLibError::Message(MyMessage::IOError(context, cause))
    }
}

} // verus!
