//! The typed fields of a `passwd` record: username, password, uid,
//! gid, home directory and shell.  Username validation follows the
//! classic pattern `^[a-z_]([a-z0-9_-]{0,31}|[a-z0-9_-]{0,30}\$)$`,
//! stated here as a spec predicate, with the documented legacy
//! exception `Debian-exim` accepted despite violating it.

use crate::error::MyMessage;
use crate::error::UserLibError;
use crate::numbers::all_digits;
use crate::numbers::dec_val;
use crate::numbers::parse_u32;
use vstd::prelude::*;

verus! {

/// A character the pattern accepts at the start of a name.
pub open spec fn is_name_start(c: char) -> bool {
    ('a' <= c && c <= 'z') || c == '_'
}

/// A character the pattern accepts inside a name.
pub open spec fn is_name_body(c: char) -> bool {
    ('a' <= c && c <= 'z') || ('0' <= c && c <= '9') || c == '_' || c == '-'
}

/// The username pattern: a lowercase letter or underscore, then up to
/// 31 body characters, the last of which may instead be a dollar sign.
pub open spec fn is_username_valid_spec(s: Seq<char>) -> bool {
    &&& 1 <= s.len() <= 32
    &&& is_name_start(s[0])
    &&& if s.len() >= 2 && s[s.len() - 1] == '$' {
        forall|i: int| 1 <= i < s.len() - 1 ==> is_name_body(#[trigger] s[i])
    } else {
        forall|i: int| 1 <= i < s.len() ==> is_name_body(#[trigger] s[i])
    }
}

/// A name the library accepts: valid per the pattern, or the
/// documented legacy exception.
pub open spec fn username_ok(s: Seq<char>) -> bool {
    is_username_valid_spec(s) || s == "Debian-exim"@
}

fn is_name_start_char(c: char) -> (r: bool)
    ensures
        r == is_name_start(c),
{
    ('a' <= c && c <= 'z') || c == '_'
}

fn is_name_body_char(c: char) -> (r: bool)
    ensures
        r == is_name_body(c),
{
    ('a' <= c && c <= 'z') || ('0' <= c && c <= '9') || c == '_' || c == '-'
}

/// Whether `name` matches the username pattern.
pub fn is_username_valid(name: &str) -> (r: bool)
    ensures
        r == is_username_valid_spec(name@),
{
    let len = name.unicode_len();
    if len < 1 || len > 32 {
        return false;
    }
    if !is_name_start_char(name.get_char(0)) {
        return false;
    }
    let end: usize = if len >= 2 && name.get_char(len - 1) == '$' {
        len - 1
    } else {
        len
    };
    let mut i: usize = 1;
    while i < end
        invariant
            1 <= i <= end <= len,
            len == name@.len(),
            end == if len >= 2 && name@[len - 1] == '$' {
                len - 1
            } else {
                len as int
            },
            forall|j: int| 1 <= j < i ==> is_name_body(#[trigger] name@[j]),
        decreases end - i,
    {
        if !is_name_body_char(name.get_char(i)) {
            return false;
        }
        i += 1;
    }
    true
}

/// The username of an account record.  Constructed only through
/// `try_from`, so a held value is always accepted by `username_ok`.
#[derive(Debug, PartialEq, Eq)]
pub struct Username {
    pub username: String,
}

impl Clone for Username {
    fn clone(&self) -> (r: Self)
        ensures
            r == *self,
    {
        Username { username: self.username.clone() }
    }
}

impl Username {
    /// The name itself.
    pub fn value(&self) -> (r: &str)
        ensures
            r@ == self.username@,
    {
        self.username.as_str()
    }

    /// Accepts the name if it matches the pattern or is the legacy
    /// exception; rejects it with `Invalid username <name>` otherwise.
    pub fn try_from(source: String) -> (r: Result<Username, UserLibError>)
        ensures
            username_ok(source@) ==> (r matches Ok(u) && u.username@ == source@),
            !username_ok(source@) ==> (r matches Err(e) && e matches UserLibError::Message(m)
                && m matches MyMessage::Simple(s) && s@ == "Invalid username "@ + source@),
    {
        proof {
            reveal_strlit("Debian-exim");
        }
        if is_username_valid(source.as_str()) {
            Ok(Username { username: source })
        } else if crate::text::str_eq(source.as_str(), "Debian-exim") {
            Ok(Username { username: source })
        } else {
            Err(UserLibError::Message(
                MyMessage::Simple("Invalid username ".to_owned().concat(source.as_str())),
            ))
        }
    }
}

/// An already-hashed passphrase kept verbatim from the record.
#[derive(Debug, Clone)]
pub struct EncryptedPassword {
    pub password: String,
}

impl EncryptedPassword {
    /// Keeps the field verbatim; every value is accepted.
    pub fn try_from(source: String) -> (r: Result<EncryptedPassword, UserLibError>)
        ensures
            r matches Ok(p) && p.password@ == source@,
    {
        Ok(EncryptedPassword { password: source })
    }

    /// The hash itself.
    pub fn value(&self) -> (r: &str)
        ensures
            r@ == self.password@,
    {
        self.password.as_str()
    }
}

/// How an account's password is kept: hashed in the record itself,
/// moved to the shadow database, or disabled.
#[derive(Debug)]
pub enum Password {
    Encrypted(EncryptedPassword),
    Shadow(crate::user::shadow_fields::Shadow),
    Disabled,
}

/// A user id.
#[derive(Debug, Clone, Copy)]
pub struct Uid {
    pub uid: u32,
}

impl Uid {
    /// Reads a decimal uid; rejects anything else.
    pub fn try_from(source: String) -> (r: Result<Uid, UserLibError>)
        ensures
            all_digits(source@) && source@.len() >= 1 && dec_val(source@) <= u32::MAX ==> (
            r matches Ok(u) && u.uid == dec_val(source@)),
            !(all_digits(source@) && source@.len() >= 1 && dec_val(source@) <= u32::MAX) ==> (
            r matches Err(e) && e matches UserLibError::Message(m) && m matches MyMessage::Simple(s)
                && s@ == "Invalid uid "@ + source@),
    {
        match parse_u32(source.as_str()) {
            Some(n) => Ok(Uid { uid: n }),
            None => Err(UserLibError::Message(
                MyMessage::Simple("Invalid uid ".to_owned().concat(source.as_str())),
            )),
        }
    }

    /// System accounts are those below 1000.
    pub fn is_system_uid(&self) -> (r: bool)
        ensures
            r == (self.uid < 1000),
    {
        self.uid < 1000
    }

    /// The id itself.
    pub fn get_uid(&self) -> (r: u32)
        ensures
            r == self.uid,
    {
        self.uid
    }
}

/// A group id.
#[derive(Debug, Clone, Copy)]
pub struct Gid {
    pub gid: u32,
}

impl Gid {
    /// Reads a decimal gid; rejects anything else.
    pub fn try_from(source: String) -> (r: Result<Gid, UserLibError>)
        ensures
            all_digits(source@) && source@.len() >= 1 && dec_val(source@) <= u32::MAX ==> (
            r matches Ok(g) && g.gid == dec_val(source@)),
            !(all_digits(source@) && source@.len() >= 1 && dec_val(source@) <= u32::MAX) ==> (
            r matches Err(e) && e matches UserLibError::Message(m) && m matches MyMessage::Simple(s)
                && s@ == "Invalid gid "@ + source@),
    {
        match parse_u32(source.as_str()) {
            Some(n) => Ok(Gid { gid: n }),
            None => Err(UserLibError::Message(
                MyMessage::Simple("Invalid gid ".to_owned().concat(source.as_str())),
            )),
        }
    }

    /// System groups are those below 1000.
    pub fn is_system_gid(&self) -> (r: bool)
        ensures
            r == (self.gid < 1000),
    {
        self.gid < 1000
    }

    /// The id itself.
    pub fn get_gid(&self) -> (r: u32)
        ensures
            r == self.gid,
    {
        self.gid
    }
}

/// The home directory of a user.
#[derive(Debug, Clone)]
pub struct HomeDir {
    pub dir: String,
}

impl HomeDir {
    /// Keeps the field verbatim; every value is accepted.
    pub fn try_from(source: String) -> (r: Result<HomeDir, UserLibError>)
        ensures
            r matches Ok(h) && h.dir@ == source@,
    {
        Ok(HomeDir { dir: source })
    }
}

/// The path to the shell binary of a user.
#[derive(Debug, Clone)]
pub struct ShellPath {
    pub shell: String,
}

impl ShellPath {
    /// Keeps the field verbatim; every value is accepted.
    pub fn try_from(source: String) -> (r: Result<ShellPath, UserLibError>)
        ensures
            r matches Ok(p) && p.shell@ == source@,
    {
        Ok(ShellPath { shell: source })
    }
}

} // verus!
