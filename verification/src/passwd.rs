//! A plain `passwd` record on its own, without positions, membership
//! edges or shadow merging: the older, flat shape of the user codec.
//! Unlike [`crate::user::User`], the password field is kept and
//! written verbatim, so a parsed line always formats back exactly.

pub use crate::user::gecos_fields::Gecos;
pub use crate::user::passwd_fields::Gid;
pub use crate::user::passwd_fields::HomeDir;
pub use crate::user::passwd_fields::ShellPath;
pub use crate::user::passwd_fields::Uid;
pub use crate::user::passwd_fields::Username;

use crate::error::MyMessage;
use crate::error::UserLibError;
use crate::error::is_simple_message;
use crate::numbers::dec_str;
use crate::numbers::dec_val;
use crate::numbers::lemma_dec_roundtrip;
use crate::numbers::u32_to_string;
use crate::text::join_with;
use crate::text::join_strs;
use crate::text::lemma_join_split;
use crate::text::split_on;
use crate::text::split_str;
use crate::user::gecos_fields::gecos_fields_ok;
use crate::user::gecos_fields::gecos_format;
use crate::user::gecos_fields::gecos_matches;
use crate::user::gecos_fields::lemma_gecos_roundtrip;
use crate::user::user_line_canonical;
use crate::user::user_line_ok;
use vstd::prelude::*;

verus! {

/// The password field of a flat record, kept verbatim.
#[derive(Debug)]
pub struct Password {
    pub password: String,
}

impl Password {
    /// Keeps the field verbatim; every value is accepted.
    pub fn try_from(source: String) -> (r: Result<Password, UserLibError>)
        ensures
            r matches Ok(p) && p.password@ == source@,
    {
        Ok(Password { password: source })
    }
}

/// A record (line) of the user database in its flat shape.
#[derive(Debug)]
pub struct Passwd {
    pub username: Username,
    pub password: Password,
    pub uid: Uid,
    pub gid: Gid,
    pub gecos: Gecos,
    pub home_dir: HomeDir,
    pub shell_path: ShellPath,
}

/// How a parsed flat record relates to its source line.
pub open spec fn passwd_matches(p: &Passwd, line: Seq<char>) -> bool {
    let f = split_on(line, ':');
    &&& p.username.username@ == f[0]
    &&& p.password.password@ == f[1]
    &&& p.uid.uid == dec_val(f[2])
    &&& p.gid.gid == dec_val(f[3])
    &&& gecos_matches(&p.gecos, split_on(f[4], ','))
    &&& p.home_dir.dir@ == f[5]
    &&& p.shell_path.shell@ == f[6]
}

/// The colon-joined rendering of a flat record; every field is
/// written back verbatim, the password included.
pub open spec fn passwd_format(p: &Passwd) -> Seq<char> {
    join_with(
        seq![
            p.username.username@,
            p.password.password@,
            dec_str(p.uid.uid as int),
            dec_str(p.gid.gid as int),
            gecos_format(&p.gecos),
            p.home_dir.dir@,
            p.shell_path.shell@,
        ],
        ':',
    )
}

/// Formatting a flat record parsed from a canonical line reproduces
/// the line exactly.
pub proof fn lemma_passwd_roundtrip(p: &Passwd, line: Seq<char>)
    requires
        user_line_ok(line),
        passwd_matches(p, line),
        user_line_canonical(line),
    ensures
        passwd_format(p) == line,
{
    let f = split_on(line, ':');
    lemma_dec_roundtrip(f[2]);
    lemma_dec_roundtrip(f[3]);
    lemma_gecos_roundtrip(&p.gecos, f[4]);
    assert(seq![
        p.username.username@,
        p.password.password@,
        dec_str(p.uid.uid as int),
        dec_str(p.gid.gid as int),
        gecos_format(&p.gecos),
        p.home_dir.dir@,
        p.shell_path.shell@,
    ] =~= f);
    lemma_join_split(line, ':');
}

impl Passwd {
    /// Parses a flat passwd line of seven colon-separated fields.
    /// Succeeds exactly on well-formed lines; a line with the wrong
    /// field count is rejected with `Failed to parse: not enough
    /// elements`.
    pub fn new_from_string(line: &str) -> (r: Result<Passwd, UserLibError>)
        ensures
            user_line_ok(line@) ==> (r matches Ok(p) && passwd_matches(&p, line@)),
            !user_line_ok(line@) ==> r is Err,
            split_on(line@, ':').len() != 7 ==> is_simple_message(
                &r,
                "Failed to parse: not enough elements"@,
            ),
    {
        let elements = split_str(line, ':');
        if elements.len() != 7 {
            return Err(UserLibError::Message(
                MyMessage::Simple("Failed to parse: not enough elements".to_owned()),
            ));
        }
        let username = match Username::try_from(elements[0].clone()) {
            Ok(u) => u,
            Err(e) => {
                return Err(e);
            },
        };
        let password = match Password::try_from(elements[1].clone()) {
            Ok(p) => p,
            Err(e) => {
                return Err(e);
            },
        };
        let uid = match Uid::try_from(elements[2].clone()) {
            Ok(v) => v,
            Err(e) => {
                return Err(e);
            },
        };
        let gid = match Gid::try_from(elements[3].clone()) {
            Ok(v) => v,
            Err(e) => {
                return Err(e);
            },
        };
        let gecos = match Gecos::try_from(elements[4].clone()) {
            Ok(v) => v,
            Err(e) => {
                return Err(e);
            },
        };
        let home_dir = match HomeDir::try_from(elements[5].clone()) {
            Ok(v) => v,
            Err(e) => {
                return Err(e);
            },
        };
        let shell_path = match ShellPath::try_from(elements[6].clone()) {
            Ok(v) => v,
            Err(e) => {
                return Err(e);
            },
        };
        Ok(Passwd { username, password, uid, gid, gecos, home_dir, shell_path })
    }

    /// The colon-joined rendering of this record.
    pub fn to_line(&self) -> (r: String)
        ensures
            r@ == passwd_format(self),
    {
        let mut parts: Vec<String> = Vec::new();
        parts.push(self.username.username.clone());
        parts.push(self.password.password.clone());
        parts.push(u32_to_string(self.uid.uid));
        parts.push(u32_to_string(self.gid.gid));
        parts.push(self.gecos.to_line());
        parts.push(self.home_dir.dir.clone());
        parts.push(self.shell_path.shell.clone());
        proof {
            assert(parts.deep_view() =~= seq![
                self.username.username@,
                self.password.password@,
                dec_str(self.uid.uid as int),
                dec_str(self.gid.gid as int),
                gecos_format(&self.gecos),
                self.home_dir.dir@,
                self.shell_path.shell@,
            ]);
            reveal_strlit(":");
        }
        join_strs(&parts, ":")
    }

    /// The username.
    pub fn get_username(&self) -> (r: &str)
        ensures
            r@ == self.username.username@,
    {
        self.username.value()
    }

    /// The password field, verbatim.
    pub fn get_password(&self) -> (r: &str)
        ensures
            r@ == self.password.password@,
    {
        self.password.password.as_str()
    }

    /// The uid.
    pub fn get_uid(&self) -> (r: u32)
        ensures
            r == self.uid.uid,
    {
        self.uid.uid
    }

    /// The gid.
    pub fn get_gid(&self) -> (r: u32)
        ensures
            r == self.gid.gid,
    {
        self.gid.gid
    }

    /// The gecos field.
    pub fn get_comment(&self) -> (r: &Gecos)
        ensures
            r == &self.gecos,
    {
        &self.gecos
    }

    /// The home directory.
    pub fn get_home_dir(&self) -> (r: &str)
        ensures
            r@ == self.home_dir.dir@,
    {
        self.home_dir.dir.as_str()
    }

    /// The shell path.
    pub fn get_shell_path(&self) -> (r: &str)
        ensures
            r@ == self.shell_path.shell@,
    {
        self.shell_path.shell.as_str()
    }
}

impl Default for Passwd {
    /// The flat record every creation starts from.
    fn default() -> (r: Self)
        ensures
            r.username.username@ == "defaultuser"@,
            r.password.password@ == "notencrypted"@,
            r.uid.uid == 1001,
            r.gid.gid == 1001,
            (r.gecos matches Gecos::Simple { comment } && comment@ == "gecos default comment"@),
            r.home_dir.dir@ == "/home/default"@,
            r.shell_path.shell@ == "/bin/bash"@,
    {
        Passwd {
            username: Username { username: "defaultuser".to_owned() },
            password: Password { password: "notencrypted".to_owned() },
            uid: Uid { uid: 1001 },
            gid: Gid { gid: 1001 },
            gecos: Gecos::Simple { comment: "gecos default comment".to_owned() },
            home_dir: HomeDir { dir: "/home/default".to_owned() },
            shell_path: ShellPath { shell: "/bin/bash".to_owned() },
        }
    }
}

} // verus!
