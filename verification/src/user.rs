//! A record of the user database: one `passwd` line, the optional
//! shadow entry merged into its password field, and the membership
//! edges derived at load time.

pub mod gecos_fields;
pub mod passwd_fields;
pub mod shadow_fields;

use crate::error::MyMessage;
use crate::error::UserLibError;
use crate::error::is_simple_message;
use crate::group::MembershipKind;
use crate::numbers::canonical_dec;
use crate::numbers::dec_str;
use crate::numbers::dec_val;
use crate::numbers::lemma_dec_roundtrip;
use crate::numbers::u32_field_ok;
use crate::numbers::u32_to_string;
use crate::text::join_with;
use crate::text::join_strs;
use crate::text::lemma_join_split;
use crate::text::remove_line;
use crate::text::remove_line_spec;
use crate::text::split_on;
use crate::text::split_str;
use gecos_fields::Gecos;
use gecos_fields::gecos_fields_ok;
use gecos_fields::gecos_format;
use gecos_fields::gecos_matches;
use gecos_fields::lemma_gecos_roundtrip;
use passwd_fields::EncryptedPassword;
use passwd_fields::Gid;
use passwd_fields::HomeDir;
use passwd_fields::Password;
use passwd_fields::ShellPath;
use passwd_fields::Uid;
use passwd_fields::Username;
use passwd_fields::username_ok;
use shadow_fields::Shadow;
use vstd::prelude::*;

verus! {

/// A record (line) of the user database `/etc/passwd`.
#[derive(Debug)]
pub struct User {
    pub source: String,
    pub pos: u32,
    pub username: Username,
    pub password: Password,
    pub uid: Uid,
    pub gid: Gid,
    pub gecos: Gecos,
    pub home_dir: HomeDir,
    pub shell_path: ShellPath,
    pub groups: Vec<(MembershipKind, u32)>,
}

/// A well-formed passwd line: seven fields, an accepted username,
/// decimal uid and gid, and a gecos field of an accepted shape.
pub open spec fn user_line_ok(line: Seq<char>) -> bool {
    let f = split_on(line, ':');
    &&& f.len() == 7
    &&& username_ok(f[0])
    &&& u32_field_ok(f[2])
    &&& u32_field_ok(f[3])
    &&& gecos_fields_ok(split_on(f[4], ','))
}

/// How a freshly parsed user relates to its source line: every field
/// comes from the corresponding colon-separated part, the password is
/// kept verbatim, and no membership edges exist yet.
pub open spec fn user_matches(u: &User, line: Seq<char>, pos: u32) -> bool {
    let f = split_on(line, ':');
    &&& u.source@ == line
    &&& u.pos == pos
    &&& u.username.username@ == f[0]
    &&& (u.password matches Password::Encrypted(p) && p.password@ == f[1])
    &&& u.uid.uid == dec_val(f[2])
    &&& u.gid.gid == dec_val(f[3])
    &&& gecos_matches(&u.gecos, split_on(f[4], ','))
    &&& u.home_dir.dir@ == f[5]
    &&& u.shell_path.shell@ == f[6]
    &&& u.groups@.len() == 0
}

/// The rendering of a password field: a record-held hash verbatim,
/// `x` when the hash lives in the shadow database or is disabled.
pub open spec fn password_format(p: &Password) -> Seq<char> {
    match p {
        Password::Encrypted(e) => e.password@,
        Password::Shadow(_) => "x"@,
        Password::Disabled => "x"@,
    }
}

/// The colon-joined rendering of a user record.
pub open spec fn user_format(u: &User) -> Seq<char> {
    join_with(
        seq![
            u.username.username@,
            password_format(&u.password),
            dec_str(u.uid.uid as int),
            dec_str(u.gid.gid as int),
            gecos_format(&u.gecos),
            u.home_dir.dir@,
            u.shell_path.shell@,
        ],
        ':',
    )
}

/// A passwd line whose uid and gid carry no leading zeros, i.e. one
/// the formatter itself could have written.
pub open spec fn user_line_canonical(line: Seq<char>) -> bool {
    let f = split_on(line, ':');
    canonical_dec(f[2]) && canonical_dec(f[3])
}

/// Formatting a user parsed from a canonical line reproduces the line.
pub proof fn lemma_user_roundtrip(u: &User, line: Seq<char>, pos: u32)
    requires
        user_line_ok(line),
        user_matches(u, line, pos),
        user_line_canonical(line),
    ensures
        user_format(u) == line,
{
    let f = split_on(line, ':');
    lemma_dec_roundtrip(f[2]);
    lemma_dec_roundtrip(f[3]);
    lemma_gecos_roundtrip(&u.gecos, f[4]);
    assert(seq![
        u.username.username@,
        password_format(&u.password),
        dec_str(u.uid.uid as int),
        dec_str(u.gid.gid as int),
        gecos_format(&u.gecos),
        u.home_dir.dir@,
        u.shell_path.shell@,
    ] =~= f);
    lemma_join_split(line, ':');
}

impl User {
    /// Parses a passwd line of seven colon-separated fields.
    /// Succeeds exactly on well-formed lines; a malformed line is
    /// rejected with a message naming the failing field.
    pub fn new_from_string(line: String, position: u32) -> (r: Result<User, UserLibError>)
        ensures
            user_line_ok(line@) ==> (r matches Ok(u) && user_matches(&u, line@, position)),
            !user_line_ok(line@) ==> r is Err,
            ({
                let f = split_on(line@, ':');
                &&& (f.len() != 7 ==> is_simple_message(
                    &r,
                    "Failed to parse: not enough elements"@,
                ))
                &&& (f.len() == 7 && !username_ok(f[0]) ==> is_simple_message(
                    &r,
                    "Invalid username "@ + f[0],
                ))
                &&& (f.len() == 7 && username_ok(f[0]) && !u32_field_ok(f[2])
                    ==> is_simple_message(&r, "Invalid uid "@ + f[2]))
                &&& (f.len() == 7 && username_ok(f[0]) && u32_field_ok(f[2]) && !u32_field_ok(
                    f[3],
                ) ==> is_simple_message(&r, "Invalid gid "@ + f[3]))
                &&& (f.len() == 7 && username_ok(f[0]) && u32_field_ok(f[2]) && u32_field_ok(f[3])
                    && !gecos_fields_ok(split_on(f[4], ',')) ==> is_simple_message(
                    &r,
                    "Could not parse this string: "@ + f[4],
                ))
            }),
    {
        let elements = split_str(line.as_str(), ':');
        if elements.len() != 7 {
            return Err(UserLibError::Message(
                MyMessage::Simple("Failed to parse: not enough elements".to_owned()),
            ));
        }
        let username = match Username::try_from(elements[0].clone()) {
            Ok(u) => u,
            Err(e) => {
                return Err(e);
            },
        };
        let password = match EncryptedPassword::try_from(elements[1].clone()) {
            Ok(p) => Password::Encrypted(p),
            Err(e) => {
                return Err(e);
            },
        };
        let uid = match Uid::try_from(elements[2].clone()) {
            Ok(v) => v,
            Err(e) => {
                return Err(e);
            },
        };
        let gid = match Gid::try_from(elements[3].clone()) {
            Ok(v) => v,
            Err(e) => {
                return Err(e);
            },
        };
        let gecos = match Gecos::try_from(elements[4].clone()) {
            Ok(v) => v,
            Err(e) => {
                return Err(e);
            },
        };
        let home_dir = match HomeDir::try_from(elements[5].clone()) {
            Ok(v) => v,
            Err(e) => {
                return Err(e);
            },
        };
        let shell_path = match ShellPath::try_from(elements[6].clone()) {
            Ok(v) => v,
            Err(e) => {
                return Err(e);
            },
        };
        Ok(
            User {
                source: line,
                pos: position,
                username,
                password,
                uid,
                gid,
                gecos,
                home_dir,
                shell_path,
                groups: Vec::new(),
            },
        )
    }

    /// The colon-joined rendering of this record.
    pub fn to_line(&self) -> (r: String)
        ensures
            r@ == user_format(self),
    {
        let mut parts: Vec<String> = Vec::new();
        parts.push(self.username.username.clone());
        let pw: String = match &self.password {
            Password::Encrypted(e) => e.password.clone(),
            Password::Shadow(_) => "x".to_owned(),
            Password::Disabled => "x".to_owned(),
        };
        parts.push(pw);
        parts.push(u32_to_string(self.uid.uid));
        parts.push(u32_to_string(self.gid.gid));
        parts.push(self.gecos.to_line());
        parts.push(self.home_dir.dir.clone());
        parts.push(self.shell_path.shell.clone());
        proof {
            assert(parts.deep_view() =~= seq![
                self.username.username@,
                password_format(&self.password),
                dec_str(self.uid.uid as int),
                dec_str(self.gid.gid as int),
                gecos_format(&self.gecos),
                self.home_dir.dir@,
                self.shell_path.shell@,
            ]);
            reveal_strlit(":");
        }
        join_strs(&parts, ":")
    }

    /// The shadow entry merged into this user, if one was.
    pub fn get_shadow(&self) -> (r: Option<&Shadow>)
        ensures
            match &self.password {
                Password::Shadow(s) => r matches Some(v) && v == s,
                _ => r is None,
            },
    {
        match &self.password {
            Password::Encrypted(_) => None,
            Password::Disabled => None,
            Password::Shadow(s) => Some(s),
        }
    }

    /// The text `content` with this record's source line spliced out.
    pub fn remove_in(&self, content: &str) -> (r: String)
        ensures
            r@ == remove_line_spec(content@, self.source@),
    {
        remove_line(content, self.source.as_str())
    }

    /// Replaces the username.
    pub fn username(&mut self, name: String)
        ensures
            final(self).username.username@ == name@,
            final(self).source == old(self).source,
            final(self).pos == old(self).pos,
            final(self).password == old(self).password,
            final(self).uid == old(self).uid,
            final(self).gid == old(self).gid,
            final(self).gecos == old(self).gecos,
            final(self).home_dir == old(self).home_dir,
            final(self).shell_path == old(self).shell_path,
            final(self).groups == old(self).groups,
    {
        self.username = Username { username: name };
    }

    /// Disables the password.
    pub fn disable_password(&mut self)
        ensures
            final(self).password is Disabled,
            final(self).source == old(self).source,
            final(self).pos == old(self).pos,
            final(self).username == old(self).username,
            final(self).uid == old(self).uid,
            final(self).gid == old(self).gid,
            final(self).gecos == old(self).gecos,
            final(self).home_dir == old(self).home_dir,
            final(self).shell_path == old(self).shell_path,
            final(self).groups == old(self).groups,
    {
        self.password = Password::Disabled;
    }

    /// Replaces the uid.
    pub fn uid(&mut self, uid: u32)
        ensures
            final(self).uid.uid == uid,
            final(self).username == old(self).username,
            final(self).gid == old(self).gid,
            final(self).groups == old(self).groups,
    {
        self.uid = Uid { uid };
    }

    /// Replaces the gid.
    pub fn gid(&mut self, gid: u32)
        ensures
            final(self).gid.gid == gid,
            final(self).username == old(self).username,
            final(self).uid == old(self).uid,
            final(self).groups == old(self).groups,
    {
        self.gid = Gid { gid };
    }

    /// Replaces the home directory.
    pub fn home_dir(&mut self, path: String)
        ensures
            final(self).home_dir.dir@ == path@,
            final(self).username == old(self).username,
    {
        self.home_dir = HomeDir { dir: path };
    }

    /// Replaces the shell path.
    pub fn shell_path(&mut self, path: String)
        ensures
            final(self).shell_path.shell@ == path@,
            final(self).username == old(self).username,
    {
        self.shell_path = ShellPath { shell: path };
    }

    /// The username.
    pub fn get_username(&self) -> (r: Option<&str>)
        ensures
            r matches Some(n) && n@ == self.username.username@,
    {
        Some(self.username.value())
    }

    /// The password hash, wherever it is kept; `None` when disabled.
    pub fn get_password(&self) -> (r: Option<&str>)
        ensures
            match &self.password {
                Password::Encrypted(p) => r matches Some(v) && v@ == p.password@,
                Password::Shadow(s) => r matches Some(v) && v@ == s.password.password@,
                Password::Disabled => r is None,
            },
    {
        match &self.password {
            Password::Encrypted(p) => Some(p.value()),
            Password::Shadow(s) => Some(s.get_password()),
            Password::Disabled => None,
        }
    }

    /// The uid.
    pub fn get_uid(&self) -> (r: u32)
        ensures
            r == self.uid.uid,
    {
        self.uid.uid
    }

    /// The gid.
    pub fn get_gid(&self) -> (r: u32)
        ensures
            r == self.gid.gid,
    {
        self.gid.gid
    }

    /// The gecos field.
    pub fn get_gecos(&self) -> (r: Option<&Gecos>)
        ensures
            r matches Some(g) && g == &self.gecos,
    {
        Some(&self.gecos)
    }

    /// The home directory.
    pub fn get_home_dir(&self) -> (r: Option<&str>)
        ensures
            r matches Some(d) && d@ == self.home_dir.dir@,
    {
        Some(self.home_dir.dir.as_str())
    }

    /// The shell path.
    pub fn get_shell_path(&self) -> (r: Option<&str>)
        ensures
            r matches Some(p) && p@ == self.shell_path.shell@,
    {
        Some(self.shell_path.shell.as_str())
    }

    /// The full name from the gecos field, when present.
    pub fn get_full_name(&self) -> (r: Option<&str>)
        ensures
            match &self.gecos {
                Gecos::Simple { .. } => r is None,
                Gecos::Detail { full_name, .. } => if full_name@.len() == 0 {
                    r is None
                } else {
                    r matches Some(v) && v@ == full_name@
                },
            },
    {
        self.gecos.get_full_name()
    }

    /// The room from the gecos field, when present.
    pub fn get_room(&self) -> (r: Option<&str>)
        ensures
            match &self.gecos {
                Gecos::Simple { .. } => r is None,
                Gecos::Detail { room, .. } => if room@.len() == 0 {
                    r is None
                } else {
                    r matches Some(v) && v@ == room@
                },
            },
    {
        self.gecos.get_room()
    }

    /// The work phone from the gecos field, when present.
    pub fn get_phone_work(&self) -> (r: Option<&str>)
        ensures
            match &self.gecos {
                Gecos::Simple { .. } => r is None,
                Gecos::Detail { phone_work, .. } => if phone_work@.len() == 0 {
                    r is None
                } else {
                    r matches Some(v) && v@ == phone_work@
                },
            },
    {
        self.gecos.get_phone_work()
    }

    /// The home phone from the gecos field, when present.
    pub fn get_phone_home(&self) -> (r: Option<&str>)
        ensures
            match &self.gecos {
                Gecos::Simple { .. } => r is None,
                Gecos::Detail { phone_home, .. } => if phone_home@.len() == 0 {
                    r is None
                } else {
                    r matches Some(v) && v@ == phone_home@
                },
            },
    {
        self.gecos.get_phone_home()
    }

    /// The extra gecos values, when present.
    pub fn get_other(&self) -> (r: Option<&Vec<String>>)
        ensures
            match &self.gecos {
                Gecos::Simple { .. } => r is None,
                Gecos::Detail { other, .. } => match other {
                    None => r is None,
                    Some(o) => r matches Some(v) && v == o,
                },
            },
    {
        self.gecos.get_other()
    }

    /// The membership edges of this user, in the order they were
    /// derived at load time: explicit memberships first, then the
    /// primary edge.
    pub fn get_groups(&self) -> (r: &Vec<(MembershipKind, u32)>)
        ensures
            r == &self.groups,
    {
        &self.groups
    }

    /// Records one more membership edge.
    pub fn add_group(&mut self, kind: MembershipKind, gid: u32)
        ensures
            final(self).groups@ == old(self).groups@.push((kind, gid)),
            final(self).source == old(self).source,
            final(self).pos == old(self).pos,
            final(self).username == old(self).username,
            final(self).password == old(self).password,
            final(self).uid == old(self).uid,
            final(self).gid == old(self).gid,
            final(self).gecos == old(self).gecos,
            final(self).home_dir == old(self).home_dir,
            final(self).shell_path == old(self).shell_path,
    {
        self.groups.push((kind, gid));
    }
}

impl Default for User {
    /// The account every creation starts from: a disabled password,
    /// uid and gid 1001, the root directory as home, and no shell.
    fn default() -> (r: Self)
        ensures
            r.source@ == Seq::<char>::empty(),
            r.pos == u32::MAX,
            r.username.username@ == "defaultusername"@,
            r.password is Disabled,
            r.uid.uid == 1001,
            r.gid.gid == 1001,
            (r.gecos matches Gecos::Simple { comment } && comment@ == Seq::<char>::empty()),
            r.home_dir.dir@ == "/"@,
            r.shell_path.shell@ == "/bin/nologin"@,
            r.groups@.len() == 0,
    {
        proof {
            reveal_strlit("");
            reveal_strlit("defaultusername");
            reveal_strlit("/");
            reveal_strlit("/bin/nologin");
            assert(""@ =~= Seq::<char>::empty());
        }
        User {
            source: "".to_owned(),
            pos: u32::MAX,
            username: Username { username: "defaultusername".to_owned() },
            password: Password::Disabled,
            uid: Uid { uid: 1001 },
            gid: Gid { gid: 1001 },
            gecos: Gecos::Simple { comment: "".to_owned() },
            home_dir: HomeDir { dir: "/".to_owned() },
            shell_path: ShellPath { shell: "/bin/nologin".to_owned() },
            groups: Vec::new(),
        }
    }
}


impl crate::api::UserRead for User {
    fn get_username(&self) -> Option<&str> {
        User::get_username(self)
    }

    fn get_uid(&self) -> u32 {
        User::get_uid(self)
    }

    fn get_gid(&self) -> u32 {
        User::get_gid(self)
    }

    fn get_password(&self) -> Option<&str> {
        User::get_password(self)
    }

    fn get_gecos(&self) -> Option<&Gecos> {
        User::get_gecos(self)
    }

    fn get_home_dir(&self) -> Option<&str> {
        User::get_home_dir(self)
    }

    fn get_shell_path(&self) -> Option<&str> {
        User::get_shell_path(self)
    }

    fn get_full_name(&self) -> Option<&str> {
        User::get_full_name(self)
    }

    fn get_room(&self) -> Option<&str> {
        User::get_room(self)
    }

    fn get_phone_work(&self) -> Option<&str> {
        User::get_phone_work(self)
    }

    fn get_phone_home(&self) -> Option<&str> {
        User::get_phone_home(self)
    }

    fn get_other(&self) -> Option<&Vec<String>> {
        User::get_other(self)
    }
}


impl crate::api::UserWrite for User {
    fn set_username(&mut self, username: String) {
        User::username(self, username);
    }

    fn set_uid(&mut self, uid: u32) {
        User::uid(self, uid);
    }

    fn set_gid(&mut self, gid: u32) {
        User::gid(self, gid);
    }

    fn set_home_dir(&mut self, home_dir: String) {
        User::home_dir(self, home_dir);
    }

    fn set_shell_path(&mut self, shell_path: String) {
        User::shell_path(self, shell_path);
    }
}

} // verus!
