//! A record of the group database: name, placeholder password, gid,
//! and the member list.  The stored member list holds exactly what the
//! group file lists; members whose account merely has this group as
//! its primary group are kept apart, since they are derived at load
//! time and never persisted.

use crate::error::MyMessage;
use crate::error::UserLibError;
use crate::error::is_simple_message;
use crate::numbers::canonical_dec;
use crate::numbers::dec_str;
use crate::numbers::dec_val;
use crate::numbers::lemma_dec_roundtrip;
use crate::numbers::u32_field_ok;
use crate::numbers::u32_to_string;
use crate::text::drop_matching;
use crate::text::join_with;
use crate::text::join_strs;
use crate::text::lemma_join_split;
use crate::text::remove_line;
use crate::text::remove_line_spec;
use crate::text::split_on;
use crate::text::split_str;
use crate::text::str_eq;
use crate::user::passwd_fields::Gid;
use crate::user::passwd_fields::Password;
use crate::user::passwd_fields::Username;
use crate::user::passwd_fields::is_username_valid;
use crate::user::passwd_fields::is_username_valid_spec;
use crate::user::passwd_fields::username_ok;
use vstd::prelude::*;

verus! {

/// How a user belongs to a group: through the gid of their account
/// (exactly one per user), or through the group file's member list.
#[derive(Debug, PartialEq, Eq, Structural, Clone, Copy)]
pub enum MembershipKind {
    Primary,
    Member,
}

/// The name of a group.  Group names follow the username pattern.
#[derive(Debug, Clone)]
pub struct Groupname {
    pub groupname: String,
}

/// Whether `name` is acceptable as a group name; group names follow
/// the username pattern.
pub fn is_groupname_valid(name: &str) -> (r: bool)
    ensures
        r == is_username_valid_spec(name@),
{
    is_username_valid(name)
}

impl Groupname {
    /// The name itself.
    pub fn value(&self) -> (r: &str)
        ensures
            r@ == self.groupname@,
    {
        self.groupname.as_str()
    }

    /// Accepts the name if it matches the pattern or is the legacy
    /// exception; rejects it with `Invalid groupname -<name>-`.
    pub fn try_from(source: String) -> (r: Result<Groupname, UserLibError>)
        ensures
            username_ok(source@) ==> (r matches Ok(g) && g.groupname@ == source@),
            !username_ok(source@) ==> is_simple_message(
                &r,
                "Invalid groupname -"@ + source@ + "-"@,
            ),
    {
        proof {
            reveal_strlit("Debian-exim");
        }
        if is_groupname_valid(source.as_str()) {
            Ok(Groupname { groupname: source })
        } else if str_eq(source.as_str(), "Debian-exim") {
            Ok(Groupname { groupname: source })
        } else {
            Err(UserLibError::Message(
                MyMessage::Simple("Invalid groupname -".to_owned().concat(source.as_str()).concat(
                    "-",
                )),
            ))
        }
    }
}

/// A record (line) of the group database `/etc/group`.
#[derive(Debug)]
pub struct Inner {
    pub pos: u32,
    pub source: String,
    pub groupname: Groupname,
    pub password: Password,
    pub gid: Gid,
    pub members: Vec<Username>,
    pub primary_members: Vec<Username>,
}

pub type Group = Inner;

/// The names held by a list of member records.
pub open spec fn member_views(ms: Seq<Username>) -> Seq<Seq<char>> {
    Seq::new(ms.len(), |i: int| ms[i].username@)
}

/// The member list with every record named `name` dropped.
pub open spec fn drop_named(ms: Seq<Username>, name: Seq<char>) -> Seq<Username>
    decreases ms.len(),
{
    if ms.len() == 0 {
        Seq::<Username>::empty()
    } else if ms[0].username@ == name {
        drop_named(ms.drop_first(), name)
    } else {
        seq![ms[0]] + drop_named(ms.drop_first(), name)
    }
}

/// A member field whose non-empty entries are all acceptable names.
pub open spec fn members_field_ok(f: Seq<char>) -> bool {
    forall|i: int|
        0 <= i < split_on(f, ',').len() ==> ((#[trigger] split_on(f, ',')[i]).len() == 0
            || username_ok(split_on(f, ',')[i]))
}

/// How a parsed member list relates to its comma-split source field:
/// the names are the non-empty entries, in order.
pub open spec fn members_match(ms: Seq<Username>, f: Seq<char>) -> bool {
    member_views(ms) == drop_matching(split_on(f, ','), Seq::<char>::empty())
}

/// A well-formed group line: four fields, an accepted name, a decimal
/// gid, and acceptable member names.
pub open spec fn group_line_ok(line: Seq<char>) -> bool {
    let f = split_on(line, ':');
    &&& f.len() == 4
    &&& username_ok(f[0])
    &&& u32_field_ok(f[2])
    &&& members_field_ok(f[3])
}

/// How a freshly parsed group relates to its source line.
pub open spec fn group_matches(g: &Inner, line: Seq<char>, pos: u32) -> bool {
    let f = split_on(line, ':');
    &&& g.source@ == line
    &&& g.pos == pos
    &&& g.groupname.groupname@ == f[0]
    &&& g.password is Disabled
    &&& g.gid.gid == dec_val(f[2])
    &&& members_match(g.members@, f[3])
    &&& g.primary_members@.len() == 0
}

/// The colon-joined rendering of a group record.  Only the stored
/// member list is written; derived primary members are not.
pub open spec fn group_format(g: &Inner) -> Seq<char> {
    join_with(
        seq![
            g.groupname.groupname@,
            "x"@,
            dec_str(g.gid.gid as int),
            join_with(member_views(g.members@), ','),
        ],
        ':',
    )
}

/// A group line the formatter itself could have written: password
/// placeholder `x`, no leading zeros in the gid, and no empty entries
/// in a non-empty member field.
pub open spec fn group_line_canonical(line: Seq<char>) -> bool {
    let f = split_on(line, ':');
    &&& f.len() == 4 ==> f[1] == "x"@
    &&& f.len() == 4 ==> canonical_dec(f[2])
    &&& f.len() == 4 ==> (f[3].len() == 0 || forall|i: int|
        0 <= i < split_on(f[3], ',').len() ==> (#[trigger] split_on(f[3], ',')[i]).len() > 0)
}

/// Dropping members by name commutes with taking the name views.
pub proof fn lemma_member_views_drop(ms: Seq<Username>, name: Seq<char>)
    ensures
        member_views(drop_named(ms, name)) == drop_matching(member_views(ms), name),
    decreases ms.len(),
{
    if ms.len() == 0 {
        assert(member_views(drop_named(ms, name)) =~= drop_matching(member_views(ms), name));
    } else {
        lemma_member_views_drop(ms.drop_first(), name);
        assert(member_views(ms.drop_first()) =~= member_views(ms).drop_first());
        assert(member_views(ms)[0] == ms[0].username@);
        if ms[0].username@ == name {
            assert(drop_named(ms, name) == drop_named(ms.drop_first(), name));
            assert(drop_matching(member_views(ms), name) == drop_matching(
                member_views(ms).drop_first(),
                name,
            ));
        } else {
            assert(drop_named(ms, name) == seq![ms[0]] + drop_named(ms.drop_first(), name));
            assert(drop_matching(member_views(ms), name) == seq![member_views(ms)[0]]
                + drop_matching(member_views(ms).drop_first(), name));
            assert(member_views(seq![ms[0]] + drop_named(ms.drop_first(), name)) =~= seq![
                ms[0].username@,
            ] + member_views(drop_named(ms.drop_first(), name)));
        }
    }
}

/// Dropping empty entries from a list without any is the identity.
proof fn lemma_drop_matching_id(parts: Seq<Seq<char>>)
    requires
        forall|i: int| 0 <= i < parts.len() ==> (#[trigger] parts[i]).len() > 0,
    ensures
        drop_matching(parts, Seq::<char>::empty()) == parts,
    decreases parts.len(),
{
    if parts.len() == 0 {
        assert(drop_matching(parts, Seq::<char>::empty()) =~= parts);
    } else {
        assert(parts[0].len() > 0);
        assert(parts[0] != Seq::<char>::empty());
        lemma_drop_matching_id(parts.drop_first());
        assert(drop_matching(parts, Seq::<char>::empty()) =~= seq![parts[0]]
            + parts.drop_first());
        assert(seq![parts[0]] + parts.drop_first() =~= parts);
    }
}

/// Formatting a group parsed from a canonical line reproduces the
/// line exactly.
pub proof fn lemma_group_roundtrip(g: &Inner, line: Seq<char>, pos: u32)
    requires
        group_line_ok(line),
        group_matches(g, line, pos),
        group_line_canonical(line),
    ensures
        group_format(g) == line,
{
    let f = split_on(line, ':');
    lemma_dec_roundtrip(f[2]);
    if f[3].len() == 0 {
        let ps = split_on(f[3], ',');
        assert(ps =~= seq![Seq::<char>::empty()]);
        assert(ps[0] == Seq::<char>::empty());
        assert(ps.drop_first() =~= Seq::<Seq<char>>::empty());
        assert(drop_matching(ps.drop_first(), Seq::<char>::empty())
            =~= Seq::<Seq<char>>::empty());
        assert(drop_matching(ps, Seq::<char>::empty()) =~= Seq::<Seq<char>>::empty());
        assert(member_views(g.members@).len() == 0);
        assert(join_with(member_views(g.members@), ',') =~= f[3]);
    } else {
        lemma_drop_matching_id(split_on(f[3], ','));
        assert(member_views(g.members@) == split_on(f[3], ','));
        lemma_join_split(f[3], ',');
    }
    assert(seq![
        g.groupname.groupname@,
        "x"@,
        dec_str(g.gid.gid as int),
        join_with(member_views(g.members@), ','),
    ] =~= f);
    lemma_join_split(line, ':');
}

/// Parses a comma-separated member field, skipping empty entries.
/// Fails when a non-empty entry is not an acceptable name.
pub fn parse_members_list(source: &str) -> (r: Result<Vec<Username>, UserLibError>)
    ensures
        members_field_ok(source@) ==> (r matches Ok(ms) && members_match(ms@, source@)),
        !members_field_ok(source@) ==> r is Err,
{
    let parts = split_str(source, ',');
    let mut res: Vec<Username> = Vec::new();
    let mut i: usize = 0;
    proof {
        assert(member_views(res@) =~= Seq::<Seq<char>>::empty());
        assert(parts.deep_view().skip(0) =~= parts.deep_view());
    }
    while i < parts.len()
        invariant
            0 <= i <= parts@.len(),
            parts.deep_view().len() == parts@.len(),
            parts.deep_view() == split_on(source@, ','),
            forall|j: int| 0 <= j < i ==> ((#[trigger] parts.deep_view()[j]).len() == 0
                || username_ok(parts.deep_view()[j])),
            drop_matching(parts.deep_view(), Seq::<char>::empty()) == member_views(res@)
                + drop_matching(parts.deep_view().skip(i as int), Seq::<char>::empty()),
        decreases parts@.len() - i,
    {
        let ghost pre = member_views(res@);
        let ghost tail = parts.deep_view().skip(i as int);
        proof {
            assert(tail[0] == parts.deep_view()[i as int]);
            assert(tail.drop_first() =~= parts.deep_view().skip(i + 1));
        }
        if !parts[i].as_str().is_empty() {
            let m = match Username::try_from(parts[i].clone()) {
                Ok(m) => m,
                Err(e) => {
                    proof {
                        assert(!username_ok(parts.deep_view()[i as int]));
                        assert(!members_field_ok(source@));
                    }
                    return Err(e);
                },
            };
            res.push(m);
            proof {
                assert(member_views(res@) =~= pre + seq![parts.deep_view()[i as int]]);
                assert(drop_matching(parts.deep_view(), Seq::<char>::empty())
                    =~= member_views(res@) + drop_matching(
                    parts.deep_view().skip(i + 1),
                    Seq::<char>::empty(),
                ));
            }
        } else {
            proof {
                assert(tail[0] == Seq::<char>::empty()) by {
                    assert(tail[0].len() == 0);
                }
                assert(drop_matching(parts.deep_view(), Seq::<char>::empty())
                    =~= member_views(res@) + drop_matching(
                    parts.deep_view().skip(i + 1),
                    Seq::<char>::empty(),
                ));
            }
        }
        i += 1;
    }
    proof {
        assert(parts.deep_view().skip(parts@.len() as int) =~= Seq::<Seq<char>>::empty());
        assert(member_views(res@) =~= drop_matching(parts.deep_view(), Seq::<char>::empty()));
    }
    Ok(res)
}

/// The members of `ms` whose name differs from `name`, in order.
fn filter_named(ms: &Vec<Username>, name: &str) -> (r: Vec<Username>)
    ensures
        r@ == drop_named(ms@, name@),
{
    let mut kept: Vec<Username> = Vec::new();
    let mut i: usize = 0;
    proof {
        assert(ms@.skip(0) =~= ms@);
        assert(drop_named(ms@, name@) =~= kept@ + drop_named(ms@.skip(0), name@));
    }
    while i < ms.len()
        invariant
            0 <= i <= ms@.len(),
            drop_named(ms@, name@) == kept@ + drop_named(ms@.skip(i as int), name@),
        decreases ms@.len() - i,
    {
        let ghost pre = kept@;
        let ghost tail = ms@.skip(i as int);
        proof {
            assert(tail[0] == ms@[i as int]);
            assert(tail.drop_first() =~= ms@.skip(i + 1));
        }
        if !str_eq(ms[i].value(), name) {
            kept.push(ms[i].clone());
            proof {
                assert(kept@ =~= pre + seq![ms@[i as int]]);
                assert(drop_named(ms@, name@) =~= kept@ + drop_named(ms@.skip(i + 1), name@));
            }
        } else {
            proof {
                assert(drop_named(ms@, name@) =~= kept@ + drop_named(ms@.skip(i + 1), name@));
            }
        }
        i += 1;
    }
    proof {
        assert(ms@.skip(ms@.len() as int) =~= Seq::<Username>::empty());
        assert(drop_named(ms@, name@) =~= kept@);
    }
    kept
}

impl Inner {
    /// Parses a group line of four colon-separated fields.  Succeeds
    /// exactly on well-formed lines.
    pub fn new_from_string(line: String, position: u32) -> (r: Result<Inner, UserLibError>)
        ensures
            group_line_ok(line@) ==> (r matches Ok(g) && group_matches(&g, line@, position)),
            !group_line_ok(line@) ==> r is Err,
            split_on(line@, ':').len() != 4 ==> is_simple_message(
                &r,
                "Failed to parse: not enough elements"@,
            ),
    {
        let elements = split_str(line.as_str(), ':');
        if elements.len() != 4 {
            return Err(UserLibError::Message(
                MyMessage::Simple("Failed to parse: not enough elements".to_owned()),
            ));
        }
        let groupname = match Groupname::try_from(elements[0].clone()) {
            Ok(g) => g,
            Err(e) => {
                return Err(e);
            },
        };
        let gid = match Gid::try_from(elements[2].clone()) {
            Ok(g) => g,
            Err(e) => {
                return Err(e);
            },
        };
        let members = match parse_members_list(elements[3].as_str()) {
            Ok(ms) => ms,
            Err(e) => {
                return Err(e);
            },
        };
        Ok(
            Inner {
                pos: position,
                source: line,
                groupname,
                password: Password::Disabled,
                gid,
                members,
                primary_members: Vec::new(),
            },
        )
    }

    /// The colon-joined rendering of this record; only stored members
    /// are written.
    pub fn to_line(&self) -> (r: String)
        ensures
            r@ == group_format(self),
    {
        let mut names: Vec<String> = Vec::new();
        let mut i: usize = 0;
        while i < self.members.len()
            invariant
                0 <= i <= self.members@.len(),
                names.deep_view() == member_views(self.members@).take(i as int),
            decreases self.members@.len() - i,
        {
            let ghost pre = names.deep_view();
            names.push(self.members[i].username.clone());
            proof {
                assert(names.deep_view() =~= pre + seq![self.members@[i as int].username@]);
                assert(names.deep_view() =~= member_views(self.members@).take(i + 1));
            }
            i += 1;
        }
        proof {
            assert(member_views(self.members@).take(self.members@.len() as int) =~= member_views(
                self.members@,
            ));
            reveal_strlit(",");
            reveal_strlit(":");
        }
        let member_field = join_strs(&names, ",");
        let mut parts: Vec<String> = Vec::new();
        parts.push(self.groupname.groupname.clone());
        parts.push("x".to_owned());
        parts.push(u32_to_string(self.gid.gid));
        parts.push(member_field);
        proof {
            assert(parts.deep_view() =~= seq![
                self.groupname.groupname@,
                "x"@,
                dec_str(self.gid.gid as int),
                join_with(member_views(self.members@), ','),
            ]);
        }
        join_strs(&parts, ":")
    }

    /// The text `content` with this record's source line spliced out.
    pub fn remove_in(&self, content: &str) -> (r: String)
        ensures
            r@ == remove_line_spec(content@, self.source@),
    {
        remove_line(content, self.source.as_str())
    }

    /// The group's name.
    pub fn get_groupname(&self) -> (r: Option<&str>)
        ensures
            r matches Some(n) && n@ == self.groupname.groupname@,
    {
        Some(self.groupname.value())
    }

    /// The gid.
    pub fn get_gid(&self) -> (r: Option<u32>)
        ensures
            r matches Some(g) && g == self.gid.gid,
    {
        Some(self.gid.get_gid())
    }

    /// The password hash of the group, when one is kept in the record
    /// itself; group passwords are normally disabled.
    pub fn get_encrypted_password(&self) -> (r: Option<&str>)
        ensures
            match &self.password {
                Password::Encrypted(p) => r matches Some(v) && v@ == p.password@,
                _ => r is None,
            },
    {
        match &self.password {
            Password::Encrypted(p) => Some(p.value()),
            _ => None,
        }
    }

    /// Every member's name: the stored members first, then the
    /// derived primary members.
    pub fn get_member_names(&self) -> (r: Option<Vec<&str>>)
        ensures
            r matches Some(v) && v.deep_view() == member_views(self.members@) + member_views(
                self.primary_members@,
            ),
    {
        let mut names: Vec<&str> = Vec::new();
        let mut i: usize = 0;
        while i < self.members.len()
            invariant
                0 <= i <= self.members@.len(),
                names.deep_view() == member_views(self.members@).take(i as int),
            decreases self.members@.len() - i,
        {
            let ghost pre = names.deep_view();
            names.push(self.members[i].value());
            proof {
                assert(names.deep_view() =~= pre + seq![self.members@[i as int].username@]);
                assert(names.deep_view() =~= member_views(self.members@).take(i + 1));
            }
            i += 1;
        }
        let mut j: usize = 0;
        while j < self.primary_members.len()
            invariant
                0 <= j <= self.primary_members@.len(),
                names.deep_view() == member_views(self.members@).take(self.members@.len() as int)
                    + member_views(self.primary_members@).take(j as int),
            decreases self.primary_members@.len() - j,
        {
            let ghost pre = names.deep_view();
            names.push(self.primary_members[j].value());
            proof {
                assert(names.deep_view() =~= pre + seq![
                    self.primary_members@[j as int].username@,
                ]);
                assert(names.deep_view() =~= member_views(self.members@).take(
                    self.members@.len() as int,
                ) + member_views(self.primary_members@).take(j + 1));
            }
            j += 1;
        }
        proof {
            assert(member_views(self.members@).take(self.members@.len() as int) =~= member_views(
                self.members@,
            ));
            assert(member_views(self.primary_members@).take(self.primary_members@.len() as int)
                =~= member_views(self.primary_members@));
        }
        Some(names)
    }

    /// Removes this user's membership of the given kind.  Removing an
    /// explicit membership updates the stored member list and with it
    /// the persisted line; removing a primary membership only touches
    /// the derived list and leaves the persisted line as it is.
    pub fn remove_member(&mut self, kind: MembershipKind, name: &str)
        ensures
            final(self).pos == old(self).pos,
            final(self).groupname == old(self).groupname,
            final(self).password == old(self).password,
            final(self).gid == old(self).gid,
            kind is Member ==> {
                &&& final(self).members@ == drop_named(old(self).members@, name@)
                &&& final(self).primary_members == old(self).primary_members
                &&& final(self).source@ == group_format(final(self))
            },
            kind is Primary ==> {
                &&& final(self).primary_members@ == drop_named(old(self).primary_members@, name@)
                &&& final(self).members == old(self).members
                &&& final(self).source == old(self).source
            },
    {
        match kind {
            MembershipKind::Member => {
                let kept = filter_named(&self.members, name);
                self.members = kept;
                let line = self.to_line();
                self.source = line;
            },
            MembershipKind::Primary => {
                let kept = filter_named(&self.primary_members, name);
                self.primary_members = kept;
            },
        }
    }

    /// Records a derived primary member; the persisted line does not
    /// change.
    pub fn append_user(&mut self, member: Username)
        ensures
            final(self).primary_members@ == old(self).primary_members@.push(member),
            final(self).members == old(self).members,
            final(self).source == old(self).source,
            final(self).pos == old(self).pos,
            final(self).groupname == old(self).groupname,
            final(self).password == old(self).password,
            final(self).gid == old(self).gid,
    {
        self.primary_members.push(member);
    }
}


impl crate::api::GroupRead for Inner {
    fn get_groupname(&self) -> Option<&str> {
        Inner::get_groupname(self)
    }

    fn get_encrypted_password(&self) -> Option<&str> {
        Inner::get_encrypted_password(self)
    }

    fn get_gid(&self) -> Option<u32> {
        Inner::get_gid(self)
    }

    fn get_member_names(&self) -> Option<Vec<&str>> {
        Inner::get_member_names(self)
    }
}


impl crate::api::GroupWrite for Inner {
    fn append_user(&mut self, member: Username) {
        Inner::append_user(self, member);
    }

    fn remove_member(&mut self, kind: MembershipKind, name: &str) {
        Inner::remove_member(self, kind, name);
    }
}

} // verus!
