//! The orchestrator: loads the three account databases, links users
//! and groups into the membership index, answers lookups, and builds
//! the create and delete write paths on top of the codec, the lock
//! protocol and the consistency snapshot.
//!
//! The engine itself performs no file reading or writing.  A
//! file-backed database is loaded from the contents of its three
//! files, read by the embedding program under the lock protocol of
//! [`files`]; the write paths return the new file contents to be
//! persisted, again under that protocol.

pub mod files;
pub mod hashes;

use crate::api::CreateUserArgs;
use crate::api::DeleteUserArgs;
use crate::error::UserLibError;
use crate::error::is_simple_error;
use crate::group::drop_named;
use crate::group::group_format;
use crate::group::lemma_member_views_drop;
use crate::group::member_views;
use crate::numbers::dec_str;
use crate::text::drop_matching;
use crate::text::remove_line_spec;
use crate::user::shadow_fields::shadow_format;
use crate::user::user_format;
use files::append_line;
use files::append_line_spec;
use crate::group::Group;
use crate::group::MembershipKind;
use crate::group::group_line_ok;
use crate::group::group_matches;
use crate::group::is_groupname_valid;
use crate::numbers::dec_val;
use crate::text::join_with;
use crate::text::join_strs;
use crate::text::split_on;
use crate::text::split_str;
use crate::text::str_eq;
use crate::user::User;
use crate::user::gecos_fields::gecos_matches;
use crate::user::passwd_fields::Password;
use crate::user::passwd_fields::Username;
use crate::user::passwd_fields::is_username_valid;
use crate::user::passwd_fields::is_username_valid_spec;
use crate::user::shadow_fields::Shadow;
use crate::user::shadow_fields::shadow_line_ok;
use crate::user::shadow_fields::shadow_matches;
use crate::user::user_line_ok;
use crate::user::user_matches;
use files::Files;
use hashes::Hashes;
use vstd::prelude::*;

verus! {

/// The users of a database, in their load order.
pub type UserList = Vec<User>;

/// A user database held in memory, with the paths and baselines of
/// its backing files when it has any.
pub struct UserDBLocal {
    pub source_files: Files,
    pub source_hashes: Hashes,
    pub users: Vec<User>,
    pub groups: Vec<Group>,
}

/// Whether a user with this name exists.
pub open spec fn has_user(users: Seq<User>, name: Seq<char>) -> bool {
    exists|j: int| 0 <= j < users.len() && (#[trigger] users[j]).username.username@ == name
}

/// Whether `j` is the position of the first user with this name.
pub open spec fn is_first_user_match(users: Seq<User>, name: Seq<char>, j: int) -> bool {
    &&& 0 <= j < users.len()
    &&& users[j].username.username@ == name
    &&& forall|k: int| 0 <= k < j ==> (#[trigger] users[k]).username.username@ != name
}

/// Whether a group with this gid exists.
pub open spec fn has_group_gid(gs: Seq<Group>, gid: u32) -> bool {
    exists|k: int| 0 <= k < gs.len() && (#[trigger] gs[k]).gid.gid == gid
}

/// Whether `k` is the position of the first group with this gid.
pub open spec fn is_first_group_gid_match(gs: Seq<Group>, gid: u32, k: int) -> bool {
    &&& 0 <= k < gs.len()
    &&& gs[k].gid.gid == gid
    &&& forall|j: int| 0 <= j < k ==> (#[trigger] gs[j]).gid.gid != gid
}

/// How many groups carry this gid.
pub open spec fn count_gid(gs: Seq<Group>, gid: u32) -> int
    decreases gs.len(),
{
    if gs.len() == 0 {
        0int
    } else {
        (if gs[0].gid.gid == gid {
            1int
        } else {
            0int
        }) + count_gid(gs.drop_first(), gid)
    }
}

/// A line long enough to be read as a record: more than five
/// characters, the filter the loader applies before parsing.
pub open spec fn line_kept(l: Seq<char>) -> bool {
    l.len() > 5
}

/// The original line numbers of the kept lines, from `i` on.
pub open spec fn kept_from(lines: Seq<Seq<char>>, i: int) -> Seq<int>
    decreases lines.len() - i,
{
    if !(0 <= i < lines.len()) {
        Seq::<int>::empty()
    } else if line_kept(lines[i]) {
        seq![i] + kept_from(lines, i + 1)
    } else {
        kept_from(lines, i + 1)
    }
}

/// A record type that parses from one line of its database file.
pub trait NewFromString: Sized {
    /// Whether this line parses.
    spec fn line_ok(line: Seq<char>) -> bool;

    /// How a parsed record relates to its source line.
    spec fn matches_line(&self, line: Seq<char>, pos: u32) -> bool;

    /// Parses one line, recording its position; succeeds exactly on
    /// lines that `line_ok` accepts.
    fn new_from_string(line: String, position: u32) -> (r: Result<Self, UserLibError>)
        ensures
            Self::line_ok(line@) ==> (r matches Ok(v) && v.matches_line(line@, position)),
            !Self::line_ok(line@) ==> r is Err,
    ;
}

impl NewFromString for User {
    open spec fn line_ok(line: Seq<char>) -> bool {
        user_line_ok(line)
    }

    open spec fn matches_line(&self, line: Seq<char>, pos: u32) -> bool {
        user_matches(self, line, pos)
    }

    fn new_from_string(line: String, position: u32) -> (r: Result<Self, UserLibError>) {
        User::new_from_string(line, position)
    }
}

impl NewFromString for Shadow {
    open spec fn line_ok(line: Seq<char>) -> bool {
        shadow_line_ok(line)
    }

    open spec fn matches_line(&self, line: Seq<char>, pos: u32) -> bool {
        shadow_matches(self, line, pos)
    }

    fn new_from_string(line: String, position: u32) -> (r: Result<Self, UserLibError>) {
        Shadow::new_from_string(line, position)
    }
}

impl NewFromString for Group {
    open spec fn line_ok(line: Seq<char>) -> bool {
        group_line_ok(line)
    }

    open spec fn matches_line(&self, line: Seq<char>, pos: u32) -> bool {
        group_matches(self, line, pos)
    }

    fn new_from_string(line: String, position: u32) -> (r: Result<Self, UserLibError>) {
        Group::new_from_string(line, position)
    }
}

/// Parses a database file line by line into records, skipping lines
/// of five characters or fewer and keeping each record's original line
/// number.  A single malformed kept line fails the whole read.
#[verifier::loop_isolation(false)]
pub fn string_to<T: NewFromString>(source: &str) -> (r: Result<Vec<T>, UserLibError>)
    ensures
        ({
            let lines = split_on(source@, '\n');
            let kept = kept_from(lines, 0);
            &&& (r matches Ok(v) ==> {
                &&& v@.len() == kept.len()
                &&& forall|j: int| 0 <= j < kept.len() ==> T::line_ok(lines[#[trigger] kept[j]])
                &&& forall|j: int|
                    0 <= j < kept.len() ==> (#[trigger] v@[j]).matches_line(
                        lines[kept[j]],
                        kept[j] as u32,
                    )
            })
            &&& ((forall|j: int| 0 <= j < kept.len() ==> T::line_ok(lines[#[trigger] kept[j]]))
                && lines.len() <= u32::MAX ==> r is Ok)
        }),
{
    let ghost lines = split_on(source@, '\n');
    let parts = split_str(source, '\n');
    let mut res: Vec<T> = Vec::new();
    let ghost mut ks: Seq<int> = Seq::empty();
    let mut i: usize = 0;
    proof {
        assert(kept_from(lines, 0) =~= ks + kept_from(lines, 0));
    }
    while i < parts.len()
        invariant
            0 <= i <= parts@.len(),
            parts.deep_view() == lines,
            parts.deep_view().len() == parts@.len(),
            ks.len() == res@.len(),
            forall|j: int|
                0 <= j < ks.len() ==> 0 <= #[trigger] ks[j] < lines.len() && ks[j] <= u32::MAX,
            forall|j: int| 0 <= j < ks.len() ==> T::line_ok(lines[#[trigger] ks[j]]),
            forall|j: int|
                0 <= j < ks.len() ==> (#[trigger] res@[j]).matches_line(
                    lines[ks[j]],
                    ks[j] as u32,
                ),
            kept_from(lines, 0) == ks + kept_from(lines, i as int),
        decreases parts@.len() - i,
    {
        let blen: usize = parts[i].as_str().unicode_len();
        if blen > 5 {
            proof {
                assert(parts.deep_view()[i as int] == parts@[i as int].deep_view());
                assert(parts[i as int]@ == lines[i as int]);
                assert(line_kept(lines[i as int]));
                assert(kept_from(lines, i as int) == seq![i as int] + kept_from(lines, i + 1));
            }
            if i > u32::MAX as usize {
                proof {
                    assert(lines.len() >= i + 1);
                    assert(lines.len() > u32::MAX);
                }
                return Err(UserLibError::from("too many lines"));
            }
            let v = match T::new_from_string(parts[i].clone(), i as u32) {
                Ok(v) => v,
                Err(e) => {
                    proof {
                        assert(!T::line_ok(lines[i as int]));
                        let kept = kept_from(lines, 0);
                        assert(kept.len() > ks.len());
                        assert(kept[ks.len() as int] == i as int);
                        assert(!T::line_ok(lines[kept[ks.len() as int]]));
                    }
                    return Err(e);
                },
            };
            res.push(v);
            proof {
                ks = ks.push(i as int);
                assert(kept_from(lines, 0) =~= ks + kept_from(lines, i + 1));
            }
        } else {
            proof {
                assert(parts.deep_view()[i as int] == parts@[i as int].deep_view());
                assert(parts[i as int]@ == lines[i as int]);
                assert(!line_kept(lines[i as int]));
                assert(kept_from(lines, i as int) == kept_from(lines, i + 1));
            }
        }
        i += 1;
    }
    proof {
        assert(kept_from(lines, parts@.len() as int) =~= Seq::<int>::empty());
        assert(kept_from(lines, 0) =~= ks);
    }
    Ok(res)
}

/// What loading keeps of a user record regardless of the later merge
/// steps: everything but the password and the membership edges.
pub open spec fn user_from_line(u: User, line: Seq<char>, pos: u32) -> bool {
    let f = split_on(line, ':');
    &&& u.source@ == line
    &&& u.pos == pos
    &&& u.username.username@ == f[0]
    &&& u.uid.uid == dec_val(f[2])
    &&& u.gid.gid == dec_val(f[3])
    &&& gecos_matches(&u.gecos, split_on(f[4], ','))
    &&& u.home_dir.dir@ == f[5]
    &&& u.shell_path.shell@ == f[6]
}

/// What loading keeps of a group record regardless of the later
/// linking: everything but the derived primary members.
pub open spec fn group_from_line(g: Group, line: Seq<char>, pos: u32) -> bool {
    let f = split_on(line, ':');
    &&& g.source@ == line
    &&& g.pos == pos
    &&& g.groupname.groupname@ == f[0]
    &&& g.password is Disabled
    &&& g.gid.gid == dec_val(f[2])
    &&& crate::group::members_match(g.members@, f[3])
}

/// The users correspond one for one to the kept lines of the passwd
/// file text.
pub open spec fn users_from_content(users: Seq<User>, content: Seq<char>) -> bool {
    let lines = split_on(content, '\n');
    let kept = kept_from(lines, 0);
    &&& users.len() == kept.len()
    &&& forall|j: int|
        0 <= j < kept.len() ==> user_from_line(users[j], lines[#[trigger] kept[j]], kept[j] as u32)
}

/// The groups correspond one for one to the kept lines of the group
/// file text.
pub open spec fn groups_from_content(groups: Seq<Group>, content: Seq<char>) -> bool {
    let lines = split_on(content, '\n');
    let kept = kept_from(lines, 0);
    &&& groups.len() == kept.len()
    &&& forall|j: int|
        0 <= j < kept.len() ==> group_from_line(
            groups[j],
            lines[#[trigger] kept[j]],
            kept[j] as u32,
        )
}

/// Everything of a user except its password.
pub open spec fn same_but_password(a: User, b: User) -> bool {
    &&& a.source == b.source
    &&& a.pos == b.pos
    &&& a.username == b.username
    &&& a.uid == b.uid
    &&& a.gid == b.gid
    &&& a.gecos == b.gecos
    &&& a.home_dir == b.home_dir
    &&& a.shell_path == b.shell_path
    &&& a.groups == b.groups
}

/// Everything of a user except its membership edges.
pub open spec fn same_but_groups(a: User, b: User) -> bool {
    &&& a.source == b.source
    &&& a.pos == b.pos
    &&& a.username == b.username
    &&& a.password == b.password
    &&& a.uid == b.uid
    &&& a.gid == b.gid
    &&& a.gecos == b.gecos
    &&& a.home_dir == b.home_dir
    &&& a.shell_path == b.shell_path
}

/// The position of the first user with this name, if any.
fn find_user_index(users: &Vec<User>, name: &str) -> (r: Option<usize>)
    ensures
        match r {
            Some(j) => is_first_user_match(users@, name@, j as int),
            None => !has_user(users@, name@),
        },
{
    let mut j: usize = 0;
    while j < users.len()
        invariant
            0 <= j <= users@.len(),
            forall|k: int| 0 <= k < j ==> (#[trigger] users@[k]).username.username@ != name@,
        decreases users@.len() - j,
    {
        if str_eq(users[j].username.value(), name) {
            return Some(j);
        }
        j += 1;
    }
    None
}

/// The position of the first group with this gid, if any.
fn find_group_index_by_gid(groups: &Vec<Group>, gid: u32) -> (r: Option<usize>)
    ensures
        match r {
            Some(k) => is_first_group_gid_match(groups@, gid, k as int),
            None => !has_group_gid(groups@, gid),
        },
{
    let mut k: usize = 0;
    while k < groups.len()
        invariant
            0 <= k <= groups@.len(),
            forall|j: int| 0 <= j < k ==> (#[trigger] groups@[j]).gid.gid != gid,
        decreases groups@.len() - k,
    {
        if groups[k].gid.get_gid() == gid {
            return Some(k);
        }
        k += 1;
    }
    None
}

/// How many groups carry this gid.
fn count_groups_with_gid(groups: &Vec<Group>, gid: u32) -> (r: usize)
    ensures
        r == count_gid(groups@, gid),
{
    let ghost gs = groups@;
    let mut n: usize = 0;
    let mut k: usize = 0;
    proof {
        assert(gs.skip(0) =~= gs);
        lemma_count_gid_bound(gs, gid);
    }
    while k < groups.len()
        invariant
            0 <= k <= groups@.len(),
            gs == groups@,
            n + count_gid(gs.skip(k as int), gid) == count_gid(gs, gid),
            n <= k,
            count_gid(gs, gid) <= gs.len(),
        decreases groups@.len() - k,
    {
        proof {
            assert(gs.skip(k as int)[0] == gs[k as int]);
            assert(gs.skip(k as int).drop_first() =~= gs.skip(k + 1));
            lemma_count_gid_bound(gs.skip(k + 1), gid);
            lemma_count_gid_nonneg(gs.skip(k + 1), gid);
        }
        if groups[k].gid.get_gid() == gid {
            n += 1;
        }
        k += 1;
    }
    proof {
        assert(gs.skip(gs.len() as int) =~= Seq::<Group>::empty());
    }
    n
}

proof fn lemma_count_gid_nonneg(gs: Seq<Group>, gid: u32)
    ensures
        count_gid(gs, gid) >= 0,
    decreases gs.len(),
{
    if gs.len() > 0 {
        lemma_count_gid_nonneg(gs.drop_first(), gid);
    }
}

proof fn lemma_count_gid_bound(gs: Seq<Group>, gid: u32)
    ensures
        0 <= count_gid(gs, gid) <= gs.len(),
    decreases gs.len(),
{
    if gs.len() > 0 {
        lemma_count_gid_bound(gs.drop_first(), gid);
    }
}

/// The index of the last shadow record carrying this name, or -1;
/// later records overwrite earlier ones during the merge.
pub open spec fn last_shadow_for(sh: Seq<Shadow>, name: Seq<char>) -> int
    decreases sh.len(),
{
    if sh.len() == 0 {
        -1
    } else if sh.last().username.username@ == name {
        sh.len() - 1
    } else {
        last_shadow_for(sh.drop_last(), name)
    }
}

/// The position, among the kept lines, of the last one whose first
/// field is `name`, or -1; stated over raw file text so that callers
/// of the loader can speak of it.
pub open spec fn last_kept_match(lines: Seq<Seq<char>>, kept: Seq<int>, name: Seq<char>) -> int
    decreases kept.len(),
{
    if kept.len() == 0 {
        -1
    } else if split_on(lines[kept.last()], ':')[0] == name {
        kept.len() - 1
    } else {
        last_kept_match(lines, kept.drop_last(), name)
    }
}

proof fn lemma_last_shadow_range(sv: Seq<Shadow>, name: Seq<char>)
    ensures
        -1 <= last_shadow_for(sv, name) < sv.len(),
    decreases sv.len(),
{
    if sv.len() > 0 {
        lemma_last_shadow_range(sv.drop_last(), name);
    }
}

/// The merge's notion of the last matching record agrees with the
/// text-level notion, record by record.
proof fn lemma_last_match_agree(
    lines: Seq<Seq<char>>,
    kept: Seq<int>,
    sv: Seq<Shadow>,
    name: Seq<char>,
)
    requires
        sv.len() == kept.len(),
        forall|i: int|
            0 <= i < sv.len() ==> (#[trigger] sv[i]).username.username@ == split_on(
                lines[kept[i]],
                ':',
            )[0],
    ensures
        last_shadow_for(sv, name) == last_kept_match(lines, kept, name),
    decreases kept.len(),
{
    if kept.len() > 0 {
        assert(sv.last().username.username@ == split_on(lines[kept.last()], ':')[0]) by {
            assert(sv[sv.len() - 1].username.username@ == split_on(
                lines[kept[kept.len() - 1]],
                ':',
            )[0]);
        }
        assert(forall|i: int|
            0 <= i < sv.drop_last().len() ==> (#[trigger] sv.drop_last()[i]) == sv[i]
                && kept.drop_last()[i] == kept[i]);
        lemma_last_match_agree(lines, kept.drop_last(), sv.drop_last(), name);
    }
}

/// How many kept lines of a group file carry this gid in their third
/// field; stated over raw file text so that callers of the loader can
/// speak of it.
pub open spec fn count_kept_gid(lines: Seq<Seq<char>>, kept: Seq<int>, gid: u32) -> int
    decreases kept.len(),
{
    if kept.len() == 0 {
        0int
    } else {
        (if dec_val(split_on(lines[kept.last()], ':')[2]) == gid {
            1int
        } else {
            0int
        }) + count_kept_gid(lines, kept.drop_last(), gid)
    }
}

/// The loader's gid count over parsed groups agrees with the
/// text-level count, record by record.
proof fn lemma_count_gid_agree(lines: Seq<Seq<char>>, kept: Seq<int>, gs: Seq<Group>, gid: u32)
    requires
        gs.len() == kept.len(),
        forall|i: int|
            0 <= i < gs.len() ==> (#[trigger] gs[i]).gid.gid == dec_val(
                split_on(lines[kept[i]], ':')[2],
            ),
    ensures
        count_gid(gs, gid) == count_kept_gid(lines, kept, gid),
    decreases kept.len(),
{
    if kept.len() > 0 {
        assert(forall|i: int|
            0 <= i < gs.drop_last().len() ==> (#[trigger] gs.drop_last()[i]) == gs[i]
                && kept.drop_last()[i] == kept[i]);
        lemma_count_gid_agree(lines, kept.drop_last(), gs.drop_last(), gid);
        lemma_count_gid_back(gs, gid);
        assert(gs[gs.len() - 1].gid.gid == dec_val(split_on(lines[kept[kept.len() - 1]], ':')[2]));
    }
}

/// The gid count taken from the back, one record at a time.
proof fn lemma_count_gid_back(gs: Seq<Group>, gid: u32)
    requires
        gs.len() > 0,
    ensures
        count_gid(gs, gid) == count_gid(gs.drop_last(), gid) + (if gs.last().gid.gid == gid {
            1int
        } else {
            0int
        }),
    decreases gs.len(),
{
    if gs.len() == 1 {
        assert(gs.drop_last() =~= Seq::<Group>::empty());
        assert(gs.drop_first() =~= Seq::<Group>::empty());
    } else {
        assert(gs.drop_first().drop_last() =~= gs.drop_last().drop_first());
        assert(gs.drop_first().last() == gs.last());
        assert(gs.drop_last()[0] == gs[0]);
        lemma_count_gid_back(gs.drop_first(), gid);
    }
}

/// Three file texts that load cleanly: every kept line parses,
/// every shadow record names an existing user, every user's gid
/// resolves to exactly one group, and the files are small enough for
/// line positions to be recorded.
pub open spec fn contents_consistent(
    passwd_content: Seq<char>,
    shadow_content: Seq<char>,
    group_content: Seq<char>,
) -> bool {
    let plines = split_on(passwd_content, '\n');
    let pkept = kept_from(plines, 0);
    let slines = split_on(shadow_content, '\n');
    let skept = kept_from(slines, 0);
    let glines = split_on(group_content, '\n');
    let gkept = kept_from(glines, 0);
    &&& (forall|j: int| 0 <= j < pkept.len() ==> user_line_ok(plines[#[trigger] pkept[j]]))
    &&& (forall|i: int| 0 <= i < skept.len() ==> shadow_line_ok(slines[#[trigger] skept[i]]))
    &&& (forall|k: int| 0 <= k < gkept.len() ==> group_line_ok(glines[#[trigger] gkept[k]]))
    &&& plines.len() <= u32::MAX
    &&& slines.len() <= u32::MAX
    &&& glines.len() <= u32::MAX
    &&& (forall|i: int|
        0 <= i < skept.len() ==> exists|j: int|
            0 <= j < pkept.len() && split_on(plines[#[trigger] pkept[j]], ':')[0] == split_on(
                slines[#[trigger] skept[i]],
                ':',
            )[0])
    &&& (forall|j: int|
        0 <= j < pkept.len() ==> count_kept_gid(
            glines,
            gkept,
            dec_val(split_on(plines[#[trigger] pkept[j]], ':')[3]) as u32,
        ) == 1)
}

/// Merges the shadow records into the users they belong to: the first
/// user of each record's name ends up with the last matching record
/// as its password; everyone else keeps theirs.  A record whose user
/// does not exist fails the merge, as an inconsistency between the
/// two files.
#[verifier::loop_isolation(false)]
fn shadow_to_users(users: &mut Vec<User>, shadow: Vec<Shadow>) -> (r: Result<(), UserLibError>)
    ensures
        final(users)@.len() == old(users)@.len(),
        forall|j: int|
            0 <= j < final(users)@.len() ==> same_but_password(
                #[trigger] final(users)@[j],
                old(users)@[j],
            ),
        r is Ok ==> forall|j: int|
            0 <= j < final(users)@.len() ==> (#[trigger] final(users)@[j]).password == (
            if first_with_own_name(old(users)@, j) && last_shadow_for(
                shadow@,
                old(users)@[j].username.username@,
            ) >= 0 {
                Password::Shadow(
                    shadow@[last_shadow_for(shadow@, old(users)@[j].username.username@)],
                )
            } else {
                old(users)@[j].password
            }),
        (r is Ok) <==> (forall|i: int|
            0 <= i < shadow@.len() ==> has_user(
                old(users)@,
                (#[trigger] shadow@[i]).username.username@,
            )),
{
    let ghost sh = shadow@;
    let ghost users0 = users@;
    let mut shadow = shadow;
    let mut done: usize = 0;
    let n = shadow.len();
    proof {
        assert(sh.take(0) =~= Seq::<Shadow>::empty());
    }
    while done < n
        invariant
            0 <= done <= n,
            n == sh.len(),
            shadow@ == sh.skip(done as int),
            users@.len() == users0.len(),
            forall|j: int|
                0 <= j < users@.len() ==> same_but_password(#[trigger] users@[j], users0[j]),
            forall|j: int|
                0 <= j < users@.len() ==> (#[trigger] users@[j]).password == (
                if first_with_own_name(users0, j) && last_shadow_for(
                    sh.take(done as int),
                    users0[j].username.username@,
                ) >= 0 {
                    Password::Shadow(
                        sh[last_shadow_for(sh.take(done as int), users0[j].username.username@)],
                    )
                } else {
                    users0[j].password
                }),
            forall|i: int| 0 <= i < done ==> has_user(users0, (#[trigger] sh[i]).username.username@),
        decreases n - done,
    {
        proof {
            assert(sh.skip(done as int)[0] == sh[done as int]);
            assert(sh.skip(done as int).drop_first() =~= sh.skip(done + 1));
            assert(sh.take(done + 1) =~= sh.take(done as int).push(sh[done as int]));
            assert(sh.take(done + 1).last() == sh[done as int]);
            assert(sh.take(done + 1).drop_last() =~= sh.take(done as int));
        }
        let entry = shadow.remove(0);
        let name_holder = entry.username.clone();
        let found = find_user_index(users, name_holder.value());
        let j = match found {
            Some(j) => j,
            None => {
                proof {
                    let nm = sh[done as int].username.username@;
                    assert(!has_user(users@, nm));
                    assert(!has_user(users0, nm)) by {
                        if has_user(users0, nm) {
                            let w = choose|w: int|
                                0 <= w < users0.len() && (#[trigger] users0[w]).username.username@
                                    == nm;
                            assert(users@[w].username == users0[w].username);
                        }
                    }
                }
                return Err(UserLibError::from_string(
                    "the user ".to_owned().concat(name_holder.value()).concat(" does not exist"),
                ));
            },
        };
        let ghost pre = users@;
        let mut u = users.remove(j);
        u.password = Password::Shadow(entry);
        users.insert(j, u);
        proof {
            let nm = sh[done as int].username.username@;
            assert(users@ =~= pre.update(j as int, users@[j as int]));
            assert(same_but_password(users@[j as int], users0[j as int]));
            assert(has_user(users0, nm)) by {
                assert(pre[j as int].username.username@ == nm);
                assert(users0[j as int].username == pre[j as int].username);
            }
            assert(first_with_own_name(users0, j as int)) by {
                assert(forall|kk: int|
                    0 <= kk < users0.len() ==> (#[trigger] users0[kk]).username
                        == pre[kk].username);
            }
            assert forall|jj: int|
                0 <= jj < users@.len() implies (#[trigger] users@[jj]).password == (
            if first_with_own_name(users0, jj) && last_shadow_for(
                sh.take(done + 1),
                users0[jj].username.username@,
            ) >= 0 {
                Password::Shadow(
                    sh[last_shadow_for(sh.take(done + 1), users0[jj].username.username@)],
                )
            } else {
                users0[jj].password
            }) by {
                let jnm = users0[jj].username.username@;
                if jj == j {
                    assert(jnm == nm);
                    assert(last_shadow_for(sh.take(done + 1), jnm) == done);
                } else {
                    assert(users@[jj] == pre[jj]);
                    if jnm == nm {
                        // A later user of the same name is never the first
                        // match, so its password is untouched either way.
                        assert(pre[jj].username.username@ == nm);
                        if jj < j {
                            assert(false);
                        }
                        assert(!first_with_own_name(users0, jj)) by {
                            assert(users0[j as int].username.username@ == nm);
                        }
                    } else {
                        assert(last_shadow_for(sh.take(done + 1), jnm) == last_shadow_for(
                            sh.take(done as int),
                            jnm,
                        ));
                    }
                }
            }
        }
        done += 1;
    }
    proof {
        assert(sh.skip(n as int) =~= Seq::<Shadow>::empty());
        assert(sh.take(n as int) =~= sh);
    }
    Ok(())
}

/// Whether a user with this uid exists.
pub open spec fn has_user_uid(users: Seq<User>, uid: u32) -> bool {
    exists|j: int| 0 <= j < users.len() && (#[trigger] users[j]).uid.uid == uid
}

/// Whether `j` is the position of the first user with this uid.
pub open spec fn is_first_uid_match(users: Seq<User>, uid: u32, j: int) -> bool {
    &&& 0 <= j < users.len()
    &&& users[j].uid.uid == uid
    &&& forall|k: int| 0 <= k < j ==> (#[trigger] users[k]).uid.uid != uid
}

/// Whether a group with this name exists.
pub open spec fn has_group_name(gs: Seq<Group>, name: Seq<char>) -> bool {
    exists|k: int| 0 <= k < gs.len() && (#[trigger] gs[k]).groupname.groupname@ == name
}

/// Whether `k` is the position of the first group with this name.
pub open spec fn is_first_group_name_match(gs: Seq<Group>, name: Seq<char>, k: int) -> bool {
    &&& 0 <= k < gs.len()
    &&& gs[k].groupname.groupname@ == name
    &&& forall|j: int| 0 <= j < k ==> (#[trigger] gs[j]).groupname.groupname@ != name
}

/// A positive gid count means such a group exists, and conversely.
proof fn lemma_count_gid_pos(gs: Seq<Group>, gid: u32)
    ensures
        (count_gid(gs, gid) > 0) == has_group_gid(gs, gid),
    decreases gs.len(),
{
    lemma_count_gid_nonneg(gs, gid);
    if gs.len() == 0 {
    } else {
        lemma_count_gid_pos(gs.drop_first(), gid);
        lemma_count_gid_nonneg(gs.drop_first(), gid);
        assert(forall|j: int|
            0 <= j < gs.drop_first().len() ==> #[trigger] gs.drop_first()[j] == gs[j + 1]);
        if gs[0].gid.gid == gid {
            assert(has_group_gid(gs, gid));
        } else {
            if has_group_gid(gs, gid) {
                let w = choose|w: int| 0 <= w < gs.len() && (#[trigger] gs[w]).gid.gid == gid;
                assert(gs.drop_first()[w - 1] == gs[w]);
                assert(has_group_gid(gs.drop_first(), gid));
            }
            if has_group_gid(gs.drop_first(), gid) {
                let w = choose|w: int|
                    0 <= w < gs.drop_first().len() && (#[trigger] gs.drop_first()[w]).gid.gid
                        == gid;
                assert(gs[w + 1] == gs.drop_first()[w]);
            }
        }
    }
}

/// The gid count depends only on the gid fields.
proof fn lemma_count_gid_same(a: Seq<Group>, b: Seq<Group>, gid: u32)
    requires
        a.len() == b.len(),
        forall|k: int| 0 <= k < a.len() ==> (#[trigger] a[k]).gid == b[k].gid,
    ensures
        count_gid(a, gid) == count_gid(b, gid),
    decreases a.len(),
{
    if a.len() > 0 {
        assert(forall|k: int|
            0 <= k < a.drop_first().len() ==> (#[trigger] a.drop_first()[k]) == a[k + 1]
                && b.drop_first()[k] == b[k + 1]);
        lemma_count_gid_same(a.drop_first(), b.drop_first(), gid);
    }
}

/// Everything of a group except its derived primary members.
pub open spec fn same_but_primary(a: Group, b: Group) -> bool {
    &&& a.pos == b.pos
    &&& a.source == b.source
    &&& a.groupname == b.groupname
    &&& a.password == b.password
    &&& a.gid == b.gid
    &&& a.members == b.members
}

/// How often `name` occurs in a stored member list.
pub open spec fn occurrences(ms: Seq<Username>, name: Seq<char>) -> nat
    decreases ms.len(),
{
    if ms.len() == 0 {
        0nat
    } else {
        (if ms[0].username@ == name {
            1nat
        } else {
            0nat
        }) + occurrences(ms.drop_first(), name)
    }
}

/// The member edges one group contributes for a user: one edge to
/// the group's gid per occurrence of the name in its stored list.
pub open spec fn group_member_edges(g: Group, name: Seq<char>) -> Seq<(MembershipKind, u32)> {
    Seq::new(occurrences(g.members@, name), |i: int| (MembershipKind::Member, g.gid.gid))
}

/// The member edges a user collects over the whole group list, in
/// group order.
pub open spec fn member_edges_for(gs: Seq<Group>, name: Seq<char>) -> Seq<(MembershipKind, u32)>
    decreases gs.len(),
{
    if gs.len() == 0 {
        Seq::<(MembershipKind, u32)>::empty()
    } else {
        group_member_edges(gs[0], name) + member_edges_for(gs.drop_first(), name)
    }
}

/// Whether no earlier user carries the same name; only the first
/// user of a name collects the membership edges.
pub open spec fn first_with_own_name(users: Seq<User>, j: int) -> bool {
    forall|k: int|
        0 <= k < j ==> (#[trigger] users[k]).username.username@ != users[j].username.username@
}

proof fn lemma_occurrences_push(ms: Seq<Username>, x: Username, name: Seq<char>)
    ensures
        occurrences(ms.push(x), name) == occurrences(ms, name) + (if x.username@ == name {
            1nat
        } else {
            0nat
        }),
    decreases ms.len(),
{
    if ms.len() == 0 {
        assert(ms.push(x)[0] == x);
        assert(ms.push(x).drop_first() =~= Seq::<Username>::empty());
        assert(occurrences(Seq::<Username>::empty(), name) == 0);
    } else {
        assert(ms.push(x)[0] == ms[0]);
        assert(ms.push(x).drop_first() =~= ms.drop_first().push(x));
        lemma_occurrences_push(ms.drop_first(), x, name);
    }
}

proof fn lemma_member_edges_push(gs: Seq<Group>, g: Group, name: Seq<char>)
    ensures
        member_edges_for(gs.push(g), name) == member_edges_for(gs, name) + group_member_edges(
            g,
            name,
        ),
    decreases gs.len(),
{
    if gs.len() == 0 {
        assert(gs.push(g)[0] == g);
        assert(gs.push(g).drop_first() =~= Seq::<Group>::empty());
        assert(member_edges_for(Seq::<Group>::empty(), name) =~= Seq::<
            (MembershipKind, u32),
        >::empty());
        assert(member_edges_for(gs.push(g), name) =~= group_member_edges(g, name));
        assert(member_edges_for(gs, name) + group_member_edges(g, name) =~= group_member_edges(
            g,
            name,
        ));
    } else {
        assert(gs.push(g)[0] == gs[0]);
        assert(gs.push(g).drop_first() =~= gs.drop_first().push(g));
        lemma_member_edges_push(gs.drop_first(), g, name);
        assert(member_edges_for(gs.push(g), name) =~= member_edges_for(gs, name)
            + group_member_edges(g, name));
    }
}

/// The member edges depend only on the stored member lists and gids.
proof fn lemma_member_edges_same(a: Seq<Group>, b: Seq<Group>, name: Seq<char>)
    requires
        a.len() == b.len(),
        forall|k: int|
            0 <= k < a.len() ==> (#[trigger] a[k]).members == b[k].members && a[k].gid == b[k].gid,
    ensures
        member_edges_for(a, name) == member_edges_for(b, name),
    decreases a.len(),
{
    if a.len() > 0 {
        assert(forall|k: int|
            0 <= k < a.drop_first().len() ==> (#[trigger] a.drop_first()[k]) == a[k + 1]
                && b.drop_first()[k] == b[k + 1]);
        lemma_member_edges_same(a.drop_first(), b.drop_first(), name);
        assert(group_member_edges(a[0], name) =~= group_member_edges(b[0], name));
        assert(member_edges_for(a, name) =~= member_edges_for(b, name));
    }
}

/// The edges a group's member-list prefix has contributed so far.
pub open spec fn partial_group_edges(g: Group, m: int, name: Seq<char>) -> Seq<
    (MembershipKind, u32),
> {
    Seq::new(occurrences(g.members@.take(m), name), |i: int| (MembershipKind::Member, g.gid.gid))
}

/// Links the explicit membership edges: the first user carrying each
/// listed name gets one `Member` edge to the group's gid per listing,
/// in group order.  Listed names without an account are ignored.
#[verifier::loop_isolation(false)]
fn link_member_edges(users: &mut Vec<User>, groups: &Vec<Group>)
    ensures
        final(users)@.len() == old(users)@.len(),
        forall|j: int|
            0 <= j < final(users)@.len() ==> same_but_groups(
                #[trigger] final(users)@[j],
                old(users)@[j],
            ),
        forall|j: int|
            0 <= j < final(users)@.len() ==> (#[trigger] final(users)@[j]).groups@ == old(
                users,
            )@[j].groups@ + (if first_with_own_name(old(users)@, j) {
                member_edges_for(groups@, old(users)@[j].username.username@)
            } else {
                Seq::<(MembershipKind, u32)>::empty()
            }),
{
    let ghost users0 = users@;
    let mut k: usize = 0;
    proof {
        assert(groups@.take(0) =~= Seq::<Group>::empty());
        assert forall|j: int| 0 <= j < users0.len() implies (#[trigger] users0[j]).groups@
            == users0[j].groups@ + (if first_with_own_name(users0, j) {
            member_edges_for(groups@.take(0), users0[j].username.username@)
        } else {
            Seq::<(MembershipKind, u32)>::empty()
        }) by {
            assert(users0[j].groups@ =~= users0[j].groups@
                + Seq::<(MembershipKind, u32)>::empty());
        }
    }
    while k < groups.len()
        invariant
            0 <= k <= groups@.len(),
            users@.len() == users0.len(),
            forall|j: int|
                0 <= j < users@.len() ==> same_but_groups(#[trigger] users@[j], users0[j]),
            forall|j: int|
                0 <= j < users@.len() ==> (#[trigger] users@[j]).groups@ == users0[j].groups@ + (
                if first_with_own_name(users0, j) {
                    member_edges_for(groups@.take(k as int), users0[j].username.username@)
                } else {
                    Seq::<(MembershipKind, u32)>::empty()
                }),
        decreases groups@.len() - k,
    {
        let gid = groups[k].gid.get_gid();
        let ghost g = groups@[k as int];
        let mut m: usize = 0;
        proof {
            assert(g.members@.take(0) =~= Seq::<Username>::empty());
            assert forall|nm: Seq<char>| partial_group_edges(g, 0, nm) =~= Seq::<
                (MembershipKind, u32),
            >::empty() by {}
        }
        while m < groups[k].members.len()
            invariant
                0 <= k < groups@.len(),
                g == groups@[k as int],
                gid == g.gid.gid,
                0 <= m <= g.members@.len(),
                users@.len() == users0.len(),
                forall|j: int|
                    0 <= j < users@.len() ==> same_but_groups(#[trigger] users@[j], users0[j]),
                forall|j: int|
                    0 <= j < users@.len() ==> (#[trigger] users@[j]).groups@ == users0[j].groups@
                        + (if first_with_own_name(users0, j) {
                        member_edges_for(groups@.take(k as int), users0[j].username.username@)
                            + partial_group_edges(g, m as int, users0[j].username.username@)
                    } else {
                        Seq::<(MembershipKind, u32)>::empty()
                    }),
            decreases g.members@.len() - m,
        {
            let member = groups[k].members[m].clone();
            proof {
                assert(g.members@.take(m + 1) =~= g.members@.take(m as int).push(
                    g.members@[m as int],
                ));
            }
            let found = find_user_index(users, member.value());
            match found {
                Some(j) => {
                    let ghost pre = users@;
                    let mut u = users.remove(j);
                    u.add_group(MembershipKind::Member, gid);
                    users.insert(j, u);
                    proof {
                        assert(users@ =~= pre.update(j as int, users@[j as int]));
                        assert(users@[j as int].groups@ == pre[j as int].groups@.push(
                            (MembershipKind::Member, gid),
                        ));
                        assert(first_with_own_name(users0, j as int)) by {
                            assert(forall|kk: int|
                                0 <= kk < users0.len() ==> (#[trigger] users0[kk]).username
                                    == pre[kk].username);
                        }
                        assert forall|jj: int|
                            0 <= jj < users@.len() implies (#[trigger] users@[jj]).groups@
                            == users0[jj].groups@ + (if first_with_own_name(users0, jj) {
                            member_edges_for(groups@.take(k as int), users0[jj].username.username@)
                                + partial_group_edges(g, m + 1, users0[jj].username.username@)
                        } else {
                            Seq::<(MembershipKind, u32)>::empty()
                        }) by {
                            let nm = users0[jj].username.username@;
                            lemma_occurrences_push(g.members@.take(m as int), g.members@[m as int], nm);
                            if jj == j {
                                assert(nm == member.username@);
                                assert(g.members@[m as int].username@ == nm);
                                assert(partial_group_edges(g, m + 1, nm) =~= partial_group_edges(
                                    g,
                                    m as int,
                                    nm,
                                ).push((MembershipKind::Member, gid)));
                                assert(users@[jj].groups@ =~= users0[jj].groups@ + (
                                member_edges_for(groups@.take(k as int), nm)
                                    + partial_group_edges(g, m + 1, nm)));
                            } else {
                                if users0[jj].username.username@ == member.username@ {
                                    // Another user of the same name is never the
                                    // first match, so it collects no edges.
                                    assert(pre[jj].username.username@ == member.username@);
                                    if jj < j {
                                        assert(false);
                                    }
                                    assert(!first_with_own_name(users0, jj)) by {
                                        assert(users0[j as int].username.username@ == nm);
                                    }
                                } else {
                                    assert(g.members@[m as int].username@ != nm);
                                    assert(partial_group_edges(g, m + 1, nm) =~= partial_group_edges(
                                        g,
                                        m as int,
                                        nm,
                                    ));
                                }
                                assert(users@[jj] == pre[jj]);
                            }
                        }
                    }
                },
                None => {
                    proof {
                        assert forall|jj: int|
                            0 <= jj < users@.len() implies (#[trigger] users@[jj]).groups@
                            == users0[jj].groups@ + (if first_with_own_name(users0, jj) {
                            member_edges_for(groups@.take(k as int), users0[jj].username.username@)
                                + partial_group_edges(g, m + 1, users0[jj].username.username@)
                        } else {
                            Seq::<(MembershipKind, u32)>::empty()
                        }) by {
                            let nm = users0[jj].username.username@;
                            lemma_occurrences_push(g.members@.take(m as int), g.members@[m as int], nm);
                            assert(users@[jj].username.username@ == nm);
                            assert(g.members@[m as int].username@ != nm);
                            assert(partial_group_edges(g, m + 1, nm) =~= partial_group_edges(
                                g,
                                m as int,
                                nm,
                            ));
                        }
                    }
                },
            }
            m += 1;
        }
        proof {
            assert(groups@.take(k + 1) =~= groups@.take(k as int).push(g));
            assert forall|j: int|
                0 <= j < users@.len() implies (#[trigger] users@[j]).groups@ == users0[j].groups@
                + (if first_with_own_name(users0, j) {
                member_edges_for(groups@.take(k + 1), users0[j].username.username@)
            } else {
                Seq::<(MembershipKind, u32)>::empty()
            }) by {
                let nm = users0[j].username.username@;
                lemma_member_edges_push(groups@.take(k as int), g, nm);
                assert(g.members@.take(g.members@.len() as int) =~= g.members@);
                assert(partial_group_edges(g, g.members@.len() as int, nm) =~= group_member_edges(
                    g,
                    nm,
                ));
            }
        }
        k += 1;
    }
    proof {
        assert(groups@.take(groups@.len() as int) =~= groups@);
    }
}

/// Links the primary membership: for every user, the unique group
/// whose gid equals the user's gid gets the user appended as a
/// derived member, and the user gets a `Primary` edge to it.  Zero or
/// several matching groups is a fatal load-time inconsistency.
#[verifier::loop_isolation(false)]
fn link_primary(users: &mut Vec<User>, groups: &mut Vec<Group>) -> (r: Result<(), UserLibError>)
    ensures
        final(users)@.len() == old(users)@.len(),
        final(groups)@.len() == old(groups)@.len(),
        forall|j: int|
            0 <= j < final(users)@.len() ==> same_but_groups(
                #[trigger] final(users)@[j],
                old(users)@[j],
            ),
        forall|j: int|
            0 <= j < final(users)@.len() ==> (#[trigger] final(users)@[j]).groups@.take(
                old(users)@[j].groups@.len() as int,
            ) == old(users)@[j].groups@,
        forall|k: int|
            0 <= k < final(groups)@.len() ==> same_but_primary(
                #[trigger] final(groups)@[k],
                old(groups)@[k],
            ),
        forall|k: int|
            0 <= k < final(groups)@.len() ==> (#[trigger] final(groups)@[k]).primary_members@.take(
                old(groups)@[k].primary_members@.len() as int,
            ) == old(groups)@[k].primary_members@,
        (r is Ok) <==> (forall|j: int|
            0 <= j < old(users)@.len() ==> count_gid(
                old(groups)@,
                (#[trigger] old(users)@[j]).gid.gid,
            ) == 1),
        r is Ok ==> forall|j: int|
            0 <= j < final(users)@.len() ==> (#[trigger] final(users)@[j]).groups@ == old(
                users,
            )@[j].groups@.push((MembershipKind::Primary, old(users)@[j].gid.gid)),
{
    let ghost users1 = users@;
    let ghost groups1 = groups@;
    let mut j: usize = 0;
    while j < users.len()
        invariant
            0 <= j <= users@.len(),
            users@.len() == users1.len(),
            groups@.len() == groups1.len(),
            forall|jj: int|
                0 <= jj < users@.len() ==> same_but_groups(#[trigger] users@[jj], users1[jj]),
            forall|jj: int|
                j <= jj < users@.len() ==> (#[trigger] users@[jj]).groups == users1[jj].groups,
            forall|jj: int|
                0 <= jj < j ==> (#[trigger] users@[jj]).groups@ == users1[jj].groups@.push(
                    (MembershipKind::Primary, users1[jj].gid.gid),
                ),
            forall|jj: int|
                0 <= jj < j ==> count_gid(groups1, (#[trigger] users1[jj]).gid.gid) == 1,
            forall|k: int|
                0 <= k < groups@.len() ==> same_but_primary(#[trigger] groups@[k], groups1[k]),
            forall|k: int|
                0 <= k < groups@.len() ==> (#[trigger] groups@[k]).primary_members@.take(
                    groups1[k].primary_members@.len() as int,
                ) == groups1[k].primary_members@,
            forall|k: int|
                0 <= k < groups@.len() ==> (#[trigger] groups@[k]).primary_members@.len()
                    >= groups1[k].primary_members@.len(),
        decreases users@.len() - j,
    {
        let gid = users[j].gid.get_gid();
        let cnt = count_groups_with_gid(groups, gid);
        proof {
            lemma_count_gid_same(groups@, groups1, gid);
        }
        if cnt != 1 {
            proof {
                assert(count_gid(groups1, users1[j as int].gid.gid) != 1);
            }
            return Err(UserLibError::from_string(
                "No unique group with gid ".to_owned().concat(
                    crate::numbers::u32_to_string(gid).as_str(),
                ),
            ));
        }
        let k = match find_group_index_by_gid(groups, gid) {
            Some(k) => k,
            None => {
                proof {
                    lemma_count_gid_pos(groups@, gid);
                }
                return Err(UserLibError::from("No group with this gid"));
            },
        };
        let member = Username { username: users[j].username.username.clone() };
        let ghost gpre = groups@;
        let mut g = groups.remove(k);
        g.append_user(member);
        groups.insert(k, g);
        proof {
            assert(groups@ =~= gpre.update(k as int, groups@[k as int]));
            assert(groups@[k as int].primary_members@ == gpre[
                k as int
            ].primary_members@.push(member));
            assert(gpre[k as int].primary_members@.take(
                groups1[k as int].primary_members@.len() as int,
            ) == groups1[k as int].primary_members@);
            assert(groups@[k as int].primary_members@.take(
                groups1[k as int].primary_members@.len() as int,
            ) =~= groups1[k as int].primary_members@);
        }
        let ghost pre = users@;
        let mut u = users.remove(j);
        u.add_group(MembershipKind::Primary, gid);
        users.insert(j, u);
        proof {
            assert(users@ =~= pre.update(j as int, users@[j as int]));
        }
        j += 1;
    }
    Ok(())
}

/// Derives the membership index: explicit member edges first, then
/// the unique primary edge of every user.
fn groups_to_users(users: &mut Vec<User>, groups: &mut Vec<Group>) -> (r: Result<
    (),
    UserLibError,
>)
    ensures
        final(users)@.len() == old(users)@.len(),
        final(groups)@.len() == old(groups)@.len(),
        forall|j: int|
            0 <= j < final(users)@.len() ==> same_but_groups(
                #[trigger] final(users)@[j],
                old(users)@[j],
            ),
        forall|k: int|
            0 <= k < final(groups)@.len() ==> same_but_primary(
                #[trigger] final(groups)@[k],
                old(groups)@[k],
            ),
        (r is Ok) <==> (forall|j: int|
            0 <= j < old(users)@.len() ==> count_gid(
                old(groups)@,
                (#[trigger] old(users)@[j]).gid.gid,
            ) == 1),
        r is Ok ==> forall|j: int|
            0 <= j < final(users)@.len() ==> (#[trigger] final(users)@[j]).groups@ == (old(
                users,
            )@[j].groups@ + (if first_with_own_name(old(users)@, j) {
                member_edges_for(old(groups)@, old(users)@[j].username.username@)
            } else {
                Seq::<(MembershipKind, u32)>::empty()
            })).push((MembershipKind::Primary, old(users)@[j].gid.gid)),
{
    link_member_edges(users, groups);
    let ghost mid = users@;
    proof {
        assert(forall|j: int|
            0 <= j < users@.len() ==> (#[trigger] users@[j]).gid == old(users)@[j].gid);
    }
    let r = link_primary(users, groups);
    proof {
        if r is Ok {
            assert forall|j: int|
                0 <= j < users@.len() implies (#[trigger] users@[j]).groups@ == (old(
                users,
            )@[j].groups@ + (if first_with_own_name(old(users)@, j) {
                member_edges_for(old(groups)@, old(users)@[j].username.username@)
            } else {
                Seq::<(MembershipKind, u32)>::empty()
            })).push((MembershipKind::Primary, old(users)@[j].gid.gid)) by {
                assert(users@[j].groups@ == mid[j].groups@.push(
                    (MembershipKind::Primary, mid[j].gid.gid),
                ));
                assert(mid[j].gid == old(users)@[j].gid);
                assert(mid[j].groups@ == old(users)@[j].groups@ + (if first_with_own_name(
                    old(users)@,
                    j,
                ) {
                    member_edges_for(old(groups)@, old(users)@[j].username.username@)
                } else {
                    Seq::<(MembershipKind, u32)>::empty()
                }));
            }
        }
        if r is Ok {
            assert forall|j: int|
                0 <= j < old(users)@.len() implies count_gid(
                old(groups)@,
                (#[trigger] old(users)@[j]).gid.gid,
            ) == 1 by {
                assert(mid[j].gid == old(users)@[j].gid);
                assert(count_gid(old(groups)@, mid[j].gid.gid) == 1);
            }
        } else {
            if (forall|j: int|
                0 <= j < old(users)@.len() ==> count_gid(
                    old(groups)@,
                    (#[trigger] old(users)@[j]).gid.gid,
                ) == 1) {
                assert forall|j: int|
                    0 <= j < mid.len() implies count_gid(
                    old(groups)@,
                    (#[trigger] mid[j]).gid.gid,
                ) == 1 by {
                    assert(mid[j].gid == old(users)@[j].gid);
                    assert(count_gid(old(groups)@, old(users)@[j].gid.gid) == 1);
                }
                assert(r is Ok);
            }
        }
    }
    match r {
        Ok(()) => Ok(()),
        Err(e) => Err(e),
    }
}

impl UserDBLocal {
    /// Builds the database from the contents of the three files,
    /// without any backing files: a virtual instance whose writes
    /// mutate memory only.  A malformed line, a shadow record without
    /// its user, or a user without a unique primary group aborts the
    /// whole load.
    pub fn import_from_strings(
        passwd_content: &str,
        shadow_content: &str,
        group_content: &str,
    ) -> (r: Result<UserDBLocal, UserLibError>)
        ensures
            r matches Ok(db) ==> {
                &&& db.source_files.passwd is None
                &&& db.source_files.shadow is None
                &&& db.source_files.group is None
                &&& db.source_hashes.passwd.hashvalue@ == passwd_content@
                &&& db.source_hashes.shadow.hashvalue@ == shadow_content@
                &&& db.source_hashes.group.hashvalue@ == group_content@
                &&& users_from_content(db.users@, passwd_content@)
                &&& groups_from_content(db.groups@, group_content@)
                &&& forall|j: int|
                    0 <= j < db.users@.len() ==> count_gid(
                        db.groups@,
                        (#[trigger] db.users@[j]).gid.gid,
                    ) == 1
                &&& forall|j: int|
                    0 <= j < db.users@.len() ==> (#[trigger] db.users@[j]).groups@ == (
                    if first_with_own_name(db.users@, j) {
                        member_edges_for(db.groups@, db.users@[j].username.username@)
                    } else {
                        Seq::<(MembershipKind, u32)>::empty()
                    }).push((MembershipKind::Primary, db.users@[j].gid.gid))
                &&& forall|j: int|
                    0 <= j < db.users@.len() ==> {
                        let slines = split_on(shadow_content@, '\n');
                        let skept = kept_from(slines, 0);
                        let li = last_kept_match(
                            slines,
                            skept,
                            (#[trigger] db.users@[j]).username.username@,
                        );
                        if first_with_own_name(db.users@, j) && li >= 0 {
                            db.users@[j].password matches Password::Shadow(sh)
                                && shadow_matches(&sh, slines[skept[li]], skept[li] as u32)
                        } else {
                            db.users@[j].password matches Password::Encrypted(ep) && ep.password@
                                == split_on(db.users@[j].source@, ':')[1]
                        }
                    }
            },
            ({
                let lines = split_on(passwd_content@, '\n');
                let kept = kept_from(lines, 0);
                exists|j: int| 0 <= j < kept.len() && !user_line_ok(lines[#[trigger] kept[j]])
            }) ==> r is Err,
            ({
                let lines = split_on(shadow_content@, '\n');
                let kept = kept_from(lines, 0);
                exists|j: int| 0 <= j < kept.len() && !shadow_line_ok(lines[#[trigger] kept[j]])
            }) ==> r is Err,
            ({
                let lines = split_on(group_content@, '\n');
                let kept = kept_from(lines, 0);
                exists|j: int| 0 <= j < kept.len() && !group_line_ok(lines[#[trigger] kept[j]])
            }) ==> r is Err,
            contents_consistent(passwd_content@, shadow_content@, group_content@) ==> r is Ok,
    {
        let mut users = match string_to::<User>(passwd_content) {
            Ok(v) => v,
            Err(e) => {
                return Err(e);
            },
        };
        let shadow_entries = match string_to::<Shadow>(shadow_content) {
            Ok(v) => v,
            Err(e) => {
                return Err(e);
            },
        };
        let mut groups = match string_to::<Group>(group_content) {
            Ok(v) => v,
            Err(e) => {
                return Err(e);
            },
        };
        let ghost u0 = users@;
        let ghost g0 = groups@;
        let ghost sv = shadow_entries@;
        match shadow_to_users(&mut users, shadow_entries) {
            Ok(()) => {},
            Err(e) => {
                proof {
                    let plines = split_on(passwd_content@, '\n');
                    let pkept = kept_from(plines, 0);
                    let slines = split_on(shadow_content@, '\n');
                    let skept = kept_from(slines, 0);
                    if (forall|i: int|
                        0 <= i < skept.len() ==> exists|j: int|
                            0 <= j < pkept.len() && split_on(plines[#[trigger] pkept[j]], ':')[0]
                                == split_on(slines[#[trigger] skept[i]], ':')[0]) {
                        let bad = choose|i: int|
                            0 <= i < sv.len() && !has_user(
                                u0,
                                (#[trigger] sv[i]).username.username@,
                            );
                        assert(sv[bad].matches_line(slines[skept[bad]], skept[bad] as u32));
                        let w = choose|j: int|
                            0 <= j < pkept.len() && split_on(plines[#[trigger] pkept[j]], ':')[0]
                                == split_on(slines[skept[bad]], ':')[0];
                        assert(u0[w].matches_line(plines[pkept[w]], pkept[w] as u32));
                        assert(u0[w].username.username@ == sv[bad].username.username@);
                        assert(has_user(u0, sv[bad].username.username@));
                        assert(false);
                    }
                }
                return Err(e);
            },
        }
        let ghost u1 = users@;
        match groups_to_users(&mut users, &mut groups) {
            Ok(()) => {},
            Err(e) => {
                proof {
                    let plines = split_on(passwd_content@, '\n');
                    let pkept = kept_from(plines, 0);
                    let glines = split_on(group_content@, '\n');
                    let gkept = kept_from(glines, 0);
                    if (forall|j: int|
                        0 <= j < pkept.len() ==> count_kept_gid(
                            glines,
                            gkept,
                            dec_val(split_on(plines[#[trigger] pkept[j]], ':')[3]) as u32,
                        ) == 1) {
                        let bad = choose|j: int|
                            0 <= j < u1.len() && count_gid(
                                g0,
                                (#[trigger] u1[j]).gid.gid,
                            ) != 1;
                        assert(same_but_password(u1[bad], u0[bad]));
                        assert(u0[bad].matches_line(plines[pkept[bad]], pkept[bad] as u32));
                        let gid = u1[bad].gid.gid;
                        assert(gid == dec_val(split_on(plines[pkept[bad]], ':')[3]));
                        assert(gid == dec_val(split_on(plines[pkept[bad]], ':')[3]) as u32);
                        assert forall|i: int|
                            0 <= i < g0.len() implies (#[trigger] g0[i]).gid.gid == dec_val(
                            split_on(glines[gkept[i]], ':')[2],
                        ) by {
                            assert(g0[i].matches_line(glines[gkept[i]], gkept[i] as u32));
                        }
                        lemma_count_gid_agree(glines, gkept, g0, gid);
                        assert(count_kept_gid(glines, gkept, gid) == 1);
                        assert(false);
                    }
                }
                return Err(e);
            },
        }
        proof {
            let plines = split_on(passwd_content@, '\n');
            let pkept = kept_from(plines, 0);
            assert forall|j: int|
                0 <= j < pkept.len() implies user_from_line(
                users@[j],
                plines[#[trigger] pkept[j]],
                pkept[j] as u32,
            ) by {
                assert(user_matches(&u0[j], plines[pkept[j]], pkept[j] as u32));
                assert(same_but_password(u1[j], u0[j]));
                assert(same_but_groups(users@[j], u1[j]));
            }
            let glines = split_on(group_content@, '\n');
            let gkept = kept_from(glines, 0);
            assert forall|k: int|
                0 <= k < gkept.len() implies group_from_line(
                groups@[k],
                glines[#[trigger] gkept[k]],
                gkept[k] as u32,
            ) by {
                assert(group_matches(&g0[k], glines[gkept[k]], gkept[k] as u32));
                assert(same_but_primary(groups@[k], g0[k]));
            }
            assert forall|j: int|
                0 <= j < users@.len() implies count_gid(
                groups@,
                (#[trigger] users@[j]).gid.gid,
            ) == 1 by {
                assert(same_but_groups(users@[j], u1[j]));
                assert(count_gid(g0, u1[j].gid.gid) == 1);
                lemma_count_gid_same(groups@, g0, u1[j].gid.gid);
            }
            let slines = split_on(shadow_content@, '\n');
            let skept = kept_from(slines, 0);
            assert forall|j: int|
                0 <= j < users@.len() implies {
                let li = last_kept_match(slines, skept, (#[trigger] users@[j]).username.username@);
                if first_with_own_name(users@, j) && li >= 0 {
                    users@[j].password matches Password::Shadow(sh) && shadow_matches(
                        &sh,
                        slines[skept[li]],
                        skept[li] as u32,
                    )
                } else {
                    users@[j].password matches Password::Encrypted(ep) && ep.password@ == split_on(
                        users@[j].source@,
                        ':',
                    )[1]
                }
            } by {
                let nm = users@[j].username.username@;
                assert(users@[j].username == u1[j].username && u1[j].username == u0[j].username);
                assert(users@[j].password == u1[j].password);
                assert(users@[j].source == u0[j].source);
                assert(first_with_own_name(u0, j) == first_with_own_name(users@, j)) by {
                    assert(forall|kk: int|
                        0 <= kk < users@.len() ==> (#[trigger] users@[kk]).username
                            == u0[kk].username);
                }
                assert forall|i: int|
                    0 <= i < sv.len() implies (#[trigger] sv[i]).username.username@ == split_on(
                    slines[skept[i]],
                    ':',
                )[0] by {
                    assert(sv[i].matches_line(slines[skept[i]], skept[i] as u32));
                }
                lemma_last_match_agree(slines, skept, sv, nm);
                lemma_last_shadow_range(sv, nm);
                let li = last_kept_match(slines, skept, nm);
                if first_with_own_name(u0, j) && li >= 0 {
                    assert(u1[j].password == Password::Shadow(sv[li]));
                    assert(sv[li].matches_line(slines[skept[li]], skept[li] as u32));
                } else {
                    assert(u1[j].password == u0[j].password);
                    let plines = split_on(passwd_content@, '\n');
                    let pkept = kept_from(plines, 0);
                    assert(user_matches(&u0[j], plines[pkept[j]], pkept[j] as u32));
                }
            }
            assert forall|j: int|
                0 <= j < users@.len() implies (#[trigger] users@[j]).groups@ == (
            if first_with_own_name(users@, j) {
                member_edges_for(groups@, users@[j].username.username@)
            } else {
                Seq::<(MembershipKind, u32)>::empty()
            }).push((MembershipKind::Primary, users@[j].gid.gid)) by {
                let nm = users@[j].username.username@;
                assert(users@[j].username == u1[j].username);
                assert(users@[j].gid == u1[j].gid);
                assert(u1[j].groups == u0[j].groups);
                assert(u0[j].groups@.len() == 0);
                assert(users@[j].groups@ == (u1[j].groups@ + (if first_with_own_name(u1, j) {
                    member_edges_for(g0, u1[j].username.username@)
                } else {
                    Seq::<(MembershipKind, u32)>::empty()
                })).push((MembershipKind::Primary, u1[j].gid.gid)));
                assert(first_with_own_name(u1, j) == first_with_own_name(users@, j)) by {
                    assert(forall|kk: int|
                        0 <= kk < users@.len() ==> (#[trigger] users@[kk]).username
                            == u1[kk].username);
                }
                lemma_member_edges_same(g0, groups@, nm);
                assert(u1[j].groups@ + member_edges_for(g0, nm) =~= member_edges_for(groups@, nm));
                assert(u1[j].groups@ + Seq::<(MembershipKind, u32)>::empty() =~= Seq::<
                    (MembershipKind, u32),
                >::empty());
            }
        }
        Ok(
            UserDBLocal {
                source_files: Files { passwd: None, shadow: None, group: None },
                source_hashes: Hashes::new(passwd_content, shadow_content, group_content),
                users,
                groups,
            },
        )
    }

    /// Builds a file-backed database from the given paths and the
    /// contents read from them.  The embedding program reads the
    /// three files under the lock protocol and hands their text here;
    /// the paths must all be present.
    pub fn load_files(
        files: Files,
        passwd_content: &str,
        shadow_content: &str,
        group_content: &str,
    ) -> (r: Result<UserDBLocal, UserLibError>)
        ensures
            (files.passwd is None || files.shadow is None || files.group is None) ==> (r
                matches Err(e) && e is FilesRequired),
            r matches Ok(db) ==> {
                &&& db.source_files == files
                &&& db.source_hashes.passwd.hashvalue@ == passwd_content@
                &&& db.source_hashes.shadow.hashvalue@ == shadow_content@
                &&& db.source_hashes.group.hashvalue@ == group_content@
                &&& users_from_content(db.users@, passwd_content@)
                &&& groups_from_content(db.groups@, group_content@)
                &&& forall|j: int|
                    0 <= j < db.users@.len() ==> count_gid(
                        db.groups@,
                        (#[trigger] db.users@[j]).gid.gid,
                    ) == 1
                &&& forall|j: int|
                    0 <= j < db.users@.len() ==> (#[trigger] db.users@[j]).groups@ == (
                    if first_with_own_name(db.users@, j) {
                        member_edges_for(db.groups@, db.users@[j].username.username@)
                    } else {
                        Seq::<(MembershipKind, u32)>::empty()
                    }).push((MembershipKind::Primary, db.users@[j].gid.gid))
                &&& forall|j: int|
                    0 <= j < db.users@.len() ==> {
                        let slines = split_on(shadow_content@, '\n');
                        let skept = kept_from(slines, 0);
                        let li = last_kept_match(
                            slines,
                            skept,
                            (#[trigger] db.users@[j]).username.username@,
                        );
                        if first_with_own_name(db.users@, j) && li >= 0 {
                            db.users@[j].password matches Password::Shadow(sh)
                                && shadow_matches(&sh, slines[skept[li]], skept[li] as u32)
                        } else {
                            db.users@[j].password matches Password::Encrypted(ep) && ep.password@
                                == split_on(db.users@[j].source@, ':')[1]
                        }
                    }
            },
            (files.passwd is Some && files.shadow is Some && files.group is Some
                && contents_consistent(passwd_content@, shadow_content@, group_content@)) ==> r
                is Ok,
    {
        if files.is_virtual() {
            return Err(UserLibError::FilesRequired);
        }
        let import_result = Self::import_from_strings(
            passwd_content,
            shadow_content,
            group_content,
        );
        let mut db = match import_result {
            Ok(db) => db,
            Err(e) => {
                return Err(e);
            },
        };
        db.source_files = files;
        Ok(db)
    }

    /// Every user, in load order (the original line order, with any
    /// created user at the end).
    pub fn get_all_users(&self) -> (r: &Vec<User>)
        ensures
            r == &self.users,
    {
        &self.users
    }

    /// The first user with this name.
    pub fn get_user_by_name(&self, name: &str) -> (r: Option<&User>)
        ensures
            match r {
                Some(u) => exists|j: int|
                    #[trigger] is_first_user_match(self.users@, name@, j) && *u == self.users@[j],
                None => !has_user(self.users@, name@),
            },
    {
        match find_user_index(&self.users, name) {
            Some(j) => {
                proof {
                    assert(is_first_user_match(self.users@, name@, j as int));
                }
                Some(&self.users[j])
            },
            None => None,
        }
    }

    /// The first user with this uid.
    pub fn get_user_by_id(&self, uid: u32) -> (r: Option<&User>)
        ensures
            match r {
                Some(u) => exists|j: int|
                    #[trigger] is_first_uid_match(self.users@, uid, j) && *u == self.users@[j],
                None => !has_user_uid(self.users@, uid),
            },
    {
        let mut j: usize = 0;
        while j < self.users.len()
            invariant
                0 <= j <= self.users@.len(),
                forall|k: int| 0 <= k < j ==> (#[trigger] self.users@[k]).uid.uid != uid,
            decreases self.users@.len() - j,
        {
            if self.users[j].uid.get_uid() == uid {
                proof {
                    assert(is_first_uid_match(self.users@, uid, j as int));
                }
                return Some(&self.users[j]);
            }
            j += 1;
        }
        None
    }

    /// Every group, in load order.
    pub fn get_all_groups(&self) -> (r: &Vec<Group>)
        ensures
            r == &self.groups,
    {
        &self.groups
    }

    /// The first group with this name.
    pub fn get_group_by_name(&self, name: &str) -> (r: Option<&Group>)
        ensures
            match r {
                Some(g) => exists|k: int|
                    #[trigger] is_first_group_name_match(self.groups@, name@, k) && *g
                        == self.groups@[k],
                None => !has_group_name(self.groups@, name@),
            },
    {
        let mut k: usize = 0;
        while k < self.groups.len()
            invariant
                0 <= k <= self.groups@.len(),
                forall|j: int|
                    0 <= j < k ==> (#[trigger] self.groups@[j]).groupname.groupname@ != name@,
            decreases self.groups@.len() - k,
        {
            if str_eq(self.groups[k].groupname.value(), name) {
                proof {
                    assert(is_first_group_name_match(self.groups@, name@, k as int));
                }
                return Some(&self.groups[k]);
            }
            k += 1;
        }
        None
    }

    /// The first group with this gid.
    pub fn get_group_by_id(&self, id: u32) -> (r: Option<&Group>)
        ensures
            match r {
                Some(g) => exists|k: int|
                    #[trigger] is_first_group_gid_match(self.groups@, id, k) && *g
                        == self.groups@[k],
                None => !has_group_gid(self.groups@, id),
            },
    {
        match find_group_index_by_gid(&self.groups, id) {
            Some(k) => {
                proof {
                    assert(is_first_group_gid_match(self.groups@, id, k as int));
                }
                Some(&self.groups[k])
            },
            None => None,
        }
    }

    /// Whether this uid is unused.  Format validity of a uid is its
    /// numeric range, which the type grants; only freeness is tested.
    pub fn is_uid_valid_and_free(&self, uid: u32) -> (r: bool)
        ensures
            r == !has_user_uid(self.users@, uid),
    {
        let mut j: usize = 0;
        while j < self.users.len()
            invariant
                0 <= j <= self.users@.len(),
                forall|k: int| 0 <= k < j ==> (#[trigger] self.users@[k]).uid.uid != uid,
            decreases self.users@.len() - j,
        {
            if self.users[j].uid.get_uid() == uid {
                return false;
            }
            j += 1;
        }
        true
    }

    /// Whether this name matches the username pattern and is unused.
    pub fn is_username_valid_and_free(&self, name: &str) -> (r: bool)
        ensures
            r == (is_username_valid_spec(name@) && !has_user(self.users@, name@)),
    {
        let valid = is_username_valid(name);
        if !valid {
            return false;
        }
        match find_user_index(&self.users, name) {
            Some(_) => false,
            None => true,
        }
    }

    /// Whether this gid is unused.  Format validity of a gid is its
    /// numeric range, which the type grants; only freeness is tested.
    pub fn is_gid_valid_and_free(&self, gid: u32) -> (r: bool)
        ensures
            r == !has_group_gid(self.groups@, gid),
    {
        match find_group_index_by_gid(&self.groups, gid) {
            Some(_) => false,
            None => true,
        }
    }

    /// Whether this name matches the group-name pattern and is
    /// unused.
    pub fn is_groupname_valid_and_free(&self, name: &str) -> (r: bool)
        ensures
            r == (is_username_valid_spec(name@) && !has_group_name(self.groups@, name@)),
    {
        let valid = is_groupname_valid(name);
        if !valid {
            return false;
        }
        let mut k: usize = 0;
        while k < self.groups.len()
            invariant
                0 <= k <= self.groups@.len(),
                forall|j: int|
                    0 <= j < k ==> (#[trigger] self.groups@[j]).groupname.groupname@ != name@,
            decreases self.groups@.len() - k,
        {
            if str_eq(self.groups[k].groupname.value(), name) {
                return false;
            }
            k += 1;
        }
        true
    }
}


/// The abstract value of a group: the write paths are specified over
/// these, so that what the cascade does and what the group file must
/// hold afterwards is stated mathematically.
pub struct GroupModel {
    pub pos: u32,
    pub source: Seq<char>,
    pub name: Seq<char>,
    pub gid: u32,
    pub members: Seq<Seq<char>>,
    pub primary_members: Seq<Seq<char>>,
}

/// The abstract value of one group record.
pub open spec fn group_model(g: Group) -> GroupModel {
    GroupModel {
        pos: g.pos,
        source: g.source@,
        name: g.groupname.groupname@,
        gid: g.gid.gid,
        members: member_views(g.members@),
        primary_members: member_views(g.primary_members@),
    }
}

/// The abstract values of a group list.
pub open spec fn groups_model(gs: Seq<Group>) -> Seq<GroupModel> {
    Seq::new(gs.len(), |k: int| group_model(gs[k]))
}

/// The persisted lines of the groups, in order.
pub open spec fn model_sources(gs: Seq<GroupModel>) -> Seq<Seq<char>> {
    Seq::new(gs.len(), |k: int| gs[k].source)
}

/// The colon-joined rendering of an abstract group; only stored
/// members are written.
pub open spec fn model_format(g: GroupModel) -> Seq<char> {
    join_with(
        seq![g.name, "x"@, dec_str(g.gid as int), join_with(g.members, ',')],
        ':',
    )
}

/// The index of the first abstract group with this gid, or -1.
pub open spec fn model_index_by_gid(gs: Seq<GroupModel>, gid: u32) -> int
    decreases gs.len(),
{
    if gs.len() == 0 {
        -1
    } else if gs[0].gid == gid {
        0
    } else {
        let r = model_index_by_gid(gs.drop_first(), gid);
        if r == -1 {
            -1
        } else {
            r + 1
        }
    }
}

proof fn lemma_model_index_is(gs: Seq<GroupModel>, gid: u32, k: int)
    requires
        0 <= k < gs.len(),
        gs[k].gid == gid,
        forall|j: int| 0 <= j < k ==> (#[trigger] gs[j]).gid != gid,
    ensures
        model_index_by_gid(gs, gid) == k,
    decreases k,
{
    if k == 0 {
    } else {
        assert(gs[0].gid != gid);
        assert(forall|j: int|
            0 <= j < gs.drop_first().len() ==> #[trigger] gs.drop_first()[j] == gs[j + 1]);
        lemma_model_index_is(gs.drop_first(), gid, k - 1);
    }
}

proof fn lemma_model_index_none(gs: Seq<GroupModel>, gid: u32)
    requires
        forall|j: int| 0 <= j < gs.len() ==> (#[trigger] gs[j]).gid != gid,
    ensures
        model_index_by_gid(gs, gid) == -1,
    decreases gs.len(),
{
    if gs.len() > 0 {
        assert(forall|j: int|
            0 <= j < gs.drop_first().len() ==> #[trigger] gs.drop_first()[j] == gs[j + 1]);
        lemma_model_index_none(gs.drop_first(), gid);
    }
}

/// One step of the deletion cascade, on the abstract groups: the
/// first group with the edge's gid either loses the whole record
/// (a primary edge whose group would be left empty), loses the user
/// from its derived members (any other primary edge), or loses the
/// user from its stored members and has its persisted line rewritten
/// (a member edge).  An edge whose gid no longer resolves changes
/// nothing.
pub open spec fn cascade_step(
    gs: Seq<GroupModel>,
    kind: MembershipKind,
    gid: u32,
    name: Seq<char>,
) -> Seq<GroupModel> {
    let k = model_index_by_gid(gs, gid);
    if k == -1 {
        gs
    } else {
        let g = gs[k];
        match kind {
            MembershipKind::Primary => {
                if g.members.len() + g.primary_members.len() == 1 {
                    gs.remove(k)
                } else {
                    gs.update(
                        k,
                        GroupModel { primary_members: drop_matching(g.primary_members, name), ..g },
                    )
                }
            },
            MembershipKind::Member => {
                let g2 = GroupModel { members: drop_matching(g.members, name), ..g };
                gs.update(k, GroupModel { source: model_format(g2), ..g2 })
            },
        }
    }
}

/// The deletion cascade: one step per membership edge, in edge order.
pub open spec fn apply_cascade(
    gs: Seq<GroupModel>,
    edges: Seq<(MembershipKind, u32)>,
    name: Seq<char>,
) -> Seq<GroupModel>
    decreases edges.len(),
{
    if edges.len() == 0 {
        gs
    } else {
        apply_cascade(cascade_step(gs, edges[0].0, edges[0].1, name), edges.drop_first(), name)
    }
}

/// Runs the deletion cascade on the in-memory groups.
#[verifier::loop_isolation(false)]
fn cascade_delete(groups: &mut Vec<Group>, edges: &Vec<(MembershipKind, u32)>, name: &str)
    ensures
        groups_model(final(groups)@) == apply_cascade(
            groups_model(old(groups)@),
            edges@,
            name@,
        ),
{
    let mut e: usize = 0;
    proof {
        assert(edges@.skip(0) =~= edges@);
    }
    while e < edges.len()
        invariant
            0 <= e <= edges@.len(),
            apply_cascade(groups_model(old(groups)@), edges@, name@) == apply_cascade(
                groups_model(groups@),
                edges@.skip(e as int),
                name@,
            ),
        decreases edges@.len() - e,
    {
        proof {
            assert(edges@.skip(e as int)[0] == edges@[e as int]);
            assert(edges@.skip(e as int).drop_first() =~= edges@.skip(e + 1));
        }
        let kind = edges[e].0;
        let gid = edges[e].1;
        let ghost gpre = groups@;
        let ghost pre = groups_model(groups@);
        match find_group_index_by_gid(groups, gid) {
            None => {
                proof {
                    assert forall|j: int| 0 <= j < pre.len() implies (#[trigger] pre[j]).gid
                        != gid by {
                        assert(pre[j] == group_model(gpre[j]));
                    }
                    lemma_model_index_none(pre, gid);
                    assert(cascade_step(pre, kind, gid, name@) == pre);
                }
            },
            Some(k) => {
                proof {
                    assert forall|j: int| 0 <= j < k implies (#[trigger] pre[j]).gid != gid by {
                        assert(pre[j] == group_model(gpre[j]));
                    }
                    assert(pre[k as int] == group_model(gpre[k as int]));
                    lemma_model_index_is(pre, gid, k as int);
                }
                match kind {
                    MembershipKind::Primary => {
                        let stored = groups[k].members.len();
                        let derived = groups[k].primary_members.len();
                        let sole = (stored == 1 && derived == 0) || (stored == 0 && derived == 1);
                        if sole {
                            groups.remove(k);
                            proof {
                                assert(groups_model(groups@) =~~= pre.remove(k as int));
                                assert(groups_model(groups@) =~~= cascade_step(
                                    pre,
                                    kind,
                                    gid,
                                    name@,
                                ));
                            }
                        } else {
                            let mut g = groups.remove(k);
                            g.remove_member(MembershipKind::Primary, name);
                            groups.insert(k, g);
                            proof {
                                assert(groups@ =~= gpre.update(k as int, groups@[k as int]));
                                lemma_member_views_drop(gpre[k as int].primary_members@, name@);
                                assert(member_views(groups@[k as int].primary_members@)
                                    == drop_matching(pre[k as int].primary_members, name@));
                                assert(groups_model(groups@) =~~= cascade_step(
                                    pre,
                                    kind,
                                    gid,
                                    name@,
                                ));
                            }
                        }
                    },
                    MembershipKind::Member => {
                        let mut g = groups.remove(k);
                        g.remove_member(MembershipKind::Member, name);
                        groups.insert(k, g);
                        proof {
                            assert(groups@ =~= gpre.update(k as int, groups@[k as int]));
                            lemma_member_views_drop(gpre[k as int].members@, name@);
                            assert(member_views(groups@[k as int].members@) == drop_matching(
                                pre[k as int].members,
                                name@,
                            ));
                            assert(groups@[k as int].source@ == group_format(
                                &groups@[k as int],
                            ));
                            assert(groups_model(groups@) =~~= cascade_step(pre, kind, gid, name@));
                        }
                    },
                }
            },
        }
        proof {
            assert(groups_model(groups@) == cascade_step(pre, kind, gid, name@));
        }
        e += 1;
    }
    proof {
        assert(edges@.skip(edges@.len() as int) =~= Seq::<(MembershipKind, u32)>::empty());
    }
}



/// What the delete write path hands back for persisting: the new
/// passwd text, the new shadow text when the user had a shadow entry,
/// and the new group text after the cascade.
pub struct DeletePlan {
    pub new_passwd: String,
    pub new_shadow: Option<String>,
    pub new_group: String,
}

/// The account a creation starts from, under the requested name:
/// the default record with only the username replaced.
pub open spec fn is_default_user_named(u: User, name: Seq<char>) -> bool {
    &&& u.username.username@ == name
    &&& u.source@ == Seq::<char>::empty()
    &&& u.pos == u32::MAX
    &&& u.password is Disabled
    &&& u.uid.uid == 1001
    &&& u.gid.gid == 1001
    &&& (u.gecos matches crate::user::gecos_fields::Gecos::Simple { comment } && comment@
        == Seq::<char>::empty())
    &&& u.home_dir.dir@ == "/"@
    &&& u.shell_path.shell@ == "/bin/nologin"@
    &&& u.groups@.len() == 0
}

fn make_default_user(name: &str) -> (u: User)
    ensures
        is_default_user_named(u, name@),
{
    let mut u = User::default();
    u.username(name.to_owned());
    u
}

impl UserDBLocal {
    /// The group file text that reflects the in-memory groups: every
    /// group's persisted line, joined with newlines.  Untouched
    /// groups keep their original lines verbatim; groups whose stored
    /// member list was edited carry their rewritten lines.
    pub fn write_groups(&self) -> (r: String)
        ensures
            r@ == join_with(model_sources(groups_model(self.groups@)), '\n'),
    {
        let mut lines: Vec<String> = Vec::new();
        let mut k: usize = 0;
        proof {
            assert(lines.deep_view() =~= model_sources(groups_model(self.groups@)).take(0));
        }
        while k < self.groups.len()
            invariant
                0 <= k <= self.groups@.len(),
                lines.deep_view() == model_sources(groups_model(self.groups@)).take(k as int),
            decreases self.groups@.len() - k,
        {
            let ghost prev = lines.deep_view();
            lines.push(self.groups[k].source.clone());
            proof {
                assert(lines.deep_view() =~= prev + seq![self.groups@[k as int].source@]);
                assert(lines.deep_view() =~= model_sources(groups_model(self.groups@)).take(
                    k + 1,
                ));
            }
            k += 1;
        }
        proof {
            assert(model_sources(groups_model(self.groups@)).take(self.groups@.len() as int)
                =~= model_sources(groups_model(self.groups@)));
            reveal_strlit("\n");
        }
        join_strs(&lines, "\n")
    }

    /// Deletes a user from a virtual database: the record leaves the
    /// in-memory map and is returned.  A name that resolves to no
    /// user is `NotFound`; on a file-backed database nothing happens,
    /// since the change must go through `delete_user_full` together
    /// with the locked files' contents.
    pub fn delete_user(&mut self, args: DeleteUserArgs) -> (r: Result<User, UserLibError>)
        ensures
            !has_user(old(self).users@, args.username@) ==> (r matches Err(e) && e is NotFound),
            (has_user(old(self).users@, args.username@) && !(old(self).source_files.passwd is Some
                && old(self).source_files.shadow is Some && old(self).source_files.group
                is Some)) ==> (r matches Ok(u) && exists|j: int|
                {
                    &&& #[trigger] is_first_user_match(old(self).users@, args.username@, j)
                    &&& u == old(self).users@[j]
                    &&& final(self).users@ == old(self).users@.remove(j)
                }),
            (has_user(old(self).users@, args.username@) && (old(self).source_files.passwd is Some
                && old(self).source_files.shadow is Some && old(self).source_files.group
                is Some)) ==> (r matches Err(e) && is_simple_error(
                &e,
                "A file-backed delete needs the locked file contents"@,
            )),
            r is Err ==> final(self).users == old(self).users,
            final(self).groups == old(self).groups,
            final(self).source_files == old(self).source_files,
            final(self).source_hashes == old(self).source_hashes,
    {
        let j = match find_user_index(&self.users, args.username.as_str()) {
            Some(j) => j,
            None => {
                return Err(UserLibError::NotFound);
            },
        };
        if !self.source_files.is_virtual() {
            return Err(UserLibError::from("A file-backed delete needs the locked file contents"));
        }
        proof {
            assert(is_first_user_match(self.users@, args.username@, j as int));
        }
        let u = self.users.remove(j);
        Ok(u)
    }

    /// The complete delete write path of a file-backed database.
    /// Against the current contents of the three files it checks the
    /// consistency snapshot, and only then splices the user's line
    /// out of the passwd text, the shadow line out of the shadow text
    /// when one was merged, runs the membership cascade, and returns
    /// the removed record together with the three new file texts; the
    /// group text is a single rewrite reflecting the converged end
    /// state.  Any divergence from the snapshot aborts with
    /// `FilesChanged` before anything, in memory or in the plan, is
    /// touched.
    pub fn delete_user_full(
        &mut self,
        args: &DeleteUserArgs,
        passwd_content: &str,
        shadow_content: &str,
        group_content: &str,
    ) -> (r: Result<(User, DeletePlan), UserLibError>)
        ensures
            !has_user(old(self).users@, args.username@) ==> (r matches Err(e) && e is NotFound),
            (has_user(old(self).users@, args.username@) && !(passwd_content@ == old(
                self,
            ).source_hashes.passwd.hashvalue@ && shadow_content@ == old(
                self,
            ).source_hashes.shadow.hashvalue@ && group_content@ == old(
                self,
            ).source_hashes.group.hashvalue@)) ==> (r matches Err(e) && e is FilesChanged),
            r is Err ==> (final(self).users == old(self).users && final(self).groups == old(
                self,
            ).groups),
            (has_user(old(self).users@, args.username@) && passwd_content@ == old(
                self,
            ).source_hashes.passwd.hashvalue@ && shadow_content@ == old(
                self,
            ).source_hashes.shadow.hashvalue@ && group_content@ == old(
                self,
            ).source_hashes.group.hashvalue@) ==> (r matches Ok(p) && exists|j: int|
                {
                    &&& #[trigger] is_first_user_match(old(self).users@, args.username@, j)
                    &&& p.0 == old(self).users@[j]
                    &&& final(self).users@ == old(self).users@.remove(j)
                }),
            r matches Ok(p) ==> {
                &&& groups_model(final(self).groups@) == apply_cascade(
                    groups_model(old(self).groups@),
                    p.0.groups@,
                    args.username@,
                )
                &&& p.1.new_passwd@ == remove_line_spec(passwd_content@, p.0.source@)
                &&& (match p.0.password {
                    Password::Shadow(sh) => p.1.new_shadow matches Some(t) && t@
                        == remove_line_spec(shadow_content@, sh.source@),
                    _ => p.1.new_shadow is None,
                })
                &&& p.1.new_group@ == join_with(
                    model_sources(groups_model(final(self).groups@)),
                    '\n',
                )
            },
            final(self).source_files == old(self).source_files,
            final(self).source_hashes == old(self).source_hashes,
    {
        let j = match find_user_index(&self.users, args.username.as_str()) {
            Some(j) => j,
            None => {
                return Err(UserLibError::NotFound);
            },
        };
        if self.source_hashes.passwd.has_changed(passwd_content)
            || self.source_hashes.shadow.has_changed(shadow_content)
            || self.source_hashes.group.has_changed(group_content) {
            return Err(UserLibError::FilesChanged);
        }
        proof {
            assert(is_first_user_match(self.users@, args.username@, j as int));
        }
        let u = self.users.remove(j);
        let new_passwd = u.remove_in(passwd_content);
        let new_shadow: Option<String> = match u.get_shadow() {
            Some(sh) => Some(sh.remove_in(shadow_content)),
            None => None,
        };
        cascade_delete(&mut self.groups, &u.groups, args.username.as_str());
        let new_group = self.write_groups();
        Ok((u, DeletePlan { new_passwd, new_shadow, new_group }))
    }

    /// Creates a user in a virtual database: the default record under
    /// the requested name joins the in-memory map and a copy of it is
    /// returned.  A name already taken fails with `The username
    /// <name> already exists! Aborting!` and changes nothing; on a
    /// file-backed database the change must go through
    /// `new_user_full`.
    pub fn new_user(&mut self, args: CreateUserArgs) -> (r: Result<User, UserLibError>)
        ensures
            has_user(old(self).users@, args.username@) ==> (r matches Err(e) && is_simple_error(
                &e,
                "The username "@ + args.username@ + " already exists! Aborting!"@,
            )),
            (!has_user(old(self).users@, args.username@) && !(old(self).source_files.passwd
                is Some && old(self).source_files.shadow is Some && old(self).source_files.group
                is Some)) ==> (r matches Ok(u) && {
                &&& is_default_user_named(u, args.username@)
                &&& final(self).users@.len() == old(self).users@.len() + 1
                &&& final(self).users@.take(old(self).users@.len() as int) == old(self).users@
                &&& is_default_user_named(final(self).users@.last(), args.username@)
            }),
            (!has_user(old(self).users@, args.username@) && (old(self).source_files.passwd is Some
                && old(self).source_files.shadow is Some && old(self).source_files.group
                is Some)) ==> (r matches Err(e) && is_simple_error(
                &e,
                "A file-backed create needs the locked file contents"@,
            )),
            r is Err ==> final(self).users == old(self).users,
            final(self).groups == old(self).groups,
            final(self).source_files == old(self).source_files,
            final(self).source_hashes == old(self).source_hashes,
    {
        match find_user_index(&self.users, args.username.as_str()) {
            Some(_) => {
                return Err(UserLibError::from_string(
                    "The username ".to_owned().concat(args.username.as_str()).concat(
                        " already exists! Aborting!",
                    ),
                ));
            },
            None => {},
        }
        if !self.source_files.is_virtual() {
            return Err(UserLibError::from("A file-backed create needs the locked file contents"));
        }
        let ghost before = self.users@;
        let stored = make_default_user(args.username.as_str());
        self.users.push(stored);
        proof {
            assert(self.users@.take(before.len() as int) =~= before);
        }
        let returned = make_default_user(args.username.as_str());
        Ok(returned)
    }

    /// The complete create write path of a file-backed database: the
    /// default record under the requested name joins the in-memory
    /// map, and the new passwd text (and shadow text, had the record
    /// carried a shadow entry) to be persisted is returned beside it.
    /// A name already taken fails and changes nothing, leaving the
    /// files as they are.
    pub fn new_user_full(&mut self, args: &CreateUserArgs, passwd_content: &str) -> (r: Result<
        (User, String),
        UserLibError,
    >)
        ensures
            has_user(old(self).users@, args.username@) ==> (r matches Err(e) && is_simple_error(
                &e,
                "The username "@ + args.username@ + " already exists! Aborting!"@,
            )),
            !has_user(old(self).users@, args.username@) ==> (r matches Ok(p) && {
                &&& is_default_user_named(p.0, args.username@)
                &&& final(self).users@.len() == old(self).users@.len() + 1
                &&& final(self).users@.take(old(self).users@.len() as int) == old(self).users@
                &&& is_default_user_named(final(self).users@.last(), args.username@)
                &&& p.1@ == append_line_spec(passwd_content@, user_format(&p.0))
            }),
            r is Err ==> final(self).users == old(self).users,
            final(self).groups == old(self).groups,
            final(self).source_files == old(self).source_files,
            final(self).source_hashes == old(self).source_hashes,
    {
        match find_user_index(&self.users, args.username.as_str()) {
            Some(_) => {
                return Err(UserLibError::from_string(
                    "The username ".to_owned().concat(args.username.as_str()).concat(
                        " already exists! Aborting!",
                    ),
                ));
            },
            None => {},
        }
        let ghost before = self.users@;
        let stored = make_default_user(args.username.as_str());
        self.users.push(stored);
        proof {
            assert(self.users@.take(before.len() as int) =~= before);
        }
        let returned = make_default_user(args.username.as_str());
        let line = returned.to_line();
        let new_passwd = append_line(passwd_content, line.as_str());
        Ok((returned, new_passwd))
    }
}


/// The primary-group side of the deletion cascade, stated on its
/// own: a primary edge whose group would be left with no member at
/// all removes the whole group record from the directory.
pub proof fn lemma_primary_cascade_removes_group(
    gs: Seq<GroupModel>,
    gid: u32,
    name: Seq<char>,
    k: int,
)
    requires
        0 <= k < gs.len(),
        gs[k].gid == gid,
        forall|j: int| 0 <= j < k ==> (#[trigger] gs[j]).gid != gid,
        gs[k].members.len() + gs[k].primary_members.len() == 1,
    ensures
        cascade_step(gs, MembershipKind::Primary, gid, name) == gs.remove(k),
{
    lemma_model_index_is(gs, gid, k);
}

/// The shared-group side of the deletion cascade: a primary edge
/// whose group has other members only removes this user's derived
/// membership; the group record, its stored member list and its
/// persisted line all survive unchanged.
pub proof fn lemma_primary_cascade_keeps_group(
    gs: Seq<GroupModel>,
    gid: u32,
    name: Seq<char>,
    k: int,
)
    requires
        0 <= k < gs.len(),
        gs[k].gid == gid,
        forall|j: int| 0 <= j < k ==> (#[trigger] gs[j]).gid != gid,
        gs[k].members.len() + gs[k].primary_members.len() != 1,
    ensures
        cascade_step(gs, MembershipKind::Primary, gid, name).len() == gs.len(),
        cascade_step(gs, MembershipKind::Primary, gid, name)[k].source == gs[k].source,
        cascade_step(gs, MembershipKind::Primary, gid, name)[k].members == gs[k].members,
        cascade_step(gs, MembershipKind::Primary, gid, name)[k].primary_members == drop_matching(
            gs[k].primary_members,
            name,
        ),
        forall|j: int|
            0 <= j < gs.len() && j != k ==> cascade_step(gs, MembershipKind::Primary, gid, name)[j]
                == #[trigger] gs[j],
{
    lemma_model_index_is(gs, gid, k);
}


impl crate::api::UserDBRead for UserDBLocal {
    fn get_all_users(&self) -> &Vec<User> {
        UserDBLocal::get_all_users(self)
    }

    fn get_user_by_name(&self, name: &str) -> Option<&User> {
        UserDBLocal::get_user_by_name(self, name)
    }

    fn get_user_by_id(&self, uid: u32) -> Option<&User> {
        UserDBLocal::get_user_by_id(self, uid)
    }

    fn get_all_groups(&self) -> &Vec<Group> {
        UserDBLocal::get_all_groups(self)
    }

    fn get_group_by_name(&self, name: &str) -> Option<&Group> {
        UserDBLocal::get_group_by_name(self, name)
    }

    fn get_group_by_id(&self, id: u32) -> Option<&Group> {
        UserDBLocal::get_group_by_id(self, id)
    }
}

impl crate::api::UserDBValidation for UserDBLocal {
    fn is_uid_valid_and_free(&self, uid: u32) -> bool {
        UserDBLocal::is_uid_valid_and_free(self, uid)
    }

    fn is_username_valid_and_free(&self, name: &str) -> bool {
        UserDBLocal::is_username_valid_and_free(self, name)
    }

    fn is_gid_valid_and_free(&self, gid: u32) -> bool {
        UserDBLocal::is_gid_valid_and_free(self, gid)
    }

    fn is_groupname_valid_and_free(&self, name: &str) -> bool {
        UserDBLocal::is_groupname_valid_and_free(self, name)
    }
}

impl crate::api::UserDBWrite for UserDBLocal {
    fn delete_user(&mut self, args: DeleteUserArgs) -> Result<User, UserLibError> {
        UserDBLocal::delete_user(self, args)
    }

    fn new_user(&mut self, args: CreateUserArgs) -> Result<User, UserLibError> {
        UserDBLocal::new_user(self, args)
    }
}

} // verus!
