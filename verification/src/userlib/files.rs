//! The backing files and the cooperative lock protocol.
//!
//! The engine locks a database file by writing its pid into a
//! temporary file `<path>.<pid>` and hard-linking it to the fixed
//! lock path `<path>.lock`; link creation is atomic and fails when
//! the destination exists, which makes it the test-and-set primitive.
//! The filesystem steps themselves are the embedding program's to
//! perform; this module holds the protocol's decisions — the names to
//! use, the verdict on an existing lock, what appending to a database
//! file must produce — and a model of the lock directory on which
//! mutual exclusion is stated and proved.
//!
//! Stale-lock policy: an existing lock file counts as held, whoever
//! recorded it.  The engine never removes another process's lock; a
//! stale lock is left for an administrator to clear.

use crate::error::UserLibError;
use crate::error::is_simple_error;
use crate::numbers::dec_str;
use crate::numbers::dec_val;
use crate::numbers::parse_u32;
use crate::numbers::u32_field_ok;
use crate::numbers::u32_to_string;
use crate::text::str_eq;
use crate::text::trim_spec;
use crate::text::trimmed;
use vstd::prelude::*;

verus! {

/// The paths of the three account databases.  An instance without all
/// three paths is virtual: writes touch memory only.
#[derive(Debug)]
pub struct Files {
    pub passwd: Option<String>,
    pub shadow: Option<String>,
    pub group: Option<String>,
}

impl Default for Files {
    /// The standard Linux paths under `/etc`.
    fn default() -> (r: Self)
        ensures
            (r.passwd matches Some(p) && p@ == "/etc/passwd"@),
            (r.shadow matches Some(s) && s@ == "/etc/shadow"@),
            (r.group matches Some(g) && g@ == "/etc/group"@),
    {
        Files {
            passwd: Some("/etc/passwd".to_owned()),
            shadow: Some("/etc/shadow".to_owned()),
            group: Some("/etc/group".to_owned()),
        }
    }
}

impl Files {
    /// Whether this instance lacks backing files; some operations
    /// require all three to be present.
    pub fn is_virtual(&self) -> (r: bool)
        ensures
            r == !(self.passwd is Some && self.shadow is Some && self.group is Some),
    {
        !(self.passwd.is_some() && self.shadow.is_some() && self.group.is_some())
    }
}

/// The fixed lock path beside a database file.
pub fn lock_file_name(path: &str) -> (r: String)
    ensures
        r@ == path@ + ".lock"@,
{
    path.to_owned().concat(".lock")
}

/// The transient per-process file beside a database file.
pub fn temp_file_name(path: &str, pid: u32) -> (r: String)
    ensures
        r@ == path@ + "."@ + dec_str(pid as int),
{
    path.to_owned().concat(".").concat(u32_to_string(pid).as_str())
}

/// The text a database file must hold after a line is appended: the
/// old text, a newline where one was missing, the line, and a final
/// newline.
pub open spec fn append_line_spec(content: Seq<char>, line: Seq<char>) -> Seq<char> {
    let base = if content.len() == 0 || content.last() == '\n' {
        content
    } else {
        content + seq!['\n']
    };
    base + line + seq!['\n']
}

/// Appends one record line to a database file's text.
pub fn append_line(content: &str, line: &str) -> (r: String)
    ensures
        r@ == append_line_spec(content@, line@),
{
    proof {
        reveal_strlit("\n");
    }
    let len = content.unicode_len();
    let mut r = content.to_owned();
    if len > 0 && content.get_char(len - 1) != '\n' {
        r.append("\n");
    }
    r.append(line);
    r.append("\n");
    proof {
        assert(r@ =~= append_line_spec(content@, line@));
    }
    r
}

/// The verdict on an existing lock file: the lock is held.  The error
/// names the recorded pid when the file holds one, and calls the lock
/// file out as damaged when it does not.
pub fn evaluate_existing_lock(lock_content: &str) -> (r: UserLibError)
    ensures
        u32_field_ok(trim_spec(lock_content@)) ==> is_simple_error(
            &r,
            "The file is currently locked by process "@ + dec_str(
                dec_val(trim_spec(lock_content@)),
            ),
        ),
        !u32_field_ok(trim_spec(lock_content@)) ==> is_simple_error(
            &r,
            "Existing lock file with an invalid PID "@ + trim_spec(lock_content@),
        ),
{
    let content = trimmed(lock_content);
    match parse_u32(content.as_str()) {
        Some(pid) => UserLibError::from_string(
            "The file is currently locked by process ".to_owned().concat(
                u32_to_string(pid).as_str(),
            ),
        ),
        None => UserLibError::from_string(
            "Existing lock file with an invalid PID ".to_owned().concat(content.as_str()),
        ),
    }
}

/// What the filesystem reported when the hard link to the lock path
/// was attempted.
#[derive(Debug)]
pub enum LockEvent {
    /// The link was created: the lock is ours.
    LinkCreated,
    /// The lock path already exists; its content is the recorded pid.
    LinkExists { lock_content: String },
    /// The link failed for another reason, described by the text.
    LinkFailed { error: String },
}

/// The protocol's verdict after a link attempt.
#[derive(Debug)]
pub enum LockOutcome {
    /// The lock is held by this process; the caller owns it until it
    /// removes the lock file again.
    Locked,
    /// The lock was not taken; nothing was changed.
    Failed(UserLibError),
}

/// The decision step of the lock protocol: maps the filesystem's
/// answer to the link attempt onto the protocol's outcome.  Only a
/// created link grants the lock; an existing lock path means the lock
/// is held elsewhere.
pub fn lock_step(ev: LockEvent) -> (r: LockOutcome)
    ensures
        (ev is LinkCreated) <==> (r is Locked),
        ev matches LockEvent::LinkExists { lock_content } ==> (r
            matches LockOutcome::Failed(e) && (u32_field_ok(trim_spec(lock_content@))
            ==> is_simple_error(
            &e,
            "The file is currently locked by process "@ + dec_str(
                dec_val(trim_spec(lock_content@)),
            ),
        )) && (!u32_field_ok(trim_spec(lock_content@)) ==> is_simple_error(
            &e,
            "Existing lock file with an invalid PID "@ + trim_spec(lock_content@),
        ))),
        ev matches LockEvent::LinkFailed { error } ==> (r matches LockOutcome::Failed(e)
            && is_simple_error(&e, "Failed to lock the file: "@ + error@)),
{
    match ev {
        LockEvent::LinkCreated => LockOutcome::Locked,
        LockEvent::LinkExists { lock_content } => LockOutcome::Failed(
            evaluate_existing_lock(lock_content.as_str()),
        ),
        LockEvent::LinkFailed { error } => LockOutcome::Failed(
            UserLibError::from_string("Failed to lock the file: ".to_owned().concat(
                error.as_str(),
            )),
        ),
    }
}

/// A model of the lock directory: which lock paths exist, and the pid
/// recorded in each.  The embedding program's filesystem steps follow
/// this model; mutual exclusion of the protocol is stated on it.
pub struct LockTable {
    pub entries: Vec<(String, u32)>,
}

/// Whether the entry list holds a lock for `path`.
pub open spec fn contains_path(es: Seq<(String, u32)>, path: Seq<char>) -> bool {
    exists|i: int| 0 <= i < es.len() && (#[trigger] es[i]).0@ == path
}

/// Whether the table holds a lock for `path`.
pub open spec fn holds_lock(t: &LockTable, path: Seq<char>) -> bool {
    contains_path(t.entries@, path)
}

/// The entry list with every lock for `path` dropped.
pub open spec fn drop_locks(es: Seq<(String, u32)>, path: Seq<char>) -> Seq<(String, u32)>
    decreases es.len(),
{
    if es.len() == 0 {
        Seq::<(String, u32)>::empty()
    } else if es[0].0@ == path {
        drop_locks(es.drop_first(), path)
    } else {
        seq![es[0]] + drop_locks(es.drop_first(), path)
    }
}

proof fn lemma_contains_unfold(es: Seq<(String, u32)>, q: Seq<char>)
    requires
        es.len() > 0,
    ensures
        contains_path(es, q) == (es[0].0@ == q || contains_path(es.drop_first(), q)),
{
    if contains_path(es, q) {
        let i = choose|i: int| 0 <= i < es.len() && es[i].0@ == q;
        if i > 0 {
            assert(es.drop_first()[i - 1] == es[i]);
        }
    }
    if contains_path(es.drop_first(), q) {
        let i = choose|i: int| 0 <= i < es.drop_first().len() && es.drop_first()[i].0@ == q;
        assert(es[i + 1] == es.drop_first()[i]);
    }
}

/// Dropping the locks for one path removes exactly those: afterwards
/// no lock for it remains, and every other path's locks are as they
/// were.
proof fn lemma_drop_locks_contains(es: Seq<(String, u32)>, path: Seq<char>, q: Seq<char>)
    ensures
        !contains_path(drop_locks(es, path), path),
        q != path ==> contains_path(drop_locks(es, path), q) == contains_path(es, q),
    decreases es.len(),
{
    if es.len() == 0 {
    } else {
        lemma_contains_unfold(es, q);
        lemma_contains_unfold(es, path);
        lemma_drop_locks_contains(es.drop_first(), path, q);
        let rest = drop_locks(es.drop_first(), path);
        if es[0].0@ == path {
        } else {
            let whole = seq![es[0]] + rest;
            lemma_contains_unfold(whole, q);
            lemma_contains_unfold(whole, path);
            assert(whole.drop_first() =~= rest);
        }
    }
}

impl LockTable {
    /// An empty lock directory.
    pub fn new() -> (r: Self)
        ensures
            r.entries@.len() == 0,
    {
        LockTable { entries: Vec::new() }
    }

    /// The protocol's test-and-set: taking the lock succeeds exactly
    /// when no lock for `path` exists, and then records this pid;
    /// when one exists, nothing changes and the acquisition fails.
    pub fn try_acquire(&mut self, path: &str, pid: u32) -> (r: Result<(), UserLibError>)
        ensures
            holds_lock(old(self), path@) ==> (r is Err && final(self).entries == old(self).entries),
            !holds_lock(old(self), path@) ==> (r is Ok
                && final(self).entries@.len() == old(self).entries@.len() + 1
                && final(self).entries@.last().0@ == path@
                && final(self).entries@.last().1 == pid
                && final(self).entries@.take(old(self).entries@.len() as int)
                    == old(self).entries@),
            holds_lock(final(self), path@),
    {
        let mut i: usize = 0;
        while i < self.entries.len()
            invariant
                0 <= i <= self.entries@.len(),
                forall|j: int| 0 <= j < i ==> (#[trigger] self.entries@[j]).0@ != path@,
        decreases self.entries@.len() - i,
        {
            if str_eq(self.entries[i].0.as_str(), path) {
                proof {
                    assert(holds_lock(self, path@));
                }
                let held_by = self.entries[i].1;
                return Err(UserLibError::from_string(
                    "The file is currently locked by process ".to_owned().concat(
                        u32_to_string(held_by).as_str(),
                    ),
                ));
            }
            i += 1;
        }
        proof {
            assert(!holds_lock(self, path@));
        }
        let ghost pre = self.entries@;
        self.entries.push((path.to_owned(), pid));
        proof {
            assert(self.entries@.take(pre.len() as int) =~= pre);
            assert(self.entries@.last().0@ == path@);
        }
        Ok(())
    }

    /// Releases the lock for `path`: afterwards no lock for it exists,
    /// and every other lock is kept.
    pub fn release(&mut self, path: &str)
        ensures
            final(self).entries@ == drop_locks(old(self).entries@, path@),
            !holds_lock(final(self), path@),
            forall|q: Seq<char>|
                q != path@ ==> #[trigger] holds_lock(final(self), q) == holds_lock(old(self), q),
    {
        let ghost es = self.entries@;
        let mut kept: Vec<(String, u32)> = Vec::new();
        let mut i: usize = 0;
        proof {
            assert(es.skip(0) =~= es);
            assert(drop_locks(es, path@) =~= kept@ + drop_locks(es.skip(0), path@));
        }
        while i < self.entries.len()
            invariant
                0 <= i <= self.entries@.len(),
                es == self.entries@,
                drop_locks(es, path@) == kept@ + drop_locks(es.skip(i as int), path@),
            decreases self.entries@.len() - i,
        {
            let ghost pre = kept@;
            let ghost tail = es.skip(i as int);
            proof {
                assert(tail[0] == es[i as int]);
                assert(tail.drop_first() =~= es.skip(i + 1));
            }
            if !str_eq(self.entries[i].0.as_str(), path) {
                let entry = (self.entries[i].0.clone(), self.entries[i].1);
                proof {
                    assert(entry == es[i as int]);
                }
                kept.push(entry);
                proof {
                    assert(kept@ =~= pre + seq![es[i as int]]);
                    assert(drop_locks(es, path@) =~= kept@ + drop_locks(es.skip(i + 1), path@));
                }
            } else {
                proof {
                    assert(drop_locks(es, path@) =~= kept@ + drop_locks(es.skip(i + 1), path@));
                }
            }
            i += 1;
        }
        proof {
            assert(es.skip(es.len() as int) =~= Seq::<(String, u32)>::empty());
            assert(kept@ =~= drop_locks(es, path@));
        }
        self.entries = kept;
        proof {
            assert forall|q: Seq<char>|
                q != path@ implies #[trigger] holds_lock(self, q) == holds_lock(old(self), q) by {
                lemma_drop_locks_contains(es, path@, q);
            }
            lemma_drop_locks_contains(es, path@, path@);
        }
    }
}

/// Mutual exclusion of the lock protocol on its model: while a lock
/// for a path is held, no further acquisition of that path can
/// succeed; once it is released, an acquisition succeeds again.
pub proof fn lemma_lock_mutual_exclusion(t1: &LockTable, t2: &LockTable, path: Seq<char>)
    requires
        holds_lock(t1, path),
        !holds_lock(t2, path),
    ensures
        !lock_acquire_would_succeed(t1, path),
        lock_acquire_would_succeed(t2, path),
{
}

/// Whether an acquisition of `path` would succeed on the given
/// directory state: exactly when no lock for it exists.
pub open spec fn lock_acquire_would_succeed(t: &LockTable, path: Seq<char>) -> bool {
    !holds_lock(t, path)
}

} // verus!
