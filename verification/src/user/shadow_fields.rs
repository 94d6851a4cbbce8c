//! A record of the `shadow` database: username, password hash, three
//! optional dates given as days since the epoch, three optional
//! durations given as day counts, and an optional numeric extension.
//! Day numbers are held as plain integers, exactly as the file stores
//! them.

use crate::error::MyMessage;
use crate::error::UserLibError;
use crate::error::is_simple_message;
use crate::numbers::canonical_dec;
use crate::numbers::dec_str;
use crate::numbers::dec_val;
use crate::numbers::lemma_dec_roundtrip;
use crate::numbers::parse_u64;
use crate::numbers::u64_field_ok;
use crate::numbers::u64_to_string;
use crate::text::join_with;
use crate::text::join_strs;
use crate::text::lemma_join_split;
use crate::text::remove_line;
use crate::text::remove_line_spec;
use crate::text::split_on;
use crate::text::split_str;
use crate::user::passwd_fields::EncryptedPassword;
use crate::user::passwd_fields::Username;
use crate::user::passwd_fields::username_ok;
use vstd::prelude::*;

verus! {

/// A line of the shadow database.
#[derive(Debug, Clone)]
pub struct Shadow {
    pub pos: u32,
    pub source: String,
    pub username: Username,
    pub password: EncryptedPassword,
    pub last_change: Option<u64>,
    pub earliest_change: Option<u64>,
    pub latest_change: Option<u64>,
    pub warn_period: Option<u64>,
    pub deactivated: Option<u64>,
    pub deactivated_since: Option<u64>,
    pub extensions: Option<u64>,
}

/// An optional day-count field: empty, or a decimal day number.
pub open spec fn opt_day_field_ok(f: Seq<char>) -> bool {
    f.len() == 0 || u64_field_ok(f)
}

/// How a parsed optional day count relates to its source field.
pub open spec fn opt_day_matches(v: Option<u64>, f: Seq<char>) -> bool {
    if f.len() == 0 {
        v is None
    } else {
        v matches Some(n) && n == dec_val(f)
    }
}

/// The rendering of an optional day count: empty for unset.
pub open spec fn opt_day_format(v: Option<u64>) -> Seq<char> {
    match v {
        None => Seq::<char>::empty(),
        Some(n) => dec_str(n as int),
    }
}

/// A well-formed shadow line: nine fields, a valid username, and
/// day-count fields that are empty or decimal.
pub open spec fn shadow_line_ok(line: Seq<char>) -> bool {
    let f = split_on(line, ':');
    &&& f.len() == 9
    &&& username_ok(f[0])
    &&& opt_day_field_ok(f[2])
    &&& opt_day_field_ok(f[3])
    &&& opt_day_field_ok(f[4])
    &&& opt_day_field_ok(f[5])
    &&& opt_day_field_ok(f[6])
    &&& opt_day_field_ok(f[7])
    &&& opt_day_field_ok(f[8])
}

/// How a parsed shadow record relates to its source line.
pub open spec fn shadow_matches(s: &Shadow, line: Seq<char>, pos: u32) -> bool {
    let f = split_on(line, ':');
    &&& s.source@ == line
    &&& s.pos == pos
    &&& s.username.username@ == f[0]
    &&& s.password.password@ == f[1]
    &&& opt_day_matches(s.last_change, f[2])
    &&& opt_day_matches(s.earliest_change, f[3])
    &&& opt_day_matches(s.latest_change, f[4])
    &&& opt_day_matches(s.warn_period, f[5])
    &&& opt_day_matches(s.deactivated, f[6])
    &&& opt_day_matches(s.deactivated_since, f[7])
    &&& opt_day_matches(s.extensions, f[8])
}

/// The colon-joined rendering of a shadow record.
pub open spec fn shadow_format(s: &Shadow) -> Seq<char> {
    join_with(
        seq![
            s.username.username@,
            s.password.password@,
            opt_day_format(s.last_change),
            opt_day_format(s.earliest_change),
            opt_day_format(s.latest_change),
            opt_day_format(s.warn_period),
            opt_day_format(s.deactivated),
            opt_day_format(s.deactivated_since),
            opt_day_format(s.extensions),
        ],
        ':',
    )
}

/// A shadow line whose numeric fields carry no leading zeros, i.e.
/// one the formatter itself could have written.
pub open spec fn shadow_line_canonical(line: Seq<char>) -> bool {
    let f = split_on(line, ':');
    forall|i: int| 2 <= i < 9 && i < f.len() ==> (#[trigger] f[i]).len() == 0 || canonical_dec(f[i])
}

/// Formatting a record parsed from a canonical line reproduces the
/// line exactly.
pub proof fn lemma_shadow_roundtrip(s: &Shadow, line: Seq<char>, pos: u32)
    requires
        shadow_line_ok(line),
        shadow_matches(s, line, pos),
        shadow_line_canonical(line),
    ensures
        shadow_format(s) == line,
{
    let f = split_on(line, ':');
    lemma_opt_day_roundtrip(s.last_change, f[2]);
    lemma_opt_day_roundtrip(s.earliest_change, f[3]);
    lemma_opt_day_roundtrip(s.latest_change, f[4]);
    lemma_opt_day_roundtrip(s.warn_period, f[5]);
    lemma_opt_day_roundtrip(s.deactivated, f[6]);
    lemma_opt_day_roundtrip(s.deactivated_since, f[7]);
    lemma_opt_day_roundtrip(s.extensions, f[8]);
    assert(seq![
        s.username.username@,
        s.password.password@,
        opt_day_format(s.last_change),
        opt_day_format(s.earliest_change),
        opt_day_format(s.latest_change),
        opt_day_format(s.warn_period),
        opt_day_format(s.deactivated),
        opt_day_format(s.deactivated_since),
        opt_day_format(s.extensions),
    ] =~= f);
    lemma_join_split(line, ':');
}

proof fn lemma_opt_day_roundtrip(v: Option<u64>, f: Seq<char>)
    requires
        opt_day_field_ok(f),
        opt_day_matches(v, f),
        f.len() == 0 || canonical_dec(f),
    ensures
        opt_day_format(v) == f,
{
    if f.len() == 0 {
        assert(opt_day_format(v) =~= f);
    } else {
        lemma_dec_roundtrip(f);
    }
}

/// Reads an optional day-count field: empty is unset, digits are the
/// day number, anything else is rejected.
fn parse_opt_day(f: &String) -> (r: Result<Option<u64>, UserLibError>)
    ensures
        opt_day_field_ok(f@) ==> (r matches Ok(v) && opt_day_matches(v, f@)),
        !opt_day_field_ok(f@) ==> is_simple_message(&r, "Invalid day count "@ + f@),
{
    if f.as_str().is_empty() {
        Ok(None)
    } else {
        match parse_u64(f.as_str()) {
            Some(n) => Ok(Some(n)),
            None => Err(UserLibError::Message(
                MyMessage::Simple("Invalid day count ".to_owned().concat(f.as_str())),
            )),
        }
    }
}

impl Shadow {
    /// Parses a shadow line of nine colon-separated fields.  Succeeds
    /// exactly on well-formed lines; a malformed line is rejected with
    /// a message naming the failing field.
    pub fn new_from_string(line: String, position: u32) -> (r: Result<Shadow, UserLibError>)
        ensures
            shadow_line_ok(line@) ==> (r matches Ok(s) && shadow_matches(&s, line@, position)),
            !shadow_line_ok(line@) ==> r is Err,
            split_on(line@, ':').len() != 9 ==> is_simple_message(
                &r,
                "Failed to parse: not enough elements"@,
            ),
    {
        let elements = split_str(line.as_str(), ':');
        if elements.len() != 9 {
            return Err(UserLibError::Message(
                MyMessage::Simple("Failed to parse: not enough elements".to_owned()),
            ));
        }
        let username = match Username::try_from(elements[0].clone()) {
            Ok(u) => u,
            Err(e) => {
                return Err(e);
            },
        };
        let password = match EncryptedPassword::try_from(elements[1].clone()) {
            Ok(p) => p,
            Err(e) => {
                return Err(e);
            },
        };
        let last_change = match parse_opt_day(&elements[2]) {
            Ok(v) => v,
            Err(e) => {
                return Err(e);
            },
        };
        let earliest_change = match parse_opt_day(&elements[3]) {
            Ok(v) => v,
            Err(e) => {
                return Err(e);
            },
        };
        let latest_change = match parse_opt_day(&elements[4]) {
            Ok(v) => v,
            Err(e) => {
                return Err(e);
            },
        };
        let warn_period = match parse_opt_day(&elements[5]) {
            Ok(v) => v,
            Err(e) => {
                return Err(e);
            },
        };
        let deactivated = match parse_opt_day(&elements[6]) {
            Ok(v) => v,
            Err(e) => {
                return Err(e);
            },
        };
        let deactivated_since = match parse_opt_day(&elements[7]) {
            Ok(v) => v,
            Err(e) => {
                return Err(e);
            },
        };
        let extensions = match parse_opt_day(&elements[8]) {
            Ok(v) => v,
            Err(e) => {
                return Err(e);
            },
        };
        Ok(
            Shadow {
                pos: position,
                source: line,
                username,
                password,
                last_change,
                earliest_change,
                latest_change,
                warn_period,
                deactivated,
                deactivated_since,
                extensions,
            },
        )
    }

    /// The colon-joined rendering of this record.
    pub fn to_line(&self) -> (r: String)
        ensures
            r@ == shadow_format(self),
    {
        let mut parts: Vec<String> = Vec::new();
        parts.push(self.username.username.clone());
        parts.push(self.password.password.clone());
        parts.push(opt_day_string(&self.last_change));
        parts.push(opt_day_string(&self.earliest_change));
        parts.push(opt_day_string(&self.latest_change));
        parts.push(opt_day_string(&self.warn_period));
        parts.push(opt_day_string(&self.deactivated));
        parts.push(opt_day_string(&self.deactivated_since));
        parts.push(opt_day_string(&self.extensions));
        proof {
            assert(parts.deep_view() =~= seq![
                self.username.username@,
                self.password.password@,
                opt_day_format(self.last_change),
                opt_day_format(self.earliest_change),
                opt_day_format(self.latest_change),
                opt_day_format(self.warn_period),
                opt_day_format(self.deactivated),
                opt_day_format(self.deactivated_since),
                opt_day_format(self.extensions),
            ]);
            reveal_strlit(":");
        }
        join_strs(&parts, ":")
    }

    /// The account this shadow entry belongs to.
    pub fn get_username(&self) -> (r: &str)
        ensures
            r@ == self.username.username@,
    {
        self.username.value()
    }

    /// The password hash.
    pub fn get_password(&self) -> (r: &str)
        ensures
            r@ == self.password.password@,
    {
        self.password.value()
    }

    /// The text `content` with this record's source line spliced out.
    pub fn remove_in(&self, content: &str) -> (r: String)
        ensures
            r@ == remove_line_spec(content@, self.source@),
    {
        remove_line(content, self.source.as_str())
    }
}

/// Writes an optional day count, empty for unset.
fn opt_day_string(v: &Option<u64>) -> (r: String)
    ensures
        r@ == opt_day_format(*v),
{
    match v {
        None => String::new(),
        Some(n) => u64_to_string(*n),
    }
}

} // verus!
