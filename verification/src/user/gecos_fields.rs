//! The gecos field of a user: a comma-separated list whose first four
//! values are conventionally full name, room, work phone and home
//! phone, with anything further kept as extra values.  A field without
//! a comma is a plain comment.  Two or three values fit neither form
//! and are rejected.

use crate::error::MyMessage;
use crate::error::UserLibError;
use crate::text::join_with;
use crate::text::join_strs;
use crate::text::lemma_join_split;
use crate::text::split_on;
use crate::text::split_str;
use vstd::prelude::*;

verus! {

/// The gecos field, either structured or a plain comment.
#[derive(Debug)]
pub enum Gecos {
    Detail {
        full_name: String,
        room: String,
        phone_work: String,
        phone_home: String,
        other: Option<Vec<String>>,
    },
    Simple { comment: String },
}

/// Whether a comma-split gecos field has an accepted shape: one value,
/// or at least four.
pub open spec fn gecos_fields_ok(parts: Seq<Seq<char>>) -> bool {
    parts.len() == 1 || parts.len() > 3
}

/// How a parsed gecos value relates to the comma-split source field.
pub open spec fn gecos_matches(g: &Gecos, parts: Seq<Seq<char>>) -> bool {
    if parts.len() == 1 {
        g matches Gecos::Simple { comment } && comment@ == parts[0]
    } else {
        parts.len() > 3 && (g matches Gecos::Detail {
            full_name,
            room,
            phone_work,
            phone_home,
            other,
        } && full_name@ == parts[0] && room@ == parts[1] && phone_work@ == parts[2] && phone_home@
            == parts[3] && if parts.len() == 4 {
            other is None
        } else {
            other matches Some(o) && o.deep_view() == parts.skip(4)
        })
    }
}

/// The comma-separated rendering of a gecos value.
pub open spec fn gecos_format(g: &Gecos) -> Seq<char> {
    match g {
        Gecos::Simple { comment } => comment@,
        Gecos::Detail { full_name, room, phone_work, phone_home, other } => {
            let head = seq![full_name@, room@, phone_work@, phone_home@];
            let parts = match other {
                Some(o) => head + o.deep_view(),
                None => head,
            };
            join_with(parts, ',')
        },
    }
}

/// Formatting a gecos value parsed from a field reproduces the field.
pub proof fn lemma_gecos_roundtrip(g: &Gecos, source: Seq<char>)
    requires
        gecos_fields_ok(split_on(source, ',')),
        gecos_matches(g, split_on(source, ',')),
    ensures
        gecos_format(g) == source,
{
    let parts = split_on(source, ',');
    lemma_join_split(source, ',');
    if parts.len() == 1 {
        assert(join_with(parts, ',') == parts[0]);
    } else {
        match g {
            Gecos::Detail { full_name, room, phone_work, phone_home, other } => {
                let head = seq![full_name@, room@, phone_work@, phone_home@];
                match other {
                    Some(o) => {
                        assert(head + o.deep_view() =~= parts);
                    },
                    None => {
                        assert(head =~= parts);
                    },
                }
            },
            Gecos::Simple { .. } => {
                assert(false);
            },
        }
    }
}

impl Gecos {
    /// Parses a comma-separated gecos field: one value is a plain
    /// comment, four or more are the structured form, anything else is
    /// rejected with `Could not parse this string: <field>`.
    pub fn try_from(source: String) -> (r: Result<Gecos, UserLibError>)
        ensures
            gecos_fields_ok(split_on(source@, ',')) ==> (r matches Ok(g) && gecos_matches(
                &g,
                split_on(source@, ','),
            )),
            !gecos_fields_ok(split_on(source@, ',')) ==> (r matches Err(e) && e
                matches UserLibError::Message(m) && m matches MyMessage::Simple(s) && s@
                == "Could not parse this string: "@ + source@),
    {
        let mut vals = split_str(source.as_str(), ',');
        let n = vals.len();
        if n > 3 {
            let full_name = vals.remove(0);
            let room = vals.remove(0);
            let phone_work = vals.remove(0);
            let phone_home = vals.remove(0);
            let ghost parts = split_on(source@, ',');
            proof {
                assert(vals.deep_view() =~= parts.skip(4));
            }
            let other: Option<Vec<String>> = if vals.len() == 0 {
                None
            } else {
                Some(vals)
            };
            Ok(Gecos::Detail { full_name, room, phone_work, phone_home, other })
        } else if n == 1 {
            let comment = vals.remove(0);
            Ok(Gecos::Simple { comment })
        } else {
            Err(UserLibError::Message(
                MyMessage::Simple("Could not parse this string: ".to_owned().concat(
                    source.as_str(),
                )),
            ))
        }
    }

    /// The comma-separated rendering of this value.
    pub fn to_line(&self) -> (r: String)
        ensures
            r@ == gecos_format(self),
    {
        match self {
            Gecos::Simple { comment } => comment.clone(),
            Gecos::Detail { full_name, room, phone_work, phone_home, other } => {
                let mut parts: Vec<String> = Vec::new();
                parts.push(full_name.clone());
                parts.push(room.clone());
                parts.push(phone_work.clone());
                parts.push(phone_home.clone());
                let ghost head = seq![full_name@, room@, phone_work@, phone_home@];
                proof {
                    assert(parts.deep_view() =~= head);
                }
                match other {
                    Some(o) => {
                        let mut i: usize = 0;
                        while i < o.len()
                            invariant
                                0 <= i <= o@.len(),
                                parts.deep_view() == head + o.deep_view().take(i as int),
                            decreases o@.len() - i,
                        {
                            let ghost pre = parts.deep_view();
                            parts.push(o[i].clone());
                            proof {
                                assert(parts.deep_view() =~= pre + seq![o.deep_view()[i as int]]);
                                assert(parts.deep_view() =~= head + o.deep_view().take(i + 1));
                            }
                            i += 1;
                        }
                        proof {
                            assert(o.deep_view().take(o@.len() as int) =~= o.deep_view());
                        }
                    },
                    None => {},
                }
                proof {
                    reveal_strlit(",");
                }
                join_strs(&parts, ",")
            },
        }
    }

    /// The plain comment of an unstructured field.
    pub fn get_comment(&self) -> (r: Option<&str>)
        ensures
            match self {
                Gecos::Simple { comment } => r matches Some(c) && c@ == comment@,
                Gecos::Detail { .. } => r is None,
            },
    {
        match self {
            Gecos::Simple { comment } => Some(comment.as_str()),
            Gecos::Detail { .. } => None,
        }
    }

    /// The full name, when structured and non-empty.
    pub fn get_full_name(&self) -> (r: Option<&str>)
        ensures
            match self {
                Gecos::Simple { .. } => r is None,
                Gecos::Detail { full_name, .. } => if full_name@.len() == 0 {
                    r is None
                } else {
                    r matches Some(v) && v@ == full_name@
                },
            },
    {
        match self {
            Gecos::Simple { .. } => None,
            Gecos::Detail { full_name, .. } => {
                if full_name.as_str().is_empty() {
                    None
                } else {
                    Some(full_name.as_str())
                }
            },
        }
    }

    /// The room, when structured and non-empty.
    pub fn get_room(&self) -> (r: Option<&str>)
        ensures
            match self {
                Gecos::Simple { .. } => r is None,
                Gecos::Detail { room, .. } => if room@.len() == 0 {
                    r is None
                } else {
                    r matches Some(v) && v@ == room@
                },
            },
    {
        match self {
            Gecos::Simple { .. } => None,
            Gecos::Detail { room, .. } => {
                if room.as_str().is_empty() {
                    None
                } else {
                    Some(room.as_str())
                }
            },
        }
    }

    /// The work phone, when structured and non-empty.
    pub fn get_phone_work(&self) -> (r: Option<&str>)
        ensures
            match self {
                Gecos::Simple { .. } => r is None,
                Gecos::Detail { phone_work, .. } => if phone_work@.len() == 0 {
                    r is None
                } else {
                    r matches Some(v) && v@ == phone_work@
                },
            },
    {
        match self {
            Gecos::Simple { .. } => None,
            Gecos::Detail { phone_work, .. } => {
                if phone_work.as_str().is_empty() {
                    None
                } else {
                    Some(phone_work.as_str())
                }
            },
        }
    }

    /// The home phone, when structured and non-empty.
    pub fn get_phone_home(&self) -> (r: Option<&str>)
        ensures
            match self {
                Gecos::Simple { .. } => r is None,
                Gecos::Detail { phone_home, .. } => if phone_home@.len() == 0 {
                    r is None
                } else {
                    r matches Some(v) && v@ == phone_home@
                },
            },
    {
        match self {
            Gecos::Simple { .. } => None,
            Gecos::Detail { phone_home, .. } => {
                if phone_home.as_str().is_empty() {
                    None
                } else {
                    Some(phone_home.as_str())
                }
            },
        }
    }

    /// The extra values beyond the four conventional ones, if any.
    pub fn get_other(&self) -> (r: Option<&Vec<String>>)
        ensures
            match self {
                Gecos::Simple { .. } => r is None,
                Gecos::Detail { other, .. } => match other {
                    None => r is None,
                    Some(o) => r matches Some(v) && v == o,
                },
            },
    {
        match self {
            Gecos::Simple { .. } => None,
            Gecos::Detail { other, .. } => {
                match other {
                    None => None,
                    Some(comments) => Some(comments),
                }
            },
        }
    }
}

} // verus!
