//! The consistency snapshot: the complete raw text of each backing
//! file, captured at load time and compared byte for byte before any
//! destructive write.

use crate::text::str_eq;
use vstd::prelude::*;

verus! {

/// The baseline text of one backing file.
pub struct SourceHash {
    pub hashvalue: String,
}

impl SourceHash {
    /// Captures the given text as the baseline.
    pub fn new(src: &str) -> (r: Self)
        ensures
            r.hashvalue@ == src@,
    {
        SourceHash { hashvalue: src.to_owned() }
    }

    /// Whether the file has diverged from the baseline.
    pub fn has_changed(&self, new: &str) -> (r: bool)
        ensures
            r == (self.hashvalue@ != new@),
    {
        !str_eq(self.hashvalue.as_str(), new)
    }
}

/// The baselines of the three account databases.
pub struct Hashes {
    pub passwd: SourceHash,
    pub shadow: SourceHash,
    pub group: SourceHash,
}

impl Hashes {
    /// Captures all three baselines.
    pub fn new(passwd: &str, shadow: &str, group: &str) -> (r: Self)
        ensures
            r.passwd.hashvalue@ == passwd@,
            r.shadow.hashvalue@ == shadow@,
            r.group.hashvalue@ == group@,
    {
        Hashes {
            passwd: SourceHash::new(passwd),
            shadow: SourceHash::new(shadow),
            group: SourceHash::new(group),
        }
    }
}

} // verus!
