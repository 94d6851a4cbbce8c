//! An earlier shape of the delete request, kept for compatibility:
//! the name, and the dispositions for the home directory and the
//! primary group.

use vstd::prelude::*;

verus! {

/// What to do about the deleted user's home directory.
#[derive(Debug, Clone, PartialEq, Eq)]
pub enum DeleteHome {
    Delete,
    Keep,
    Archive { path: String },
}

/// What to do about the deleted user's primary group.
#[derive(Debug, Clone, PartialEq, Eq)]
pub enum DeletePrimaryGroup {
    Delete,
    Keep,
    DeleteIfEmpty,
}

/// The arguments of the earlier delete-user request shape.
#[derive(Debug)]
pub struct NewUserArgs {
    pub username: String,
    pub delete_home: DeleteHome,
    pub delete_primary_group: DeletePrimaryGroup,
}

impl Default for NewUserArgs {
    fn default() -> (r: Self)
        ensures
            r.username@ == "defaultuser"@,
            r.delete_home is Keep,
            r.delete_primary_group is DeleteIfEmpty,
    {
        NewUserArgs {
            username: "defaultuser".to_owned(),
            delete_home: DeleteHome::Keep,
            delete_primary_group: DeletePrimaryGroup::DeleteIfEmpty,
        }
    }
}

impl NewUserArgs {
    /// A builder starting from the defaults.
    pub fn builder() -> (r: NewUserArgsBuilder)
        ensures
            r.username is None,
            r.delete_home is None,
            r.delete_primary_group is None,
    {
        NewUserArgsBuilder { username: None, delete_home: None, delete_primary_group: None }
    }
}

/// Assembles a [`NewUserArgs`], falling back to the defaults for
/// anything left unset.
#[derive(Debug)]
pub struct NewUserArgsBuilder {
    pub username: Option<String>,
    pub delete_home: Option<DeleteHome>,
    pub delete_primary_group: Option<DeletePrimaryGroup>,
}

impl NewUserArgsBuilder {
    /// Sets the username.
    pub fn username(self, value: &str) -> (r: Self)
        ensures
            (r.username matches Some(u) && u@ == value@),
            r.delete_home == self.delete_home,
            r.delete_primary_group == self.delete_primary_group,
    {
        NewUserArgsBuilder {
            username: Some(value.to_owned()),
            delete_home: self.delete_home,
            delete_primary_group: self.delete_primary_group,
        }
    }

    /// Sets the home-directory disposition.
    pub fn delete_home(self, value: DeleteHome) -> (r: Self)
        ensures
            (r.delete_home matches Some(v) && v == value),
            r.username == self.username,
            r.delete_primary_group == self.delete_primary_group,
    {
        NewUserArgsBuilder {
            username: self.username,
            delete_home: Some(value),
            delete_primary_group: self.delete_primary_group,
        }
    }

    /// Sets the primary-group disposition.
    pub fn delete_primary_group(self, value: DeletePrimaryGroup) -> (r: Self)
        ensures
            (r.delete_primary_group matches Some(v) && v == value),
            r.username == self.username,
            r.delete_home == self.delete_home,
    {
        NewUserArgsBuilder {
            username: self.username,
            delete_home: self.delete_home,
            delete_primary_group: Some(value),
        }
    }

    /// The assembled request; unset fields take the defaults.
    pub fn build(self) -> (r: Result<NewUserArgs, crate::error::UserLibError>)
        ensures
            r matches Ok(a) && {
                &&& (match self.username {
                    Some(u) => a.username == u,
                    None => a.username@ == "defaultuser"@,
                })
                &&& (match self.delete_home {
                    Some(h) => a.delete_home == h,
                    None => a.delete_home is Keep,
                })
                &&& (match self.delete_primary_group {
                    Some(g) => a.delete_primary_group == g,
                    None => a.delete_primary_group is DeleteIfEmpty,
                })
            },
    {
        let username: String = match self.username {
            Some(u) => u,
            None => "defaultuser".to_owned(),
        };
        let delete_home: DeleteHome = match self.delete_home {
            Some(h) => h,
            None => DeleteHome::Keep,
        };
        let delete_primary_group: DeletePrimaryGroup = match self.delete_primary_group {
            Some(g) => g,
            None => DeletePrimaryGroup::DeleteIfEmpty,
        };
        Ok(NewUserArgs { username, delete_home, delete_primary_group })
    }
}

} // verus!
