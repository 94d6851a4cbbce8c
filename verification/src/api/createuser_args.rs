//! The request that creating a user consumes: the name, and the
//! dispositions for the home directory and the primary group.

use vstd::prelude::*;

verus! {

/// What to do about the new user's home directory.
#[derive(Debug, Clone, PartialEq, Eq)]
pub enum CreateHome {
    Create,
    Skip,
    HomeFromDir { path: String },
}

/// What to do about the new user's primary group.
#[derive(Debug, Clone, PartialEq, Eq)]
pub enum CreatePrimaryGroup {
    Create,
    Skip,
    CreateIfEmptyOrAdd,
}

/// The arguments of a create-user request.
#[derive(Debug)]
pub struct CreateUserArgs {
    pub username: String,
    pub delete_home: CreateHome,
    pub delete_primary_group: CreatePrimaryGroup,
}

impl Default for CreateUserArgs {
    fn default() -> (r: Self)
        ensures
            r.username@ == "defaultuser"@,
            r.delete_home is Create,
            r.delete_primary_group is CreateIfEmptyOrAdd,
    {
        CreateUserArgs {
            username: "defaultuser".to_owned(),
            delete_home: CreateHome::Create,
            delete_primary_group: CreatePrimaryGroup::CreateIfEmptyOrAdd,
        }
    }
}

impl CreateUserArgs {
    /// A builder starting from the defaults.
    pub fn builder() -> (r: CreateUserArgsBuilder)
        ensures
            r.username is None,
            r.delete_home is None,
            r.delete_primary_group is None,
    {
        CreateUserArgsBuilder { username: None, delete_home: None, delete_primary_group: None }
    }
}

/// Assembles a [`CreateUserArgs`], falling back to the defaults for
/// anything left unset.
#[derive(Debug)]
pub struct CreateUserArgsBuilder {
    pub username: Option<String>,
    pub delete_home: Option<CreateHome>,
    pub delete_primary_group: Option<CreatePrimaryGroup>,
}

impl CreateUserArgsBuilder {
    /// Sets the username.
    pub fn username(self, value: &str) -> (r: Self)
        ensures
            (r.username matches Some(u) && u@ == value@),
            r.delete_home == self.delete_home,
            r.delete_primary_group == self.delete_primary_group,
    {
        CreateUserArgsBuilder {
            username: Some(value.to_owned()),
            delete_home: self.delete_home,
            delete_primary_group: self.delete_primary_group,
        }
    }

    /// Sets the home-directory disposition.
    pub fn delete_home(self, value: CreateHome) -> (r: Self)
        ensures
            (r.delete_home matches Some(v) && v == value),
            r.username == self.username,
            r.delete_primary_group == self.delete_primary_group,
    {
        CreateUserArgsBuilder {
            username: self.username,
            delete_home: Some(value),
            delete_primary_group: self.delete_primary_group,
        }
    }

    /// Sets the primary-group disposition.
    pub fn delete_primary_group(self, value: CreatePrimaryGroup) -> (r: Self)
        ensures
            (r.delete_primary_group matches Some(v) && v == value),
            r.username == self.username,
            r.delete_home == self.delete_home,
    {
        CreateUserArgsBuilder {
            username: self.username,
            delete_home: self.delete_home,
            delete_primary_group: Some(value),
        }
    }

    /// The assembled request; unset fields take the defaults.
    pub fn build(self) -> (r: Result<CreateUserArgs, crate::error::UserLibError>)
        ensures
            r matches Ok(a) && {
                &&& (match self.username {
                    Some(u) => a.username == u,
                    None => a.username@ == "defaultuser"@,
                })
                &&& (match self.delete_home {
                    Some(h) => a.delete_home == h,
                    None => a.delete_home is Create,
                })
                &&& (match self.delete_primary_group {
                    Some(g) => a.delete_primary_group == g,
                    None => a.delete_primary_group is CreateIfEmptyOrAdd,
                })
            },
    {
        let username: String = match self.username {
            Some(u) => u,
            None => "defaultuser".to_owned(),
        };
        let delete_home: CreateHome = match self.delete_home {
            Some(h) => h,
            None => CreateHome::Create,
        };
        let delete_primary_group: CreatePrimaryGroup = match self.delete_primary_group {
            Some(g) => g,
            None => CreatePrimaryGroup::CreateIfEmptyOrAdd,
        };
        Ok(CreateUserArgs { username, delete_home, delete_primary_group })
    }
}

} // verus!
