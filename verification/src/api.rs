//! The request types the account-database operations consume, and the
//! traits under which a database and its records are read and
//! written.  The contracts live on the implementing types; the traits
//! give the embedding program a stable surface.

pub mod createuser_args;
pub mod deleteuser_args;
pub mod newuser_args;

pub use createuser_args::CreateHome;
pub use createuser_args::CreatePrimaryGroup;
pub use createuser_args::CreateUserArgs;
pub use deleteuser_args::DeleteHome;
pub use deleteuser_args::DeletePrimaryGroup;
pub use deleteuser_args::DeleteUserArgs;
pub use newuser_args::NewUserArgs;

use crate::error::UserLibError;
use crate::group::Group;
use crate::group::MembershipKind;
use crate::user::User;
use crate::user::gecos_fields::Gecos;
use vstd::prelude::*;

verus! {

/// Read access to a user database.
pub trait UserDBRead {
    fn get_all_users(&self) -> &Vec<User>;

    fn get_user_by_name(&self, name: &str) -> Option<&User>;

    fn get_user_by_id(&self, uid: u32) -> Option<&User>;

    fn get_all_groups(&self) -> &Vec<Group>;

    fn get_group_by_name(&self, name: &str) -> Option<&Group>;

    fn get_group_by_id(&self, id: u32) -> Option<&Group>;
}

/// Validity-and-uniqueness checks against a user database.
pub trait UserDBValidation {
    fn is_uid_valid_and_free(&self, uid: u32) -> bool;

    fn is_username_valid_and_free(&self, name: &str) -> bool;

    fn is_gid_valid_and_free(&self, gid: u32) -> bool;

    fn is_groupname_valid_and_free(&self, name: &str) -> bool;
}

/// Write access to a user database.
pub trait UserDBWrite {
    fn delete_user(&mut self, args: DeleteUserArgs) -> Result<User, UserLibError>;

    fn new_user(&mut self, args: CreateUserArgs) -> Result<User, UserLibError>;
}

/// Read access to one user record.
pub trait UserRead {
    fn get_username(&self) -> Option<&str>;

    fn get_uid(&self) -> u32;

    fn get_gid(&self) -> u32;

    fn get_password(&self) -> Option<&str>;

    fn get_gecos(&self) -> Option<&Gecos>;

    fn get_home_dir(&self) -> Option<&str>;

    fn get_shell_path(&self) -> Option<&str>;

    fn get_full_name(&self) -> Option<&str>;

    fn get_room(&self) -> Option<&str>;

    fn get_phone_work(&self) -> Option<&str>;

    fn get_phone_home(&self) -> Option<&str>;

    fn get_other(&self) -> Option<&Vec<String>>;
}

/// Write access to one user record.
pub trait UserWrite {
    fn set_username(&mut self, username: String);

    fn set_uid(&mut self, uid: u32);

    fn set_gid(&mut self, gid: u32);

    fn set_home_dir(&mut self, home_dir: String);

    fn set_shell_path(&mut self, shell_path: String);
}

/// Read access to one group record.
pub trait GroupRead {
    fn get_groupname(&self) -> Option<&str>;

    fn get_encrypted_password(&self) -> Option<&str>;

    fn get_gid(&self) -> Option<u32>;

    fn get_member_names(&self) -> Option<Vec<&str>>;
}

/// Write access to one group record.
pub trait GroupWrite {
    fn append_user(&mut self, member: crate::user::passwd_fields::Username);

    fn remove_member(&mut self, kind: MembershipKind, name: &str);
}

} // verus!
