//! A local user/group account database engine.
//!
//! The library parses, holds, queries, and mutates the three flat-file
//! account databases (`passwd`, `shadow`, `group`) used by Unix-like
//! systems.  Records are parsed and formatted by an exact, proven
//! round-tripping codec; cross-process coordination is modelled by a
//! cooperative lock protocol and an optimistic consistency snapshot.
//! All file reading and writing is left to the embedding program; the
//! library works on file contents handed to it as strings and returns
//! the new contents to be written.

pub mod api;
pub mod error;
pub mod group;
pub mod numbers;
pub mod passwd;
pub mod text;
pub mod user;
pub mod userlib;

pub use error::MyMessage;
pub use error::ParseError;
pub use error::UserLibError;
pub use group::Group;
pub use user::User;
pub use user::gecos_fields::Gecos;
pub use user::passwd_fields::EncryptedPassword;
pub use user::passwd_fields::Gid;
pub use user::passwd_fields::HomeDir;
pub use user::passwd_fields::Password;
pub use user::passwd_fields::ShellPath;
pub use user::passwd_fields::Uid;
pub use user::passwd_fields::Username;
pub use user::shadow_fields::Shadow;
pub use userlib::NewFromString;
pub use userlib::UserDBLocal;
pub use userlib::files::Files;
