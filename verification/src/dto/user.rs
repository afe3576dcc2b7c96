//! Records of the user surface, and the mapping between them.

use vstd::prelude::*;

verus! {

/// A user as handed to clients: the password never leaves the service.
pub struct UserDTO {
    pub username: String,
    pub email: String,
    pub role: Option<String>,
    pub created_at: Option<String>,
}

/// A registration as handed in by clients.
pub struct NewUserDTO {
    pub username: String,
    pub email: String,
    pub password: String,
    pub role: Option<String>,
    pub created_at: Option<String>,
}

impl From<NewUserDTO> for UserDTO {
    /// Drops the password and keeps the rest of the registration.
    fn from(user: NewUserDTO) -> (r: UserDTO) {
        UserDTO {
            username: user.username,
            email: user.email,
            role: user.role,
            created_at: user.created_at,
        }
    }
}

impl vstd::std_specs::convert::FromSpecImpl<NewUserDTO> for UserDTO {
    open spec fn obeys_from_spec() -> bool {
        true
    }

    open spec fn from_spec(user: NewUserDTO) -> UserDTO {
        UserDTO {
            username: user.username,
            email: user.email,
            role: user.role,
            created_at: user.created_at,
        }
    }
}

} // verus!
