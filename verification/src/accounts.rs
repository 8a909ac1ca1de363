//! Account payloads and the pure rules the user service applies to them:
//! registration and login field checks, and the closed set of roles that
//! replaces comparisons on raw role strings.

use vstd::prelude::*;

verus! {

/// Payload of a registration request.
pub struct RegisterPayload {
    pub username: String,
    pub email: String,
    pub password: String,
}

/// Payload of a login request.
pub struct LoginPayload {
    pub email: String,
    pub password: String,
}

/// Payload of a profile update; fields left `None` keep their value.
pub struct UpdateProfilePayload {
    pub username: Option<String>,
    pub email: Option<String>,
}

/// Payload of an administrative role change.
pub struct UpdateUserRolePayload {
    pub role: String,
}

/// The closed set of roles a user can hold.
#[derive(Clone, Copy, Debug, PartialEq, Eq, Structural)]
pub enum Role {
    User,
    Admin,
}

/// A registration is accepted only with a non-empty username, a non-empty
/// email, and a password of at least `MIN_PASSWORD_BYTES` bytes. `str::len`
/// is the length in bytes of the encoding, not in characters, so a short
/// password of multi-byte characters can still be long enough.
pub fn registration_valid(username: &str, email: &str, password: &str) -> (ok: bool)
    ensures
        ok == (username.len() > 0 && email.len() > 0 && password.len() >= MIN_PASSWORD_BYTES
            as usize),
{
    username.len() > 0 && email.len() > 0 && password.len() >= MIN_PASSWORD_BYTES as usize
}

/// A login attempt is accepted for validation only with a non-empty email
/// and a non-empty password.
pub fn login_valid(p: &LoginPayload) -> (ok: bool)
    ensures
        ok == (p.email@.len() > 0 && p.password@.len() > 0),
{
    !p.email.as_str().is_empty() && !p.password.as_str().is_empty()
}

/// Parse a raw role string into the closed role set: exactly the two
/// spellings the service stores are accepted.
pub fn parse_role(role: &String) -> (r: Option<Role>)
    ensures
        role@ == "admin"@ ==> r == Some(Role::Admin),
        role@ == "user"@ ==> r == Some(Role::User),
        r is None <==> (role@ != "admin"@ && role@ != "user"@),
        r == Some(Role::Admin) ==> role@ == "admin"@,
        r == Some(Role::User) ==> role@ == "user"@,
{
    proof {
        // The two accepted spellings differ, so the branches are disjoint.
        reveal_strlit("admin");
        reveal_strlit("user");
        assert("admin"@.len() == 5);
        assert("user"@.len() == 4);
        assert("admin"@ != "user"@);
    }
    let admin = String::from_str("admin");
    let user = String::from_str("user");
    if *role == admin {
        Some(Role::Admin)
    } else if *role == user {
        Some(Role::User)
    } else {
        None
    }
}

/// A role-change payload is accepted exactly when its role parses.
pub fn role_payload_valid(p: &UpdateUserRolePayload) -> (ok: bool)
    ensures
        ok == (p.role@ == "admin"@ || p.role@ == "user"@),
{
    match parse_role(&p.role) {
        Some(_) => true,
        None => false,
    }
}

/// The admin gate: only a claims role spelled exactly `admin` passes.
pub fn is_admin_role(role: &String) -> (ok: bool)
    ensures
        ok == (role@ == "admin"@),
{
    let admin = String::from_str("admin");
    *role == admin
}

/// Minimum password length for registration, in bytes of its encoding.
pub const MIN_PASSWORD_BYTES: u64 = 8;

} // verus!
