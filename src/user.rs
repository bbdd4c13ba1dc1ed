use vstd::prelude::*;

verus! {

/// Permission tier of an account.
#[derive(Clone, Copy, Debug, PartialEq, Eq, Structural)]
pub enum AccessLevel {
    User,
    Employee,
    Admin,
}

/// An account record, stored under its session token.
pub struct User {
    pub password: String,
    pub username: String,
    pub access_level: AccessLevel,
    pub uuid: String,
}

/// The public profile of a user: everything but the password.
pub struct ToStrUser<'a> {
    pub username: &'a str,
    pub access_level: &'a AccessLevel,
    pub uuid: &'a str,
}

/// Whether `p` is the public profile of `u`.
pub open spec fn is_profile_of(p: ToStrUser, u: User) -> bool {
    &&& p.username@ == u.username@
    &&& *p.access_level == u.access_level
    &&& p.uuid@ == u.uuid@
}

/// Relies on uuid::Uuid::new_v4 and its `Display`: a random version-4 id,
/// written as 36 characters in the hyphenated form (8-4-4-4-12), whose
/// version digit is `4`.
#[verifier::external_body]
fn fresh_uuid() -> (r: String)
    ensures
        r@.len() == 36,
        r@[8] == '-' && r@[13] == '-' && r@[18] == '-' && r@[23] == '-',
        r@[14] == '4',
{
    uuid::Uuid::new_v4().to_string()
}

impl User {
    /// A plain user account with the given credentials and id.
    pub fn with_uuid(username: String, password: String, uuid: String) -> (r: User)
        ensures
            r.username@ == username@,
            r.password@ == password@,
            r.uuid@ == uuid@,
            r.access_level == AccessLevel::User,
    {
        User { username, password, access_level: AccessLevel::User, uuid }
    }

    /// A plain user account with the given credentials and a fresh random id.
    pub fn new(username: String, password: String) -> (r: User)
        ensures
            r.username@ == username@,
            r.password@ == password@,
            r.uuid@.len() == 36,
            r.uuid@[8] == '-' && r.uuid@[13] == '-' && r.uuid@[18] == '-' && r.uuid@[23] == '-',
            r.uuid@[14] == '4',
            r.access_level == AccessLevel::User,
    {
        let uuid = fresh_uuid();
        User::with_uuid(username, password, uuid)
    }

    /// The public profile of this user.
    pub fn web_user(&self) -> (r: ToStrUser<'_>)
        ensures
            is_profile_of(r, *self),
    {
        ToStrUser {
            username: self.username.as_str(),
            access_level: &self.access_level,
            uuid: self.uuid.as_str(),
        }
    }
}

} // verus!
