//! Account decisions behind the authentication endpoints.
//!
//! The web layer itself — routing, sessions, the database — is thin glue
//! around this core and stays with the hosting process. What stands here is
//! the decision logic those endpoints run: who may register and with which
//! role, whether a presented password matches a stored hash, and what a
//! login attempt answers. Password hashing and checking go through bcrypt
//! behind trusted wrappers; everything decided on bcrypt's answers is
//! verified.

use vstd::prelude::*;

verus! {

/// Role of an account.
#[derive(Clone, Copy, Debug, PartialEq, Eq, Structural)]
pub enum UserRole {
    /// The single owning account, created by the first registration ever.
    ServerOwner,
    /// An ordinary member account.
    Member,
}

impl Default for UserRole {
    /// A newly registered account is an ordinary member unless the
    /// registration rule says otherwise.
    fn default() -> (r: Self)
        ensures
            r == UserRole::Member,
    {
        UserRole::Member
    }
}

/// A user as the web layer sees it: no password material.
#[derive(Debug, PartialEq, Eq)]
pub struct User {
    /// Unique account name.
    pub username: String,
    /// The account's role.
    pub role: UserRole,
}

impl Clone for User {
    /// Cloning a user yields a value equal to the original.
    fn clone(&self) -> (r: Self)
        ensures
            r == *self,
    {
        User { username: self.username.clone(), role: self.role }
    }
}

/// Credentials presented to the login and registration endpoints.
#[derive(Debug)]
pub struct LoginOrRegisterArgs {
    /// Account name.
    pub username: String,
    /// Password, in the clear; it is hashed before anything stores it.
    pub password: String,
}

/// A stored account row: the user together with the bcrypt hash of their
/// password, as the persistence layer holds it.
#[derive(Debug, PartialEq, Eq)]
pub struct StoredUser {
    /// Unique account name.
    pub username: String,
    /// bcrypt hash of the account's password.
    pub hashed_password: String,
    /// The account's role.
    pub role: UserRole,
}

/// Errors of the authentication decisions.
#[derive(Clone, Copy, Debug, PartialEq, Eq, Structural)]
pub enum AuthError {
    /// No usable session, and the presented credentials name no valid
    /// account.
    Unauthorized,
    /// Registration refused: once accounts exist, only a logged-in session
    /// may register member accounts.
    Forbidden,
    /// The password could not be hashed or checked.
    Internal,
}

/// What `bcrypt::verify` answers for a password and a stored hash — a
/// deterministic function of the two arguments alone.
pub uninterp spec fn bcrypt_matches(password: Seq<char>, hash: Seq<char>) -> bool;

/// Whether `bcrypt::verify` can read this string as a bcrypt hash (the
/// `$2_$cc$...` shape with a cost in range and valid base64 parts) — a
/// deterministic property of the hash string alone; the password never
/// causes an error.
pub uninterp spec fn bcrypt_hash_readable(hash: Seq<char>) -> bool;

#[verifier::external_type_specification]
#[verifier::external_body]
pub struct ExBcryptError(bcrypt::BcryptError);

/// Relies on `bcrypt::verify`: deterministic in the password and the hash.
/// It fails exactly when the stored hash cannot be parsed as a bcrypt hash
/// (a property of the hash string alone); on success it answers whether
/// the password matches the hash.
#[verifier::external_body]
fn bcrypt_verify(password: &str, hash: &str) -> (r: Result<bool, bcrypt::BcryptError>)
    ensures
        r is Ok <==> bcrypt_hash_readable(hash@),
        r matches Ok(b) ==> b == bcrypt_matches(password@, hash@),
{
    bcrypt::verify(password, hash)
}

/// Relies on `bcrypt::hash`: a freshly (randomly) salted hash of the
/// password, so no result value is named; bcrypt documents that the
/// produced string is a well-formed bcrypt hash which verifies against the
/// password it was made from, and that a cost outside the allowed 4–31
/// range is refused.
#[verifier::external_body]
fn bcrypt_hash(password: &str, cost: u32) -> (r: Result<String, bcrypt::BcryptError>)
    ensures
        r matches Ok(h) ==> bcrypt_matches(password@, h@) && bcrypt_hash_readable(h@),
        cost < 4 || cost > 31 ==> r is Err,
{
    bcrypt::hash(password, cost)
}

/// The cost new password hashes are created with (bcrypt's default).
pub fn get_hash_cost() -> (c: u32)
    ensures
        c == 12,
{
    12
}

/// Whether the presented password matches the stored bcrypt hash; fails
/// exactly when the stored hash cannot be read as a bcrypt hash.
pub fn verify_password(hash: &str, password: &str) -> (r: Result<bool, AuthError>)
    ensures
        r is Ok <==> bcrypt_hash_readable(hash@),
        r matches Ok(b) ==> b == bcrypt_matches(password@, hash@),
        r is Err ==> r == Err::<bool, AuthError>(AuthError::Internal),
{
    match bcrypt_verify(password, hash) {
        Ok(b) => Ok(b),
        Err(_) => Err(AuthError::Internal),
    }
}

/// Hash a fresh password for storage: any answer it gives back is a
/// readable bcrypt hash that verifies against the password it was made
/// from, and a cost outside the allowed 4–31 range always fails.
pub fn hash_password(password: &str, cost: u32) -> (r: Result<String, AuthError>)
    ensures
        r matches Ok(h) ==> bcrypt_matches(password@, h@) && bcrypt_hash_readable(h@),
        cost < 4 || cost > 31 ==> r is Err,
        r is Err ==> r == Err::<String, AuthError>(AuthError::Internal),
{
    match bcrypt_hash(password, cost) {
        Ok(h) => Ok(h),
        Err(_) => Err(AuthError::Internal),
    }
}

/// Which role a registration receives, if any: the first account ever
/// created becomes the server owner; afterwards, a request without a
/// logged-in session is refused, and one with a session registers an
/// ordinary member.
pub fn registration_role(session_has_user: bool, has_users: bool) -> (r: Result<
    UserRole,
    AuthError,
>)
    ensures
        !has_users ==> r == Ok::<UserRole, AuthError>(UserRole::ServerOwner),
        has_users && !session_has_user ==> r == Err::<UserRole, AuthError>(AuthError::Forbidden),
        has_users && session_has_user ==> r == Ok::<UserRole, AuthError>(UserRole::Member),
{
    if session_has_user == false && has_users {
        Err(AuthError::Forbidden)
    } else if !has_users {
        Ok(UserRole::ServerOwner)
    } else {
        Ok(UserRole::default())
    }
}

/// The decision and compute part of the registration endpoint: decide the
/// role (or refuse the request), hash the presented password, and hand
/// back the account row for the caller to persist. Whoever registers
/// `Ok(row)` can log in with the password they presented.
pub fn register_user(
    session_has_user: bool,
    has_users: bool,
    input: &LoginOrRegisterArgs,
    cost: u32,
) -> (r: Result<StoredUser, AuthError>)
    ensures
        r == Err::<StoredUser, AuthError>(AuthError::Forbidden) <==> has_users
            && !session_has_user,
        !(has_users && !session_has_user) && (cost < 4 || cost > 31) ==> r == Err::<
            StoredUser,
            AuthError,
        >(AuthError::Internal),
        r matches Ok(u) ==> {
            &&& u.username == input.username
            &&& bcrypt_matches(input.password@, u.hashed_password@)
            &&& bcrypt_hash_readable(u.hashed_password@)
            &&& u.role == (if !has_users {
                UserRole::ServerOwner
            } else {
                UserRole::Member
            })
        },
        r is Err ==> r == Err::<StoredUser, AuthError>(AuthError::Forbidden) || r == Err::<
            StoredUser,
            AuthError,
        >(AuthError::Internal),
{
    let role = match registration_role(session_has_user, has_users) {
        Ok(role) => role,
        Err(e) => {
            return Err(e);
        },
    };
    let hashed_password = match hash_password(input.password.as_str(), cost) {
        Ok(h) => h,
        Err(e) => {
            return Err(e);
        },
    };
    Ok(StoredUser { username: input.username.clone(), hashed_password, role })
}

/// What a login decided on storage alone must answer: an account that was
/// not found is unauthorized; a found account whose stored hash cannot be
/// read as a bcrypt hash is an internal error; otherwise the answer is the
/// account's user exactly when the presented password matches the stored
/// hash, and unauthorized exactly when it does not.
pub open spec fn login_storage_decision(
    r: Result<User, AuthError>,
    password: Seq<char>,
    fetched: Option<StoredUser>,
) -> bool {
    match fetched {
        None => r == Err::<User, AuthError>(AuthError::Unauthorized),
        Some(su) => if !bcrypt_hash_readable(su.hashed_password@) {
            r == Err::<User, AuthError>(AuthError::Internal)
        } else if bcrypt_matches(password, su.hashed_password@) {
            r == Ok::<User, AuthError>(User { username: su.username, role: su.role })
        } else {
            r == Err::<User, AuthError>(AuthError::Unauthorized)
        },
    }
}

/// The decision part of the login endpoint. A session already logged in
/// under the requested name answers at once with that user; otherwise the
/// account fetched from storage must exist and the presented password must
/// match its stored hash, anything else is unauthorized, and a stored hash
/// that cannot be read as a bcrypt hash is an internal error.
pub fn login_user(
    session_user: Option<User>,
    input: &LoginOrRegisterArgs,
    fetched: Option<StoredUser>,
) -> (r: Result<User, AuthError>)
    ensures
        ({
            match session_user {
                Some(u) => if u.username@ == input.username@ {
                    r == Ok::<User, AuthError>(u)
                } else {
                    login_storage_decision(r, input.password@, fetched)
                },
                None => login_storage_decision(r, input.password@, fetched),
            }
        }),
{
    if let Some(u) = session_user {
        if u.username == input.username {
            return Ok(u);
        }
    }
    match fetched {
        None => Err(AuthError::Unauthorized),
        Some(su) => {
            let matched = match verify_password(su.hashed_password.as_str(), input.password.as_str()) {
                Ok(b) => b,
                Err(e) => {
                    return Err(e);
                },
            };
            if !matched {
                return Err(AuthError::Unauthorized);
            }
            Ok(User { username: su.username, role: su.role })
        },
    }
}

/// The decision of the session-viewer endpoint: the session's user when
/// someone is logged in, otherwise an unauthorized error.
pub fn session_viewer(session_user: Option<User>) -> (r: Result<User, AuthError>)
    ensures
        session_user matches Some(u) ==> r == Ok::<User, AuthError>(u),
        session_user is None ==> r == Err::<User, AuthError>(AuthError::Unauthorized),
{
    match session_user {
        Some(u) => Ok(u),
        None => Err(AuthError::Unauthorized),
    }
}

} // verus!
