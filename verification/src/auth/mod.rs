//! Users, their password hashes, and the principals that claim to be them.
pub mod basic;
pub mod error;
pub mod inmemory;

use vstd::prelude::*;
use crate::auth::error::{AuthenticationFailed, HashingFailed};

verus! {

/// `bcrypt::BcryptError`, the error of every operation of bcrypt. Nothing
/// inside it is looked at.
#[verifier::external_type_specification]
#[verifier::external_body]
pub struct ExBcryptError(bcrypt::BcryptError);

/// The number of characters of a hash as text: a dollar sign before each
/// of the version's two characters, the cost's two digits and the rest,
/// which is 22 characters of salt and 31 of hash.
pub const HASH_LENGTH: usize = 60;

/// The cost that passwords are hashed with: that of `bcrypt::DEFAULT_COST`.
pub const DEFAULT_COST: u32 = 12;

/// What `bcrypt::verify` returns for a password and the text of a hash:
/// whether they match, or nothing where bcrypt does not take the text for a
/// hash.
pub uninterp spec fn bcrypt_verify(password: Seq<char>, hash: Seq<char>) -> Option<bool>;

/// `bcrypt::verify`: it reads cost and salt out of the text of the hash,
/// hashes the password with them and compares. The result depends on the two
/// texts alone.
#[verifier::external_body]
fn verify_password(password: &str, hash: &str) -> (r: Result<bool, bcrypt::BcryptError>)
    ensures
        match r {
            Ok(matches) => bcrypt_verify(password@, hash@) == Some(matches),
            Err(_) => bcrypt_verify(password@, hash@) is None,
        },
{
    bcrypt::verify(password, hash)
}

/// `bcrypt::hash_with_result` at `bcrypt::DEFAULT_COST`, with what it
/// gives handed out as plain values: the hash as text in version 2b
/// (`format_for_version`), the salt as text (`get_salt`) and the cost
/// (`get_cost`). The salt is random, so two calls differ, and a call fails
/// where no random bytes are to be had. Of every hash that comes back the
/// following holds: the text has 60 characters, the cost is the one asked
/// for, and `bcrypt::verify` finds that the password matches the text,
/// since it reads cost and salt back out of the text and hashes the
/// password with them again.
#[verifier::external_body]
fn hash_with_default_cost(password: &str) -> (r: Result<(String, String, u32), bcrypt::BcryptError>)
    ensures
        r matches Ok(parts) ==> parts.0@.len() == HASH_LENGTH && parts.2 == DEFAULT_COST
            && bcrypt_verify(password@, parts.0@) == Some(true),
{
    match bcrypt::hash_with_result(password, bcrypt::DEFAULT_COST) {
        Ok(parts) => Ok(
            (parts.format_for_version(bcrypt::Version::TwoB), parts.get_salt(), parts.get_cost()),
        ),
        Err(error) => Err(error),
    }
}

/// What a password hash holds.
pub struct PasswordView {
    pub hash: Seq<char>,
    pub salt: Seq<char>,
    pub cost: u32,
}

/// The hash of a password, with the salt and the cost it was made with.
#[derive(Debug)]
pub struct Password {
    hash: String,
    _salt: String,
    _cost: u32,
}

impl View for Password {
    type V = PasswordView;

    closed spec fn view(&self) -> PasswordView {
        PasswordView { hash: self.hash@, salt: self._salt@, cost: self._cost }
    }
}

impl Clone for Password {
    fn clone(&self) -> (r: Self)
        ensures
            r@ == self@,
    {
        Password { hash: self.hash.clone(), _salt: self._salt.clone(), _cost: self._cost }
    }
}

impl Password {
    /// A password hash from what bcrypt gave for it: the hash as text, the
    /// salt as text, and the cost.
    pub fn from_parts(hash: String, salt: String, cost: u32) -> (r: Self)
        ensures
            r@ == (PasswordView { hash: hash@, salt: salt@, cost }),
    {
        Password { hash, _salt: salt, _cost: cost }
    }

    /// The hash as the text that bcrypt reads it back from.
    pub fn hash(&self) -> (r: String)
        ensures
            r@ == self@.hash,
    {
        self.hash.clone()
    }

    /// The cost that the hash was made with.
    pub fn cost(&self) -> (r: u32)
        ensures
            r == self@.cost,
    {
        self._cost
    }

    /// Whether a hash is one that bcrypt made of a password at the default
    /// cost: it has the length of a hash as text, the default cost, and
    /// bcrypt finds that the password matches it.
    pub open spec fn made_of(hashed: PasswordView, password: Seq<char>) -> bool {
        &&& hashed.hash.len() == HASH_LENGTH
        &&& hashed.cost == DEFAULT_COST
        &&& bcrypt_verify(password, hashed.hash) == Some(true)
    }

    /// Hashes a password with a fresh random salt, so that two calls on one
    /// password differ. Whether there is a hash is for bcrypt to say, which
    /// needs random bytes for the salt; where there is one, it is a hash of
    /// the password.
    pub fn new(password: &str) -> (r: Result<Self, HashingFailed>)
        ensures
            r matches Ok(hashed) ==> Password::made_of(hashed@, password@),
    {
        match hash_with_default_cost(password) {
            Ok(parts) => Ok(Password::from_parts(parts.0, parts.1, parts.2)),
            Err(_) => Err(HashingFailed {  }),
        }
    }
}

/// What a user holds.
pub struct UserView {
    pub name: Seq<char>,
    pub password: PasswordView,
}

/// A user of the server.
#[derive(Debug)]
pub struct User {
    name: String,
    password_hash: Password,
}

impl View for User {
    type V = UserView;

    closed spec fn view(&self) -> UserView {
        UserView { name: self.name@, password: self.password_hash@ }
    }
}

impl Clone for User {
    fn clone(&self) -> (r: Self)
        ensures
            r@ == self@,
    {
        User { name: self.name.clone(), password_hash: self.password_hash.clone() }
    }
}

impl User {
    /// A user with a name and a password hash.
    pub fn with_hash(username: &str, password_hash: Password) -> (r: Self)
        ensures
            r@ == (UserView { name: username@, password: password_hash@ }),
    {
        User { name: username.to_owned(), password_hash }
    }

    /// A user with a name and the hash of a password. There is a user where
    /// bcrypt gives a hash, and none where it gives none.
    pub fn new(username: &str, password: &str) -> (r: Result<Self, HashingFailed>)
        ensures
            r matches Ok(user) ==> user@.name == username@ && Password::made_of(
                user@.password,
                password@,
            ),
    {
        match Password::new(password) {
            Ok(password_hash) => Ok(User::with_hash(username, password_hash)),
            Err(e) => Err(e),
        }
    }

    /// The user's name.
    pub fn name(&self) -> (r: String)
        ensures
            r@ == self@.name,
    {
        self.name.clone()
    }
}

/// Someone who claims to be a user, with the means to check the claim.
pub trait AuthenticationPrincipal {
    /// The name of the user that the principal claims to be.
    spec fn name(&self) -> Seq<char>;

    /// The name of the user that the principal claims to be.
    fn principal(&self) -> (r: String)
        ensures
            r@ == self.name(),
    ;

    /// Whether the principal's proof of identity is good for a user.
    spec fn proves(&self, user: UserView) -> bool;

    /// Checks the claim against a user.
    fn authenticate(&self, user: &User) -> (r: Result<(), AuthenticationFailed>)
        ensures
            r is Ok <==> self.proves(user@),
    ;
}

/// Resolves principals to users.
pub trait Authenticate {
    /// The user that a principal is, or a failure that gives no reason.
    fn authenticate<P: AuthenticationPrincipal>(&self, user: &P) -> Result<
        User,
        AuthenticationFailed,
    >;
}

/// Holds users by name.
pub trait UserStore {
    /// The user of a name, if there is one.
    fn get(&self, username: &str) -> Option<&User>;

    /// Takes a user in, unless one of the same name is held already.
    fn add(&mut self, user: User) -> Result<(), error::UserStoreError>;
}

/// A user name and a password in the clear.
#[derive(Debug)]
pub struct BasicAuth {
    username: String,
    password: String,
}

impl BasicAuth {
    /// The user name.
    pub closed spec fn username(&self) -> Seq<char> {
        self.username@
    }

    /// The password.
    pub closed spec fn password(&self) -> Seq<char> {
        self.password@
    }

    /// A principal from a user name and a password.
    pub fn from(username: &str, password: &str) -> (r: Self)
        ensures
            r.username() == username@,
            r.password() == password@,
    {
        BasicAuth { username: username.to_owned(), password: password.to_owned() }
    }

    /// The answer to what the comparison of a password with a hash gave:
    /// success where they matched, a failure where they did not or where the
    /// hash could not be read.
    pub fn verdict(outcome: Option<bool>) -> (r: Result<(), AuthenticationFailed>)
        ensures
            r is Ok <==> outcome == Some(true),
    {
        match outcome {
            Some(true) => Ok(()),
            _ => Err(AuthenticationFailed {  }),
        }
    }
}

impl AuthenticationPrincipal for BasicAuth {
    open spec fn name(&self) -> Seq<char> {
        self.username()
    }

    fn principal(&self) -> (r: String) {
        self.username.clone()
    }

    /// The password must match the user's hash.
    open spec fn proves(&self, user: UserView) -> bool {
        bcrypt_verify(self.password(), user.password.hash) == Some(true)
    }

    fn authenticate(&self, user: &User) -> (r: Result<(), AuthenticationFailed>) {
        let outcome = match verify_password(self.password.as_str(), user.password_hash.hash.as_str()) {
            Ok(matches) => Some(matches),
            Err(_) => None,
        };
        BasicAuth::verdict(outcome)
    }
}

} // verus!
