//! What can go wrong with users and their credentials.
use vstd::prelude::*;
use vstd::string::StringExecFns;

verus! {

/// Why a user store refused an operation; each case names the user.
#[derive(Debug, Clone)]
pub enum UserStoreError {
    Exists(String),
    DoesNotExist(String),
}

impl UserStoreError {
    /// The text of the error.
    pub open spec fn text(self) -> Seq<char> {
        match self {
            UserStoreError::Exists(name) => "user "@ + name@ + " already exists"@,
            UserStoreError::DoesNotExist(name) => "user "@ + name@ + " does not exist"@,
        }
    }

    /// The error as text.
    pub fn to_string(&self) -> (r: String)
        ensures
            r@ == self.text(),
    {
        let mut out = String::from_str("user ");
        match self {
            UserStoreError::Exists(name) => {
                out.append(name.as_str());
                out.append(" already exists");
            },
            UserStoreError::DoesNotExist(name) => {
                out.append(name.as_str());
                out.append(" does not exist");
            },
        }
        out
    }
}

/// Why a principal was turned away.
#[derive(Debug, Clone)]
pub enum AuthenticationError {
    BadCredentials,
    Unauthorized,
}

/// A user of that name is in the store already.
#[derive(Debug)]
pub struct UserAlreadyExists {
    username: String,
}

/// No user of that name is in the store.
#[derive(Debug)]
pub struct UserDoesNotExist {
    username: String,
}

/// The principal is not who it claims to be. The error says nothing of the
/// reason, so that it does not tell whether the user exists.
#[derive(Debug)]
pub struct AuthenticationFailed {}

/// A password could not be hashed.
#[derive(Debug)]
pub struct HashingFailed {}

/// Why a user could not be made and taken into a store.
#[derive(Debug)]
pub enum RegistrationError {
    Hashing(HashingFailed),
    Store(UserStoreError),
}

impl AuthenticationFailed {
    /// The error as text.
    pub fn to_string(&self) -> (r: String)
        ensures
            r@ == "authentication failed"@,
    {
        String::from_str("authentication failed")
    }
}

impl HashingFailed {
    /// The error as text.
    pub fn to_string(&self) -> (r: String)
        ensures
            r@ == "password hashing failed"@,
    {
        String::from_str("password hashing failed")
    }
}

impl UserAlreadyExists {
    /// The name of the user.
    pub closed spec fn name(&self) -> Seq<char> {
        self.username@
    }

    /// The error for a user name.
    pub fn new(username: &str) -> (r: Box<Self>)
        ensures
            r.name() == username@,
    {
        Box::new(UserAlreadyExists { username: username.to_owned() })
    }

    /// The error as text.
    pub fn to_string(&self) -> (r: String)
        ensures
            r@ == "user "@ + self.name() + " already exists"@,
    {
        let mut out = String::from_str("user ");
        out.append(self.username.as_str());
        out.append(" already exists");
        out
    }
}

impl UserDoesNotExist {
    /// The name of the user.
    pub closed spec fn name(&self) -> Seq<char> {
        self.username@
    }

    /// The error for a user name.
    pub fn new(username: &str) -> (r: Box<Self>)
        ensures
            r.name() == username@,
    {
        Box::new(UserDoesNotExist { username: username.to_owned() })
    }

    /// The error as text.
    pub fn to_string(&self) -> (r: String)
        ensures
            r@ == "user "@ + self.name() + " does not exist"@,
    {
        let mut out = String::from_str("user ");
        out.append(self.username.as_str());
        out.append(" does not exist");
        out
    }
}

} // verus!
