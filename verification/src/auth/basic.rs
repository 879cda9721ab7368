//! Users with passwords in the clear, for the blocking request path: a store
//! that holds a password for each name, and the authenticator on top of it.
use vstd::prelude::*;
use crate::lookup::{
    distinct, find, first_at, lemma_first_at, lemma_first_at_push, names, Named,
};
use crate::text::{same_text, string_or_empty, text_or_empty};

verus! {

/// Someone whom a store has accepted.
#[derive(Debug)]
pub struct User {
    _authenticated: bool,
    _username: String,
}

impl User {
    /// Whether the user was accepted.
    pub closed spec fn authenticated(&self) -> bool {
        self._authenticated
    }

    /// The user's name.
    pub closed spec fn username(&self) -> Seq<char> {
        self._username@
    }

    /// Whether the user was accepted.
    pub fn is_authenticated(&self) -> (r: bool)
        ensures
            r == self.authenticated(),
    {
        self._authenticated
    }

    /// The user's name.
    pub fn name(&self) -> (r: String)
        ensures
            r@ == self.username(),
    {
        self._username.clone()
    }
}

/// A proof of identity.
pub trait Auth {

}

/// Checks proofs of identity of one kind.
pub trait Authenticator<A: Auth> {
    /// The user that the proof is good for, if it is good.
    fn authenticate(&self, auth: A) -> Option<User>;
}

/// A user name and a password.
#[derive(Debug)]
pub struct BasicAuth {
    pub username: String,
    pub password: String,
}

impl BasicAuth {
    /// A user name and a password from bytes. Bytes that are not text count
    /// as the empty text.
    pub fn from(username: &[u8], password: &[u8]) -> (r: BasicAuth)
        ensures
            r.username@ == text_or_empty(username@),
            r.password@ == text_or_empty(password@),
    {
        BasicAuth { username: string_or_empty(username), password: string_or_empty(password) }
    }
}

impl Auth for BasicAuth {

}

/// Holds what it takes to accept a user by name and password.
pub trait UserStore {
    /// Whether the store accepts a name with a password.
    spec fn accepts(&self, username: Seq<char>, password: Seq<char>) -> bool;

    /// The user of a name, where the store accepts the name with the
    /// password.
    fn authenticate(&self, username: String, password: String) -> (r: Option<User>)
        ensures
            r is Some <==> self.accepts(username@, password@),
            r matches Some(user) ==> user.authenticated() && user.username() == username@,
    ;

    /// Forgets a user. It fails where there is no user of that name.
    fn delete(&mut self, username: String) -> Result<(), ()>;
}

/// Checks user names and passwords against a store.
pub struct BasicAuthenticator<S: UserStore> {
    _store: S,
}

impl<S: UserStore> BasicAuthenticator<S> {
    /// The store behind the authenticator.
    pub closed spec fn store(&self) -> S {
        self._store
    }

    /// Whether the store behind the authenticator accepts a name with a
    /// password.
    pub open spec fn accepts(&self, username: Seq<char>, password: Seq<char>) -> bool {
        self.store().accepts(username, password)
    }

    /// The authenticator on top of a store.
    pub closed spec fn over(store: S) -> BasicAuthenticator<S> {
        BasicAuthenticator { _store: store }
    }

    /// The store behind the authenticator on top of a store is that store.
    pub proof fn lemma_over(store: S)
        ensures
            Self::over(store).store() == store,
    {
    }

    /// An authenticator on top of a store.
    pub fn new(store: S) -> (r: BasicAuthenticator<S>)
        ensures
            r == Self::over(store),
            r.store() == store,
    {
        return BasicAuthenticator { _store: store };
    }
}

impl<S: UserStore> Authenticator<BasicAuth> for BasicAuthenticator<S> {
    /// The user of the name, where the store accepts the name with the
    /// password.
    fn authenticate(&self, auth: BasicAuth) -> (r: Option<User>)
        ensures
            r is Some <==> self.accepts(auth.username@, auth.password@),
            r matches Some(user) ==> user.authenticated() && user.username() == auth.username@,
    {
        return self._store.authenticate(auth.username, auth.password);
    }
}

/// A name with its password.
#[derive(Debug)]
pub struct Credential {
    pub name: String,
    pub password: String,
}

impl Named for Credential {
    open spec fn named(&self) -> Seq<char> {
        self.name@
    }

    fn has_name(&self, name: &str) -> (r: bool) {
        same_text(self.name.as_str(), name)
    }
}

impl Clone for Credential {
    fn clone(&self) -> (r: Credential)
        ensures
            r.name@ == self.name@,
            r.password@ == self.password@,
    {
        Credential { name: self.name.clone(), password: self.password.clone() }
    }
}

/// What a store of passwords holds: the names in the order in which they
/// came, and the password of each.
pub struct PasswordsView {
    pub names: Seq<Seq<char>>,
    pub passwords: Seq<Seq<char>>,
}

impl PasswordsView {
    /// Each name has a password, and no name stands twice.
    pub open spec fn well_formed(self) -> bool {
        self.names.len() == self.passwords.len() && distinct(self.names)
    }

    /// The password of a name, if the name is held.
    pub open spec fn password_of(self, username: Seq<char>) -> Option<Seq<char>> {
        match first_at(self.names, username) {
            Some(i) => Some(self.passwords[i]),
            None => None,
        }
    }

    /// The store with a password for a name: in place of the one that the
    /// name had, or behind all others for a new name.
    pub open spec fn with_user(self, username: Seq<char>, password: Seq<char>) -> PasswordsView {
        match first_at(self.names, username) {
            Some(i) => PasswordsView { passwords: self.passwords.update(i, password), ..self },
            None => PasswordsView {
                names: self.names.push(username),
                passwords: self.passwords.push(password),
            },
        }
    }

    /// The store without a name and its password.
    pub open spec fn without(self, username: Seq<char>) -> PasswordsView {
        match first_at(self.names, username) {
            Some(i) => PasswordsView {
                names: self.names.remove(i),
                passwords: self.passwords.remove(i),
            },
            None => self,
        }
    }
}

/// The names and passwords of a sequence of credentials.
pub open spec fn credentials(held: Seq<Credential>) -> PasswordsView {
    PasswordsView {
        names: Seq::new(held.len(), |i: int| held[i].name@),
        passwords: Seq::new(held.len(), |i: int| held[i].password@),
    }
}

/// A store that holds a password for each name, in memory.
pub struct InMemoryUserStore {
    _users: Vec<Credential>,
}

impl View for InMemoryUserStore {
    type V = PasswordsView;

    closed spec fn view(&self) -> PasswordsView {
        credentials(self._users@)
    }
}

impl InMemoryUserStore {
    /// A store without users.
    pub fn new() -> (r: InMemoryUserStore)
        ensures
            r@.names.len() == 0,
            r@.passwords.len() == 0,
            r@.well_formed(),
    {
        InMemoryUserStore { _users: Vec::new() }
    }

    /// Gives a name a password, and hands out a copy of the store as it then
    /// is.
    pub fn with_user(&mut self, username: String, password: String) -> (r: InMemoryUserStore)
        ensures
            final(self)@ == old(self)@.with_user(username@, password@),
            r@ == final(self)@,
            old(self)@.well_formed() ==> final(self)@.well_formed(),
    {
        let ghost before = self@;
        proof {
            assert(names(self._users@) =~= before.names);
            lemma_first_at(before.names, username@);
        }
        match find(&self._users, username.as_str()) {
            Some(i) => {
                let entry = Credential { name: username, password };
                proof {
                    let after = credentials(self._users@.update(i as int, entry));
                    assert(after.names =~= before.names);
                    assert(after.passwords =~= before.passwords.update(i as int, password@));
                }
                self._users.set(i, entry);
            },
            None => {
                let entry = Credential { name: username, password };
                proof {
                    lemma_first_at_push(before.names, username@, username@);
                    let after = credentials(self._users@.push(entry));
                    assert(after.names =~= before.names.push(username@));
                    assert(after.passwords =~= before.passwords.push(password@));
                }
                self._users.push(entry);
            },
        }
        self.clone()
    }
}

impl Clone for InMemoryUserStore {
    fn clone(&self) -> (r: InMemoryUserStore)
        ensures
            r@ == self@,
    {
        let mut out: Vec<Credential> = Vec::new();
        let mut i: usize = 0;
        while i < self._users.len()
            invariant
                i <= self._users.len(),
                out.len() == i,
                forall|k: int|
                    0 <= k < i ==> (#[trigger] out[k]).name@ == self._users[k].name@
                        && out[k].password@ == self._users[k].password@,
            decreases self._users.len() - i,
        {
            out.push(self._users[i].clone());
            i += 1;
        }
        let r = InMemoryUserStore { _users: out };
        proof {
            assert(r@.names =~= self@.names);
            assert(r@.passwords =~= self@.passwords);
        }
        r
    }
}

impl UserStore for InMemoryUserStore {
    open spec fn accepts(&self, username: Seq<char>, password: Seq<char>) -> bool {
        self@.password_of(username) == Some(password)
    }

    fn authenticate(&self, username: String, password: String) -> (r: Option<User>) {
        proof {
            assert(names(self._users@) =~= self@.names);
        }
        match find(&self._users, username.as_str()) {
            Some(i) => {
                if same_text(self._users[i].password.as_str(), password.as_str()) {
                    return Some(User { _authenticated: true, _username: username });
                }
                return None;
            },
            None => None,
        }
    }

    /// Forgets the user of a name and the password.
    fn delete(&mut self, username: String) -> (r: Result<(), ()>)
        ensures
            r is Ok <==> old(self)@.password_of(username@) is Some,
            final(self)@ == old(self)@.without(username@),
    {
        let ghost before = self@;
        proof {
            assert(names(self._users@) =~= before.names);
        }
        match find(&self._users, username.as_str()) {
            Some(i) => {
                proof {
                    let after = credentials(self._users@.remove(i as int));
                    assert(after.names =~= before.names.remove(i as int));
                    assert(after.passwords =~= before.passwords.remove(i as int));
                }
                self._users.remove(i);
                Ok(())
            },
            None => Err(()),
        }
    }
}

} // verus!
