//! A user store that lives in memory, and the authenticator on top of it.
use vstd::prelude::*;
use crate::auth::error::{AuthenticationFailed, RegistrationError, UserStoreError};
use crate::auth::{
    Authenticate, AuthenticationPrincipal, BasicAuth, Password, User, UserStore,
    UserView,
};
use crate::lookup::{distinct, find, first_at, lemma_first_at_push, names, Named};
use crate::text::same_text;

verus! {

/// The names of a sequence of users, in order.
pub open spec fn user_names(users: Seq<UserView>) -> Seq<Seq<char>> {
    Seq::new(users.len(), |i: int| users[i].name)
}

/// The first user of a name in a sequence of users, if there is one.
pub open spec fn first_named(users: Seq<UserView>, name: Seq<char>) -> Option<UserView> {
    match first_at(user_names(users), name) {
        Some(i) => Some(users[i]),
        None => None,
    }
}

/// The views of a sequence of users, in order.
pub open spec fn user_views(users: Seq<User>) -> Seq<UserView> {
    Seq::new(users.len(), |i: int| users[i]@)
}

impl Named for User {
    open spec fn named(&self) -> Seq<char> {
        self@.name
    }

    fn has_name(&self, name: &str) -> (r: bool) {
        same_text(self.name().as_str(), name)
    }
}

/// Users in memory, in the order in which they came; no two share a name.
pub struct InMemoryUserStore {
    users: Vec<User>,
}

impl View for InMemoryUserStore {
    type V = Seq<UserView>;

    closed spec fn view(&self) -> Seq<UserView> {
        user_views(self.users@)
    }
}

impl InMemoryUserStore {
    /// No two users of the store share a name. A new store is so, and taking
    /// a user in keeps it so.
    pub open spec fn well_formed(&self) -> bool {
        distinct(user_names(self@))
    }

    /// The position of the first user of a name.
    fn position(&self, username: &str) -> (r: Option<usize>)
        ensures
            match r {
                Some(i) => i < self.users.len() && first_named(self@, username@) == Some(
                    self.users[i as int]@,
                ),
                None => first_named(self@, username@) is None,
            },
    {
        assert(names(self.users@) =~= user_names(self@));
        find(&self.users, username)
    }

    /// A store without users.
    pub fn new() -> (r: Self)
        ensures
            r@ == Seq::<UserView>::empty(),
            r.well_formed(),
    {
        let r = InMemoryUserStore { users: Vec::new() };
        assert(r@ =~= Seq::<UserView>::empty());
        r
    }

    /// The user that a principal claims to be, where the store holds one of
    /// that name; the principal's proof of identity is not looked at.
    pub fn authenticate<P: AuthenticationPrincipal>(&self, principal: &P) -> (r: Result<
        User,
        UserStoreError,
    >)
        ensures
            match r {
                Ok(user) => first_named(self@, principal.name()) == Some(user@),
                Err(UserStoreError::DoesNotExist(name)) => first_named(self@, principal.name())
                    is None && name@ == principal.name(),
                Err(_) => false,
            },
    {
        let name = principal.principal();
        match self.position(name.as_str()) {
            Some(i) => Ok(self.users[i].clone()),
            None => Err(UserStoreError::DoesNotExist(name)),
        }
    }

    /// The store with one more user, made from a name and a password.
    /// The password is hashed first; then the user is taken in unless the
    /// name is in use.
    pub fn with_user(self, username: &str, password: &str) -> (r: Result<Self, RegistrationError>)
        ensures
            match r {
                Ok(store) => first_named(self@, username@) is None && store@.len() == self@.len()
                    + 1 && store@.drop_last() == self@ && store@.last().name == username@
                    && Password::made_of(store@.last().password, password@) && first_named(
                    store@,
                    username@,
                ) == Some(store@.last()),
                Err(RegistrationError::Store(e)) => first_named(self@, username@) is Some && e
                    == UserStoreError::Exists(e->Exists_0) && e->Exists_0@ == username@,
                Err(RegistrationError::Hashing(_)) => true,
            },
            self.well_formed() ==> (r matches Ok(store) ==> store.well_formed()),
    {
        let mut store = self;
        match User::new(username, password) {
            Ok(user) => match store.add(user) {
                Ok(()) => {
                    proof {
                        assert(store@.drop_last() =~= self@);
                        lemma_first_at_push(user_names(self@), username@, username@);
                        assert(user_names(store@) =~= user_names(self@).push(username@));
                    }
                    Ok(store)
                },
                Err(e) => Err(RegistrationError::Store(e)),
            },
            Err(e) => Err(RegistrationError::Hashing(e)),
        }
    }
}

impl UserStore for InMemoryUserStore {
    /// The first user of a name, who is the only one.
    fn get(&self, username: &str) -> (r: Option<&User>)
        ensures
            match r {
                Some(user) => first_named(self@, username@) == Some(user@),
                None => first_named(self@, username@) is None,
            },
    {
        match self.position(username) {
            Some(i) => Some(&self.users[i]),
            None => None,
        }
    }

    /// Takes a user in at the end, unless one of the same name is held
    /// already; then the store stays as it was.
    fn add(&mut self, user: User) -> (r: Result<(), UserStoreError>)
        ensures
            match r {
                Ok(()) => first_named(old(self)@, user@.name) is None && final(self)@ == old(
                    self,
                )@.push(user@),
                Err(UserStoreError::Exists(name)) => first_named(old(self)@, user@.name) is Some
                    && name@ == user@.name && final(self)@ == old(self)@,
                Err(_) => false,
            },
            old(self).well_formed() ==> final(self).well_formed(),
    {
        let username = user.name();
        match self.position(username.as_str()) {
            Some(_) => Err(UserStoreError::Exists(username)),
            None => {
                proof {
                    lemma_first_at_push(user_names(self@), user@.name, user@.name);
                    assert(user_views(self.users@.push(user)) =~= user_views(self.users@).push(
                        user@,
                    ));
                    assert(user_names(self@.push(user@)) =~= user_names(self@).push(user@.name));
                }
                self.users.push(user);
                Ok(())
            },
        }
    }
}

/// Who was registered can log in. A principal that gives the name and the
/// password with which a user was made is, in a store that took the user in
/// under a name that was free, the principal of that user, and its password
/// proves it.
pub proof fn lemma_registered_user_is_accepted(
    users: Seq<UserView>,
    user: UserView,
    password: Seq<char>,
    principal: BasicAuth,
)
    requires
        first_named(users, user.name) is None,
        Password::made_of(user.password, password),
        principal.username() == user.name,
        principal.password() == password,
    ensures
        first_named(users.push(user), principal.name()) == Some(user),
        principal.proves(user),
{
    lemma_first_at_push(user_names(users), user.name, user.name);
    assert(user_names(users.push(user)) =~= user_names(users).push(user.name));
}

/// Resolves principals against a user store in memory.
pub struct InMemoryAuthenticator {
    user_store: InMemoryUserStore,
}

impl InMemoryAuthenticator {
    /// The users that the authenticator knows.
    pub closed spec fn users(&self) -> Seq<UserView> {
        self.user_store@
    }

    /// An authenticator on top of a store.
    pub fn new(user_store: InMemoryUserStore) -> (r: Self)
        ensures
            r.users() == user_store@,
    {
        Self { user_store }
    }
}

impl Authenticate for InMemoryAuthenticator {
    /// The user of the principal's name, where the store holds one and the
    /// principal's proof of identity is good for that user. The failure does
    /// not tell which of the two was missing.
    fn authenticate<P: AuthenticationPrincipal>(&self, user: &P) -> (r: Result<
        User,
        AuthenticationFailed,
    >)
        ensures
            match r {
                Ok(found) => first_named(self.users(), user.name()) == Some(found@)
                    && user.proves(found@),
                Err(_) => match first_named(self.users(), user.name()) {
                    Some(held) => !user.proves(held),
                    None => true,
                },
            },
    {
        match self.user_store.authenticate(user) {
            Ok(found) => match user.authenticate(&found) {
                Ok(()) => Ok(found),
                Err(e) => Err(e),
            },
            Err(_) => Err(AuthenticationFailed {  }),
        }
    }
}

} // verus!
