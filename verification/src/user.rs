use vstd::prelude::*;

use crate::errors::AuthError;

verus! {

/// A stored user record: an opaque unique identifier, a display name, a
/// unique username, and the password it is checked against. Records are
/// created at startup and never mutated.
#[derive(Debug)]
pub struct User {
    pub id: String,
    pub name: String,
    pub username: String,
    pub password: String,
}

/// The mathematical value of a [`User`]: its four fields as character
/// sequences.
pub ghost struct UserView {
    pub id: Seq<char>,
    pub name: Seq<char>,
    pub username: Seq<char>,
    pub password: Seq<char>,
}

impl View for User {
    type V = UserView;

    open spec fn view(&self) -> UserView {
        UserView {
            id: self.id@,
            name: self.name@,
            username: self.username@,
            password: self.password@,
        }
    }
}

impl Clone for User {
    fn clone(&self) -> (r: Self)
        ensures
            r@ == self@,
    {
        User {
            id: self.id.clone(),
            name: self.name.clone(),
            username: self.username.clone(),
            password: self.password.clone(),
        }
    }
}

/// A transient credential pair submitted by a client; never persisted.
pub struct Credentials {
    pub username: String,
    pub password: String,
}

/// The in-memory credential store: a read-only collection of user records.
pub struct Backend {
    pub users: Vec<User>,
}

impl Backend {
    /// Well-formedness: identifiers and usernames are unique across the
    /// store, so a matching record, when one exists, is unique.
    pub open spec fn wf(&self) -> bool {
        forall|i: int, j: int|
            0 <= i < j < self.users@.len() ==> self.users@[i]@.username != self.users@[j]@.username
                && self.users@[i]@.id != self.users@[j]@.id
    }

    /// Whether some record in `users` carries exactly this username and
    /// password.
    pub open spec fn spec_has_match(&self, username: Seq<char>, password: Seq<char>) -> bool {
        exists|i: int|
            0 <= i < self.users@.len() && self.users@[i]@.username == username
                && self.users@[i]@.password == password
    }

    /// An empty store.
    pub fn new() -> (r: Backend)
        ensures
            r.wf(),
            r.users@.len() == 0,
    {
        Backend { users: Vec::new() }
    }

    /// Adds a record. Returns `false` and leaves the store unchanged when
    /// the record's id or username is already taken, so that `wf` is kept.
    pub fn add_user(&mut self, user: User) -> (r: bool)
        requires
            old(self).wf(),
        ensures
            final(self).wf(),
            r ==> final(self).users@ == old(self).users@.push(user),
            !r ==> final(self).users@ == old(self).users@,
            r == !(exists|i: int|
                0 <= i < old(self).users@.len() && (old(self).users@[i]@.username
                    == user@.username || old(self).users@[i]@.id == user@.id)),
    {
        let n = self.users.len();
        for k in 0..n
            invariant
                old(self).wf(),
                self.users@ == old(self).users@,
                n == self.users@.len(),
                forall|i: int|
                    0 <= i < k ==> self.users@[i]@.username != user@.username && self.users@[i]@.id
                        != user@.id,
        {
            if self.users[k].username == user.username || self.users[k].id == user.id {
                return false;
            }
        }
        self.users.push(user);
        true
    }

    /// Exact, case-sensitive lookup by username and password together.
    ///
    /// Returns the matching record when both fields match some record, and
    /// `None` otherwise — including when only one of the two fields
    /// matches. A miss is silent: the result does not distinguish an
    /// unknown user from a wrong password.
    pub fn find(&self, username: &String, password: &String) -> (r: Option<User>)
        requires
            self.wf(),
        ensures
            match r {
                Some(u) => exists|i: int|
                    0 <= i < self.users@.len() && self.users@[i]@ == u@ && u@.username == username@
                        && u@.password == password@,
                None => !self.spec_has_match(username@, password@),
            },
    {
        let n = self.users.len();
        for k in 0..n
            invariant
                n == self.users@.len(),
                forall|i: int|
                    0 <= i < k ==> !(self.users@[i]@.username == username@ && self.users@[i]@.password
                        == password@),
        {
            if self.users[k].username == *username && self.users[k].password == *password {
                return Some(self.users[k].clone());
            }
        }
        None
    }

    /// Credential check, as the session-backed design calls it: delegates
    /// to [`Backend::find`] on the submitted pair.
    pub fn authenticate(&self, credentials: &Credentials) -> (r: Option<User>)
        requires
            self.wf(),
        ensures
            match r {
                Some(u) => exists|i: int|
                    0 <= i < self.users@.len() && self.users@[i]@ == u@ && u@.username
                        == credentials.username@ && u@.password == credentials.password@,
                None => !self.spec_has_match(credentials.username@, credentials.password@),
            },
    {
        self.find(&credentials.username, &credentials.password)
    }

    /// The login decision: yields the record when the submitted
    /// credentials match one, and a bare `AuthenticationFailure`
    /// otherwise — never saying whether the username or the password was
    /// at fault.
    pub fn check_credentials(&self, credentials: &Credentials) -> (r: Result<User, AuthError>)
        requires
            self.wf(),
        ensures
            match r {
                Ok(u) => exists|i: int|
                    0 <= i < self.users@.len() && self.users@[i]@ == u@ && u@.username
                        == credentials.username@ && u@.password == credentials.password@,
                Err(e) => !self.spec_has_match(credentials.username@, credentials.password@) && e
                    == AuthError::AuthenticationFailure,
            },
    {
        match self.authenticate(credentials) {
            Some(u) => Ok(u),
            None => Err(AuthError::AuthenticationFailure),
        }
    }

    /// Lookup by identifier alone.
    pub fn get_user(&self, user_id: &String) -> (r: Option<User>)
        requires
            self.wf(),
        ensures
            match r {
                Some(u) => exists|i: int|
                    0 <= i < self.users@.len() && self.users@[i]@ == u@ && u@.id == user_id@,
                None => forall|i: int| 0 <= i < self.users@.len() ==> self.users@[i]@.id != user_id@,
            },
    {
        let n = self.users.len();
        for k in 0..n
            invariant
                n == self.users@.len(),
                forall|i: int| 0 <= i < k ==> self.users@[i]@.id != user_id@,
        {
            if self.users[k].id == *user_id {
                return Some(self.users[k].clone());
            }
        }
        None
    }
}

} // verus!
