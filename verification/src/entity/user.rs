use vstd::prelude::*;

use crate::entity::ids::UserId;

verus! {

/// A stored user record, with the password only as a hash.
#[derive(Debug)]
pub struct User {
    pub user_id: UserId,
    pub user_name: String,
    pub email: String,
    pub password_hash: String,
}

impl Clone for User {
    fn clone(&self) -> (r: Self)
        ensures
            r.user_id@ == self.user_id@,
            r.user_name@ == self.user_name@,
            r.email@ == self.email@,
            r.password_hash@ == self.password_hash@,
    {
        User {
            user_id: UserId(self.user_id.0.clone()),
            user_name: self.user_name.clone(),
            email: self.email.clone(),
            password_hash: self.password_hash.clone(),
        }
    }
}

/// Step-by-step construction of a `User`.
#[derive(Debug, Clone)]
pub struct UserBuilder {
    pub user_id: UserId,
    pub user_name: String,
    pub email: String,
    pub password_hash: String,
}

impl UserBuilder {
    pub fn new() -> (r: Self)
        ensures
            r.user_id@ == Seq::<char>::empty(),
            r.user_name@ == Seq::<char>::empty(),
            r.email@ == Seq::<char>::empty(),
            r.password_hash@ == Seq::<char>::empty(),
    {
        Self {
            user_id: UserId(String::new()),
            user_name: String::new(),
            email: String::new(),
            password_hash: String::new(),
        }
    }

    pub fn user_id(self, user_id: UserId) -> (r: Self)
        ensures
            r == (UserBuilder { user_id, ..self }),
    {
        Self { user_id, ..self }
    }

    pub fn user_name(self, user_name: String) -> (r: Self)
        ensures
            r == (UserBuilder { user_name, ..self }),
    {
        Self { user_name, ..self }
    }

    pub fn email(self, email: String) -> (r: Self)
        ensures
            r == (UserBuilder { email, ..self }),
    {
        Self { email, ..self }
    }

    pub fn password_hash(self, password_hash: String) -> (r: Self)
        ensures
            r == (UserBuilder { password_hash, ..self }),
    {
        Self { password_hash, ..self }
    }

    pub fn build(self) -> (r: User)
        ensures
            r.user_id == self.user_id,
            r.user_name == self.user_name,
            r.email == self.email,
            r.password_hash == self.password_hash,
    {
        User {
            user_id: self.user_id,
            user_name: self.user_name,
            email: self.email,
            password_hash: self.password_hash,
        }
    }
}

/// A new user as submitted by a client, password still in the clear.
#[derive(Debug, Clone)]
pub struct UserInput {
    pub user_name: String,
    pub email: String,
    pub password: String,
}

/// The part of a user record that is shown back to its owner.
#[derive(Debug, Clone)]
pub struct UserInfo {
    pub user_id: UserId,
    pub user_name: String,
}

impl From<User> for UserInfo {
    fn from(value: User) -> (r: Self) {
        Self { user_id: value.user_id, user_name: value.user_name }
    }
}

impl vstd::std_specs::convert::FromSpecImpl<User> for UserInfo {
    open spec fn obeys_from_spec() -> bool {
        true
    }

    open spec fn from_spec(v: User) -> Self {
        UserInfo { user_id: v.user_id, user_name: v.user_name }
    }
}

} // verus!
