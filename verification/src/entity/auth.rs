use vstd::prelude::*;

use crate::entity::ids::UserId;

verus! {

/// Credentials a client sends to log in.
#[derive(Debug, Clone)]
pub struct AuthRequest {
    pub email: String,
    pub password: String,
}

/// What a token certifies: a user and an expiry instant (UNIX time).
#[derive(Debug)]
pub struct Claims {
    pub user_id: UserId,
    pub exp: usize,
}

impl Clone for Claims {
    fn clone(&self) -> (r: Self)
        ensures
            r.user_id@ == self.user_id@,
            r.exp == self.exp,
    {
        Claims { user_id: UserId(self.user_id.0.clone()), exp: self.exp }
    }
}

impl Claims {
    pub fn new(user_id: UserId, exp: usize) -> (r: Self)
        ensures
            r == (Claims { user_id, exp }),
    {
        Self { user_id, exp }
    }
}

} // verus!
