use vstd::prelude::*;

use crate::entity::ids::Token;

verus! {

/// The error payload the HTTP layer answers with: a numeric code and a
/// human-readable message.
#[derive(Debug, Clone)]
pub struct Error {
    code: u32,
    message: String,
}

impl Error {
    pub closed spec fn spec_code(&self) -> u32 {
        self.code
    }

    pub closed spec fn spec_message(&self) -> Seq<char> {
        self.message@
    }

    pub fn new(code: u32, message: &str) -> (r: Self)
        ensures
            r.spec_code() == code,
            r.spec_message() == message@,
    {
        Self { code, message: message.to_owned() }
    }
}

/// A token as it is written into a response body.
#[derive(Debug, Clone)]
pub struct JWT {
    token: String,
}

impl JWT {
    pub closed spec fn spec_token(&self) -> Seq<char> {
        self.token@
    }

    pub fn new(token: Token) -> (r: Self)
        ensures
            r.spec_token() == token@,
    {
        Self { token: token.0 }
    }
}

/// A token as pulled out of a request's cookie.
#[derive(Debug, Clone)]
pub struct TokenWrap(pub Token);

} // verus!
