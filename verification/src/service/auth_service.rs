use vstd::prelude::*;

use crate::entity::auth::AuthRequest;
use crate::entity::auth::Claims;
use crate::entity::ids::Token;
use crate::service::errors::AuthServiceError;
use crate::service::ports::PasswordHashService;
use crate::service::ports::TokenService;
use crate::service::ports::UserRepository;

verus! {

/// The login service: looks a user up by email, checks the password
/// against the stored hash, and issues a token on success.
pub struct AuthService<H, T, U> where H: PasswordHashService, T: TokenService, U: UserRepository {
    hash_service: H,
    token_service: T,
    user_repo: U,
    /// Expiry instant stamped into issued tokens (UNIX time).
    token_exp: usize,
}

impl<H, T, U> AuthService<H, T, U> where
    H: PasswordHashService,
    T: TokenService,
    U: UserRepository,
 {
    pub fn new(hash_service: H, token_service: T, user_repo: U, token_exp: usize) -> Self {
        Self { hash_service, token_service, user_repo, token_exp }
    }

    /// Authenticates the sent email and password; a stored user whose
    /// hash does not match the password is answered with
    /// `WrongPassword`, every collaborator failure with that
    /// collaborator's error.
    pub fn login(&self, auth_payload: AuthRequest) -> Result<Token, AuthServiceError> {
        let repository_user_data = match self.user_repo.find_by_email(auth_payload.email.as_str()) {
            Ok(u) => u,
            Err(e) => {
                return Err(AuthServiceError::from(e));
            },
        };
        let is_authenticated = match self.hash_service.verify_password(
            auth_payload.password.as_str(),
            repository_user_data.password_hash.as_str(),
        ) {
            Ok(b) => b,
            Err(e) => {
                return Err(AuthServiceError::from(e));
            },
        };
        if is_authenticated {
            match self.token_service.create(
                Claims::new(repository_user_data.user_id, self.token_exp),
            ) {
                Ok(token) => Ok(token),
                Err(e) => Err(AuthServiceError::from(e)),
            }
        } else {
            Err(AuthServiceError::WrongPassword)
        }
    }
}

} // verus!
