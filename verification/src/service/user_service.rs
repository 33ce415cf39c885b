use vstd::prelude::*;

use crate::entity::ids::Token;
use crate::entity::ids::UserId;
use crate::entity::user::User;
use crate::entity::user::UserBuilder;
use crate::entity::user::UserInfo;
use crate::entity::user::UserInput;
use crate::service::errors::UserServiceError;
use crate::service::ports::PasswordHashService;
use crate::service::ports::TokenService;
use crate::service::ports::UserRepository;
use crate::service::ports::UUIDService;

verus! {

/// Account management: creation, profile reads and updates, deletion.
pub struct UserService<P, T, R, U> where
    P: PasswordHashService,
    T: TokenService,
    R: UserRepository,
    U: UUIDService,
 {
    password_hasher: P,
    token_service: T,
    user_repo: R,
    uuid_service: U,
}

impl<P, T, R, U> UserService<P, T, R, U> where
    P: PasswordHashService,
    T: TokenService,
    R: UserRepository,
    U: UUIDService,
 {
    pub fn new(password_hasher: P, token_service: T, user_repo: R, uuid_service: U) -> Self {
        Self { password_hasher, token_service, user_repo, uuid_service }
    }

    /// Registers a new user: refuses an email that is already stored,
    /// otherwise assigns a fresh identifier, hashes the password and
    /// stores the record.
    pub fn create_user(&mut self, user_input: UserInput) -> Result<UserId, UserServiceError> {
        let exists = match self.user_repo.is_exist(user_input.email.as_str()) {
            Ok(b) => b,
            Err(e) => {
                return Err(UserServiceError::from(e));
            },
        };
        if exists {
            return Err(UserServiceError::UserAlreadyExists);
        }
        let user_id = UserId(self.uuid_service.generate());
        let password_hash = match self.password_hasher.hash_password(
            user_input.password.as_str(),
        ) {
            Ok(h) => h,
            Err(e) => {
                return Err(UserServiceError::from(e));
            },
        };
        let builder = UserBuilder {
            user_id,
            user_name: user_input.user_name,
            email: user_input.email,
            password_hash,
        };
        match self.user_repo.create(&builder) {
            Ok(id) => Ok(id),
            Err(e) => Err(UserServiceError::from(e)),
        }
    }

    /// The profile of the token's owner.
    pub fn get_user_info(&self, token: Token) -> Result<UserInfo, UserServiceError> {
        let user_id = match self.token_service.verify(token) {
            Ok(u) => u,
            Err(e) => {
                return Err(UserServiceError::from(e));
            },
        };
        match self.user_repo.find_by_id(&user_id) {
            Ok(user) => Ok(UserInfo::from(user)),
            Err(e) => Err(UserServiceError::from(e)),
        }
    }

    /// Renames the token's owner; email and password stay as stored.
    pub fn update_user_name(&mut self, token: Token, update_user_name: String) -> Result<
        (),
        UserServiceError,
    > {
        let user_id = match self.token_service.verify(token) {
            Ok(u) => u,
            Err(e) => {
                return Err(UserServiceError::from(e));
            },
        };
        let stored_user = match self.user_repo.find_by_id(&user_id) {
            Ok(u) => u,
            Err(e) => {
                return Err(UserServiceError::from(e));
            },
        };
        let user = User {
            user_id: stored_user.user_id,
            user_name: update_user_name,
            email: stored_user.email,
            password_hash: stored_user.password_hash,
        };
        match self.user_repo.update(&user) {
            Ok(u) => Ok(u),
            Err(e) => Err(UserServiceError::from(e)),
        }
    }

    /// Removes the token's owner.
    pub fn delete_user(&mut self, token: Token) -> Result<(), UserServiceError> {
        let user_id = match self.token_service.verify(token) {
            Ok(u) => u,
            Err(e) => {
                return Err(UserServiceError::from(e));
            },
        };
        match self.user_repo.delete(&user_id) {
            Ok(u) => Ok(u),
            Err(e) => Err(UserServiceError::from(e)),
        }
    }
}

} // verus!
