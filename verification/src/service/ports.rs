use vstd::prelude::*;

use crate::entity::auth::Claims;
use crate::entity::exp::UserExp;
use crate::entity::ids::DailyMissionId;
use crate::entity::ids::Token;
use crate::entity::ids::UserId;
use crate::entity::mission::DailyMission;
use crate::entity::user::User;
use crate::entity::user::UserBuilder;
use crate::service::errors::HashServiceError;
use crate::service::errors::RepositoryError;
use crate::service::errors::TokenServiceError;

verus! {

/// Hashing and checking of user passwords; implemented by the
/// infrastructure layer.
pub trait PasswordHashService {
    /// Hashes a clear-text password, salted, into a storable string.
    fn hash_password(&self, password: &str) -> Result<String, HashServiceError>;

    /// Whether the clear-text password matches the stored hash.
    fn verify_password(&self, password: &str, hash_password: &str) -> Result<
        bool,
        HashServiceError,
    >;
}

/// Creation and verification of authentication tokens.
pub trait TokenService {
    /// Turns claims into a token a client can carry.
    fn create(&self, claims: Claims) -> Result<Token, TokenServiceError>;

    /// Checks a carried token and gives back the user it certifies.
    fn verify(&self, token: Token) -> Result<UserId, TokenServiceError>;
}

/// A source of fresh identifiers.
pub trait UUIDService {
    fn generate(&self) -> String;
}

/// Persistence of user records.
pub trait UserRepository {
    fn create(&mut self, user_builder: &UserBuilder) -> Result<UserId, RepositoryError>;

    fn find_by_id(&self, id: &UserId) -> Result<User, RepositoryError>;

    fn find_by_email(&self, email: &str) -> Result<User, RepositoryError>;

    fn update(&mut self, user: &User) -> Result<(), RepositoryError>;

    fn delete(&mut self, id: &UserId) -> Result<(), RepositoryError>;

    fn is_exist(&self, email: &str) -> Result<bool, RepositoryError>;
}

/// Persistence of experience balances.
pub trait UserExpRepository {
    /// Creates the user's balance row, starting at zero.
    fn init_exp(&mut self, user_id: &UserId) -> Result<(), RepositoryError>;

    /// Reads the balance; stored balances are never negative.
    fn find_by_user_id(&self, user_id: &UserId) -> (r: Result<UserExp, RepositoryError>)
        ensures
            r matches Ok(e) ==> e.experience_points >= 0,
    ;

    /// Adds to the balance.
    fn add_exp(&mut self, user_id: &UserId, additional_exp: i64) -> Result<(), RepositoryError>;
}

/// Persistence of daily missions.
pub trait DailyMissionRepository {
    fn create(&mut self, mission: &DailyMission) -> Result<DailyMissionId, RepositoryError>;

    fn count(&self, user_id: &UserId) -> Result<i32, RepositoryError>;

    fn find_by_id(&self, mission_id: &DailyMissionId, user_id: &UserId) -> Result<
        DailyMission,
        RepositoryError,
    >;

    fn find_by_user_id(&self, user_id: &UserId) -> Result<Vec<DailyMission>, RepositoryError>;

    fn update(&mut self, mission: &DailyMission, user_id: &UserId) -> Result<(), RepositoryError>;

    fn set_complete_true(&mut self, mission_id: &DailyMissionId, user_id: &UserId) -> Result<
        (),
        RepositoryError,
    >;

    fn delete(&mut self, mission_id: &DailyMissionId, user_id: &UserId) -> Result<
        (),
        RepositoryError,
    >;
}

} // verus!
