use vstd::prelude::*;

use crate::entity::exp::UserLevel;
use crate::entity::ids::Token;
use crate::entity::ids::UserId;
use crate::level::LevelConvert;
use crate::service::errors::ExpServiceError;
use crate::service::ports::TokenService;
use crate::service::ports::UserExpRepository;

verus! {

/// Experience management: initialising, reading (with level), adding.
pub struct UserExpService<E, L, T> where E: UserExpRepository, L: LevelConvert, T: TokenService {
    exp_repo: E,
    level_converter: L,
    token_service: T,
}

impl<E, L, T> UserExpService<E, L, T> where
    E: UserExpRepository,
    L: LevelConvert,
    T: TokenService,
 {
    /// The converter this service derives levels with.
    pub closed spec fn converter(&self) -> L {
        self.level_converter
    }

    pub fn new(exp_repo: E, level_converter: L, token_service: T) -> (r: Self)
        ensures
            r.converter() == level_converter,
    {
        Self { exp_repo, level_converter, token_service }
    }

    /// Creates the balance row when the user account is created.
    pub fn init_exp(&mut self, user_id: UserId) -> Result<(), ExpServiceError> {
        match self.exp_repo.init_exp(&user_id) {
            Ok(u) => Ok(u),
            Err(e) => Err(ExpServiceError::from(e)),
        }
    }

    /// Reads the token owner's balance and derives their level: the
    /// returned record carries exactly the level pair the converter
    /// assigns to the returned balance. A stored balance past the
    /// convertible range is reported as an overflow, not converted.
    pub fn find_with_level(&self, token: Token) -> (r: Result<UserLevel, ExpServiceError>)
        ensures
            r matches Ok(ul) ==> 0 <= ul.experience_points <= u32::MAX as i64 && (
            ul.level,
            ul.remain,
            ) == self.converter().spec_to_level_with_remain(ul.experience_points as int),
    {
        let user_id = match self.token_service.verify(token) {
            Ok(u) => u,
            Err(e) => {
                return Err(ExpServiceError::from(e));
            },
        };
        let exp = match self.exp_repo.find_by_user_id(&user_id) {
            Ok(e) => e,
            Err(e) => {
                return Err(ExpServiceError::from(e));
            },
        };
        if exp.experience_points > u32::MAX as i64 {
            return Err(
                ExpServiceError::DetectedExpOverflow(
                    "experience exceeds the convertible range".to_owned(),
                ),
            );
        }
        Ok(UserLevel::new(exp, &self.level_converter))
    }

    /// Adds earned experience to the token owner's balance; balances
    /// only ever grow, so the delta is non-negative.
    pub fn add_experience(&mut self, token: Token, additional_exp: i64) -> Result<
        (),
        ExpServiceError,
    >
        requires
            additional_exp >= 0,
    {
        let user_id = match self.token_service.verify(token) {
            Ok(u) => u,
            Err(e) => {
                return Err(ExpServiceError::from(e));
            },
        };
        match self.exp_repo.add_exp(&user_id, additional_exp) {
            Ok(u) => Ok(u),
            Err(e) => Err(ExpServiceError::from(e)),
        }
    }
}

} // verus!
