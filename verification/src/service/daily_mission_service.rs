use vstd::prelude::*;

use crate::entity::ids::DailyMissionId;
use crate::entity::ids::Token;
use crate::entity::mission::DailyMission;
use crate::entity::mission::DailyMissionBuilder;
use crate::entity::mission::DailyMissionInput;
use crate::service::errors::DailyMissionServiceError;
use crate::service::ports::DailyMissionRepository;
use crate::service::ports::TokenService;
use crate::service::ports::UUIDService;

verus! {

/// Daily-mission management for the authenticated user.
pub struct DailyMissionService<T, U, M> where
    T: TokenService,
    U: UUIDService,
    M: DailyMissionRepository,
 {
    token_service: T,
    uuid_service: U,
    mission_repo: M,
}

impl<T, U, M> DailyMissionService<T, U, M> where
    T: TokenService,
    U: UUIDService,
    M: DailyMissionRepository,
 {
    pub fn new(token_service: T, uuid_service: U, mission_repo: M) -> Self {
        Self { token_service, uuid_service, mission_repo }
    }

    /// Stores a new mission for the token's owner under a fresh
    /// identifier and hands that identifier back.
    pub fn create(&mut self, token: Token, mission_payload: DailyMissionInput) -> Result<
        DailyMissionId,
        DailyMissionServiceError,
    > {
        let user_id = match self.token_service.verify(token) {
            Ok(u) => u,
            Err(e) => {
                return Err(DailyMissionServiceError::from(e));
            },
        };
        let mission_id = DailyMissionId(self.uuid_service.generate());
        let mission = DailyMissionBuilder::new()
            .user_id(&user_id)
            .mission_id(&mission_id)
            .title(mission_payload.title.as_str())
            .description(&mission_payload.description)
            .build();
        match self.mission_repo.create(&mission) {
            Ok(id) => Ok(id),
            Err(e) => Err(DailyMissionServiceError::from(e)),
        }
    }

    /// One mission of the token's owner.
    pub fn find_by_id(&self, token: Token, mission_id: DailyMissionId) -> Result<
        DailyMission,
        DailyMissionServiceError,
    > {
        let user_id = match self.token_service.verify(token) {
            Ok(u) => u,
            Err(e) => {
                return Err(DailyMissionServiceError::from(e));
            },
        };
        match self.mission_repo.find_by_id(&mission_id, &user_id) {
            Ok(m) => Ok(m),
            Err(e) => Err(DailyMissionServiceError::from(e)),
        }
    }

    /// All missions of the token's owner.
    pub fn find_all(&self, token: Token) -> Result<Vec<DailyMission>, DailyMissionServiceError> {
        let user_id = match self.token_service.verify(token) {
            Ok(u) => u,
            Err(e) => {
                return Err(DailyMissionServiceError::from(e));
            },
        };
        match self.mission_repo.find_by_user_id(&user_id) {
            Ok(m) => Ok(m),
            Err(e) => Err(DailyMissionServiceError::from(e)),
        }
    }

    /// Replaces a mission's title and description.
    pub fn update(
        &mut self,
        token: Token,
        mission_id: DailyMissionId,
        mission_payload: DailyMissionInput,
    ) -> Result<(), DailyMissionServiceError> {
        let user_id = match self.token_service.verify(token) {
            Ok(u) => u,
            Err(e) => {
                return Err(DailyMissionServiceError::from(e));
            },
        };
        let mission = DailyMissionBuilder::new()
            .user_id(&user_id)
            .mission_id(&mission_id)
            .title(mission_payload.title.as_str())
            .description(&mission_payload.description)
            .build();
        match self.mission_repo.update(&mission, &user_id) {
            Ok(u) => Ok(u),
            Err(e) => Err(DailyMissionServiceError::from(e)),
        }
    }

    /// Marks a mission of the token's owner complete for today.
    pub fn set_complete_true(&mut self, token: Token, mission_id: DailyMissionId) -> Result<
        (),
        DailyMissionServiceError,
    > {
        let user_id = match self.token_service.verify(token) {
            Ok(u) => u,
            Err(e) => {
                return Err(DailyMissionServiceError::from(e));
            },
        };
        match self.mission_repo.set_complete_true(&mission_id, &user_id) {
            Ok(u) => Ok(u),
            Err(e) => Err(DailyMissionServiceError::from(e)),
        }
    }

    /// Removes one mission of the token's owner.
    pub fn delete(&mut self, token: Token, mission_id: DailyMissionId) -> Result<
        (),
        DailyMissionServiceError,
    > {
        let user_id = match self.token_service.verify(token) {
            Ok(u) => u,
            Err(e) => {
                return Err(DailyMissionServiceError::from(e));
            },
        };
        match self.mission_repo.delete(&mission_id, &user_id) {
            Ok(u) => Ok(u),
            Err(e) => Err(DailyMissionServiceError::from(e)),
        }
    }
}

} // verus!
