use vstd::prelude::*;

use crate::entity::ids::DailyMissionId;
use crate::entity::ids::UserId;

verus! {

/// One daily mission of one user. `is_complete` is cleared every day by
/// the reset cycle.
#[derive(Debug, PartialEq, Eq)]
pub struct DailyMission {
    pub user_id: UserId,
    pub mission_id: DailyMissionId,
    pub title: String,
    pub description: Option<String>,
    pub is_complete: bool,
}

impl Clone for DailyMission {
    fn clone(&self) -> (r: Self)
        ensures
            r.user_id@ == self.user_id@,
            r.mission_id@ == self.mission_id@,
            r.title@ == self.title@,
            r.description == self.description || (r.description matches Some(d)
                && self.description matches Some(s) && d@ == s@),
            r.is_complete == self.is_complete,
    {
        DailyMission {
            user_id: UserId(self.user_id.0.clone()),
            mission_id: DailyMissionId(self.mission_id.0.clone()),
            title: self.title.clone(),
            description: match &self.description {
                Some(d) => Some(d.clone()),
                None => None,
            },
            is_complete: self.is_complete,
        }
    }
}

/// Step-by-step construction of a `DailyMission`; a built mission
/// always starts incomplete.
#[derive(Debug)]
pub struct DailyMissionBuilder {
    user_id: UserId,
    mission_id: DailyMissionId,
    title: String,
    description: Option<String>,
}

impl DailyMissionBuilder {
    pub closed spec fn spec_user_id(&self) -> Seq<char> {
        self.user_id@
    }

    pub closed spec fn spec_mission_id(&self) -> Seq<char> {
        self.mission_id@
    }

    pub closed spec fn spec_title(&self) -> Seq<char> {
        self.title@
    }

    pub closed spec fn spec_description(&self) -> Option<Seq<char>> {
        match self.description {
            Some(d) => Some(d@),
            None => None,
        }
    }

    pub fn new() -> (r: Self)
        ensures
            r.spec_user_id() == Seq::<char>::empty(),
            r.spec_mission_id() == Seq::<char>::empty(),
            r.spec_title() == Seq::<char>::empty(),
            r.spec_description() is None,
    {
        Self::default()
    }

    pub fn user_id(self, user_id: &UserId) -> (r: DailyMissionBuilder)
        ensures
            r.spec_user_id() == user_id@,
            r.spec_mission_id() == self.spec_mission_id(),
            r.spec_title() == self.spec_title(),
            r.spec_description() == self.spec_description(),
    {
        DailyMissionBuilder { user_id: UserId(user_id.0.clone()), ..self }
    }

    pub fn mission_id(self, mission_id: &DailyMissionId) -> (r: DailyMissionBuilder)
        ensures
            r.spec_user_id() == self.spec_user_id(),
            r.spec_mission_id() == mission_id@,
            r.spec_title() == self.spec_title(),
            r.spec_description() == self.spec_description(),
    {
        DailyMissionBuilder { mission_id: DailyMissionId(mission_id.0.clone()), ..self }
    }

    pub fn title(self, title: &str) -> (r: DailyMissionBuilder)
        ensures
            r.spec_user_id() == self.spec_user_id(),
            r.spec_mission_id() == self.spec_mission_id(),
            r.spec_title() == title@,
            r.spec_description() == self.spec_description(),
    {
        DailyMissionBuilder { title: title.to_owned(), ..self }
    }

    pub fn description(self, description: &Option<String>) -> (r: DailyMissionBuilder)
        ensures
            r.spec_user_id() == self.spec_user_id(),
            r.spec_mission_id() == self.spec_mission_id(),
            r.spec_title() == self.spec_title(),
            r.spec_description() == (match *description {
                Some(d) => Some(d@),
                None => None::<Seq<char>>,
            }),
    {
        let description = match description {
            Some(d) => Some(d.clone()),
            None => None,
        };
        DailyMissionBuilder { description, ..self }
    }

    pub fn build(self) -> (r: DailyMission)
        ensures
            r.user_id@ == self.spec_user_id(),
            r.mission_id@ == self.spec_mission_id(),
            r.title@ == self.spec_title(),
            (match r.description {
                Some(d) => Some(d@),
                None => None::<Seq<char>>,
            }) == self.spec_description(),
            !r.is_complete,
    {
        DailyMission {
            user_id: self.user_id,
            mission_id: self.mission_id,
            title: self.title,
            description: self.description,
            is_complete: false,
        }
    }
}

impl Default for DailyMissionBuilder {
    fn default() -> (r: Self)
        ensures
            r.spec_user_id() == Seq::<char>::empty(),
            r.spec_mission_id() == Seq::<char>::empty(),
            r.spec_title() == Seq::<char>::empty(),
            r.spec_description() is None,
    {
        Self {
            user_id: UserId(String::new()),
            mission_id: DailyMissionId(String::new()),
            title: String::new(),
            description: None,
        }
    }
}

/// A mission as submitted by a client: a title and an optional
/// description.
#[derive(Debug, Clone)]
pub struct DailyMissionInput {
    pub title: String,
    pub description: Option<String>,
}

} // verus!
