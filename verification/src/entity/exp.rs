use vstd::prelude::*;

use crate::entity::ids::UserId;
use crate::level::LevelConvert;

verus! {

/// A user's experience balance, non-negative and only ever added to.
#[derive(Debug, PartialEq, Eq)]
pub struct UserExp {
    pub user_id: UserId,
    pub experience_points: i64,
}

impl Clone for UserExp {
    fn clone(&self) -> (r: Self)
        ensures
            r.user_id@ == self.user_id@,
            r.experience_points == self.experience_points,
    {
        UserExp {
            user_id: UserId(self.user_id.0.clone()),
            experience_points: self.experience_points,
        }
    }
}

/// A user's experience balance together with the level it maps to and
/// the points missing before the next level; recomputed on every query,
/// never stored.
#[derive(Debug, Clone)]
pub struct UserLevel {
    pub user_id: UserId,
    pub experience_points: i64,
    pub level: u32,
    pub remain: Option<u32>,
}

impl UserLevel {
    /// Derives the level pair from the balance through the given
    /// converter.
    pub fn new<T: LevelConvert>(user_exp: UserExp, converter: &T) -> (r: Self)
        requires
            0 <= user_exp.experience_points <= u32::MAX as i64,
        ensures
            r.user_id == user_exp.user_id,
            r.experience_points == user_exp.experience_points,
            (r.level, r.remain) == converter.spec_to_level_with_remain(
                user_exp.experience_points as int,
            ),
    {
        let (level, remain) = converter.to_level_with_remain(user_exp.experience_points);
        Self { user_id: user_exp.user_id, experience_points: user_exp.experience_points, level, remain }
    }
}

} // verus!
