use vstd::prelude::*;
use vstd::seq_lib::group_seq_properties;

use crate::entity::ids::UserId;
use crate::entity::mission::DailyMission;
use crate::service::errors::RepositoryError;

verus! {

/// Does the snapshot hold a user with exactly these characters?
pub open spec fn contains_id(ids: Seq<UserId>, u: Seq<char>) -> bool {
    exists|j: int| 0 <= j < ids.len() && ids[j]@ == u
}

/// The identifier characters of each entry, in order.
pub open spec fn id_views(ids: Seq<UserId>) -> Seq<Seq<char>> {
    ids.map_values(|u: UserId| u@)
}

/// A mission after its owner's reset: the completion flag cleared,
/// everything else untouched.
pub open spec fn spec_cleared(m: DailyMission) -> DailyMission {
    DailyMission { is_complete: false, ..m }
}

/// A user is reset by a cycle exactly when the snapshot lists them and
/// their transaction was not denied.
pub open spec fn spec_should_reset(
    snapshot: Seq<UserId>,
    denied: Seq<UserId>,
    u: Seq<char>,
) -> bool {
    contains_id(snapshot, u) && !contains_id(denied, u)
}

/// The mission table after one reset cycle over the given snapshot,
/// with the listed users' transactions failing.
pub open spec fn spec_cycle(
    missions: Seq<DailyMission>,
    snapshot: Seq<UserId>,
    denied: Seq<UserId>,
) -> Seq<DailyMission> {
    missions.map_values(
        |m: DailyMission|
            if spec_should_reset(snapshot, denied, m.user_id@) {
                spec_cleared(m)
            } else {
                m
            },
    )
}

/// The users whose reset failed, in snapshot order.
pub open spec fn spec_failed(snapshot: Seq<UserId>, denied: Seq<UserId>) -> Seq<Seq<char>> {
    id_views(snapshot).filter(|u: Seq<char>| contains_id(denied, u))
}

/// The users whose reset committed, in snapshot order.
pub open spec fn spec_succeeded(snapshot: Seq<UserId>, denied: Seq<UserId>) -> Seq<Seq<char>> {
    id_views(snapshot).filter(|u: Seq<char>| !contains_id(denied, u))
}

/// The in-memory model of the daily-mission table that the reset cycle
/// acts on.
#[derive(Debug)]
pub struct MissionStore {
    missions: Vec<DailyMission>,
}

impl View for MissionStore {
    type V = Seq<DailyMission>;

    closed spec fn view(&self) -> Seq<DailyMission> {
        self.missions@
    }
}

/// Per-user outcomes of one reset cycle, successes and isolated
/// failures side by side.
#[derive(Debug)]
pub struct CycleReport {
    pub succeeded: Vec<UserId>,
    pub failed: Vec<UserId>,
}

fn contains_user(ids: &Vec<UserId>, u: &UserId) -> (r: bool)
    ensures
        r == contains_id(ids@, u@),
{
    let n = ids.len();
    let mut j: usize = 0;
    while j < n
        invariant
            n == ids@.len(),
            j <= n,
            forall|k: int| 0 <= k < j ==> (#[trigger] ids@[k])@ != u@,
        decreases n - j,
    {
        if ids[j].0 == u.0 {
            return true;
        }
        j += 1;
    }
    false
}

impl MissionStore {
    pub fn new() -> (r: MissionStore)
        ensures
            r@ == Seq::<DailyMission>::empty(),
    {
        MissionStore { missions: Vec::new() }
    }

    pub fn len(&self) -> (r: usize)
        ensures
            r == self@.len(),
    {
        self.missions.len()
    }

    pub fn get(&self, i: usize) -> (r: &DailyMission)
        requires
            i < self@.len(),
        ensures
            *r == self@[i as int],
    {
        &self.missions[i]
    }

    /// Stores one more mission row.
    pub fn add(&mut self, mission: DailyMission)
        ensures
            final(self)@ == old(self)@.push(mission),
    {
        self.missions.push(mission);
    }

    /// The locked per-user transaction: clears the completion flag of
    /// every mission of this user and touches nothing else.
    pub fn reset_user(&mut self, user_id: &UserId)
        ensures
            final(self)@.len() == old(self)@.len(),
            forall|i: int|
                0 <= i < old(self)@.len() ==> final(self)@[i] == (if (#[trigger] old(
                    self,
                )@[i]).user_id@ == user_id@ {
                    spec_cleared(old(self)@[i])
                } else {
                    old(self)@[i]
                }),
    {
        let n = self.missions.len();
        let mut i: usize = 0;
        while i < n
            invariant
                n == self@.len(),
                i <= n,
                forall|j: int|
                    0 <= j < i ==> self@[j] == (if (#[trigger] old(self)@[j]).user_id@
                        == user_id@ {
                        spec_cleared(old(self)@[j])
                    } else {
                        old(self)@[j]
                    }),
                forall|j: int| i <= j < n ==> self@[j] == (#[trigger] old(self)@[j]),
            decreases n - i,
        {
            if self.missions[i].user_id.0 == user_id.0 {
                self.missions[i].is_complete = false;
            }
            i += 1;
        }
    }

    /// One full reset cycle over a snapshot of user identifiers.
    ///
    /// Each user in the snapshot is handled independently; a user in
    /// `denied` stands for a per-user transaction that fails (lock
    /// timeout, dropped connection) and leaves that user's rows as they
    /// were, without disturbing the rest of the batch. The report lists
    /// committed and failed users in snapshot order.
    pub fn run_cycle(&mut self, snapshot: &Vec<UserId>, denied: &Vec<UserId>) -> (r: CycleReport)
        ensures
            final(self)@ == spec_cycle(old(self)@, snapshot@, denied@),
            id_views(r.succeeded@) == spec_succeeded(snapshot@, denied@),
            id_views(r.failed@) == spec_failed(snapshot@, denied@),
    {
        proof {
            broadcast use group_seq_properties;

        }
        let mut succeeded: Vec<UserId> = Vec::new();
        let mut failed: Vec<UserId> = Vec::new();
        let n = snapshot.len();
        let mut k: usize = 0;
        while k < n
            invariant
                n == snapshot@.len(),
                k <= n,
                self@ == spec_cycle(old(self)@, snapshot@.take(k as int), denied@),
                id_views(succeeded@) == spec_succeeded(snapshot@.take(k as int), denied@),
                id_views(failed@) == spec_failed(snapshot@.take(k as int), denied@),
            decreases n - k,
        {
            let user = &snapshot[k];
            proof {
                lemma_take_one_more(snapshot@, k as int, denied@);
            }
            if contains_user(denied, user) {
                failed.push(UserId(user.0.clone()));
                proof {
                    lemma_cycle_extend_denied(
                        old(self)@,
                        snapshot@,
                        denied@,
                        k as int,
                    );
                    assert(id_views(failed@) =~= spec_failed(
                        snapshot@.take(k as int + 1),
                        denied@,
                    ));
                    assert(id_views(succeeded@) =~= spec_succeeded(
                        snapshot@.take(k as int + 1),
                        denied@,
                    ));
                }
            } else {
                let ghost mid = self@;
                self.reset_user(user);
                succeeded.push(UserId(user.0.clone()));
                proof {
                    lemma_cycle_extend_reset(
                        old(self)@,
                        mid,
                        self@,
                        snapshot@,
                        denied@,
                        k as int,
                    );
                    assert(id_views(failed@) =~= spec_failed(
                        snapshot@.take(k as int + 1),
                        denied@,
                    ));
                    assert(id_views(succeeded@) =~= spec_succeeded(
                        snapshot@.take(k as int + 1),
                        denied@,
                    ));
                }
            }
            k += 1;
        }
        proof {
            assert(snapshot@.take(n as int) =~= snapshot@);
        }
        CycleReport { succeeded, failed }
    }
}

/// Extending the processed prefix by one user extends the failure and
/// success filters by that user's verdict.
proof fn lemma_take_one_more(snapshot: Seq<UserId>, k: int, denied: Seq<UserId>)
    requires
        0 <= k < snapshot.len(),
    ensures
        spec_failed(snapshot.take(k + 1), denied) == spec_failed(snapshot.take(k), denied)
            + (if contains_id(denied, snapshot[k]@) {
            seq![snapshot[k]@]
        } else {
            Seq::<Seq<char>>::empty()
        }),
        spec_succeeded(snapshot.take(k + 1), denied) == spec_succeeded(snapshot.take(k), denied)
            + (if !contains_id(denied, snapshot[k]@) {
            seq![snapshot[k]@]
        } else {
            Seq::<Seq<char>>::empty()
        }),
{
    let prefix = id_views(snapshot.take(k));
    let one = seq![snapshot[k]@];
    assert(id_views(snapshot.take(k + 1)) =~= prefix + one);
    let fail_pred = |u: Seq<char>| contains_id(denied, u);
    let ok_pred = |u: Seq<char>| !contains_id(denied, u);
    Seq::filter_distributes_over_add(prefix, one, fail_pred);
    Seq::filter_distributes_over_add(prefix, one, ok_pred);
    lemma_filter_singleton(one, fail_pred);
    lemma_filter_singleton(one, ok_pred);
}

/// Filtering a one-element sequence keeps or drops that element.
proof fn lemma_filter_singleton(one: Seq<Seq<char>>, pred: spec_fn(Seq<char>) -> bool)
    requires
        one.len() == 1,
    ensures
        one.filter(pred) == if pred(one[0]) {
            one
        } else {
            Seq::<Seq<char>>::empty()
        },
{
    reveal_with_fuel(Seq::filter, 2);
    let emp = Seq::<Seq<char>>::empty();
    assert(one.drop_last() =~= emp);
    assert(one.drop_last().filter(pred) =~= emp);
    if pred(one[0]) {
        assert(one.filter(pred) =~= one);
    } else {
        assert(one.filter(pred) =~= emp);
    }
}

/// Skipping a denied user leaves the cycle result over the extended
/// prefix unchanged.
proof fn lemma_cycle_extend_denied(
    missions: Seq<DailyMission>,
    snapshot: Seq<UserId>,
    denied: Seq<UserId>,
    k: int,
)
    requires
        0 <= k < snapshot.len(),
        contains_id(denied, snapshot[k]@),
    ensures
        spec_cycle(missions, snapshot.take(k + 1), denied) == spec_cycle(
            missions,
            snapshot.take(k),
            denied,
        ),
{
    assert forall|i: int| 0 <= i < missions.len() implies spec_cycle(
        missions,
        snapshot.take(k + 1),
        denied,
    )[i] == spec_cycle(missions, snapshot.take(k), denied)[i] by {
        let u = missions[i].user_id@;
        if contains_id(snapshot.take(k + 1), u) && !contains_id(snapshot.take(k), u) {
            let j = choose|j: int|
                0 <= j < snapshot.take(k + 1).len() && (#[trigger] snapshot.take(k + 1)[j])@
                    == u;
            assert(j == k);
            assert(contains_id(denied, u));
        }
    }
    assert(spec_cycle(missions, snapshot.take(k + 1), denied) =~= spec_cycle(
        missions,
        snapshot.take(k),
        denied,
    ));
}

/// Resetting the next snapshot user advances the cycle result by one
/// prefix step.
proof fn lemma_cycle_extend_reset(
    missions: Seq<DailyMission>,
    mid: Seq<DailyMission>,
    after: Seq<DailyMission>,
    snapshot: Seq<UserId>,
    denied: Seq<UserId>,
    k: int,
)
    requires
        0 <= k < snapshot.len(),
        !contains_id(denied, snapshot[k]@),
        mid == spec_cycle(missions, snapshot.take(k), denied),
        after.len() == mid.len(),
        forall|i: int|
            0 <= i < mid.len() ==> after[i] == (if (#[trigger] mid[i]).user_id@ == snapshot[k]@ {
                spec_cleared(mid[i])
            } else {
                mid[i]
            }),
    ensures
        after == spec_cycle(missions, snapshot.take(k + 1), denied),
{
    assert forall|i: int| 0 <= i < missions.len() implies after[i] == spec_cycle(
        missions,
        snapshot.take(k + 1),
        denied,
    )[i] by {
        let u = missions[i].user_id@;
        assert(mid[i].user_id@ == u);
        if contains_id(snapshot.take(k + 1), u) {
            if !contains_id(snapshot.take(k), u) {
                let j = choose|j: int|
                    0 <= j < snapshot.take(k + 1).len() && (#[trigger] snapshot.take(k + 1)[j])@
                        == u;
                assert(j == k);
            }
        }
        if contains_id(snapshot.take(k), u) {
            assert(contains_id(snapshot.take(k + 1), u)) by {
                let j = choose|j: int|
                    0 <= j < snapshot.take(k).len() && (#[trigger] snapshot.take(k)[j])@ == u;
                assert(snapshot.take(k + 1)[j]@ == u);
            }
        }
        if u == snapshot[k]@ {
            assert(contains_id(snapshot.take(k + 1), u)) by {
                assert(snapshot.take(k + 1)[k]@ == u);
            }
        }
    }
    assert(after =~= spec_cycle(missions, snapshot.take(k + 1), denied));
}

/// Running the same cycle twice ends in the same state as running it
/// once: the reset is idempotent.
pub proof fn lemma_cycle_idempotent(
    missions: Seq<DailyMission>,
    snapshot: Seq<UserId>,
    denied: Seq<UserId>,
)
    ensures
        spec_cycle(spec_cycle(missions, snapshot, denied), snapshot, denied) == spec_cycle(
            missions,
            snapshot,
            denied,
        ),
{
    let once = spec_cycle(missions, snapshot, denied);
    let twice = spec_cycle(once, snapshot, denied);
    assert forall|i: int| 0 <= i < missions.len() implies twice[i] == once[i] by {
        assert(once[i].user_id@ == missions[i].user_id@);
    }
    assert(twice =~= once);
}

/// Reset completeness: after a cycle in which a snapshot user's
/// transaction was not denied, none of that user's missions is left
/// complete.
pub proof fn lemma_reset_completeness(
    missions: Seq<DailyMission>,
    snapshot: Seq<UserId>,
    denied: Seq<UserId>,
    i: int,
)
    requires
        0 <= i < missions.len(),
        contains_id(snapshot, missions[i].user_id@),
        !contains_id(denied, missions[i].user_id@),
    ensures
        !spec_cycle(missions, snapshot, denied)[i].is_complete,
{
}

/// Reset isolation: a denied user's missions come out of the cycle
/// exactly as they went in, whatever happened to the other users.
pub proof fn lemma_reset_isolation(
    missions: Seq<DailyMission>,
    snapshot: Seq<UserId>,
    denied: Seq<UserId>,
    i: int,
)
    requires
        0 <= i < missions.len(),
        contains_id(denied, missions[i].user_id@),
    ensures
        spec_cycle(missions, snapshot, denied)[i] == missions[i],
{
}

/// The decision at the head of a cycle: a fetched snapshot starts the
/// fan-out, a failed fetch aborts this cycle and nothing else.
pub fn plan_cycle(snapshot: Result<Vec<UserId>, RepositoryError>) -> (r: Option<Vec<UserId>>)
    ensures
        match snapshot {
            Ok(ids) => r == Some(ids),
            Err(_) => r is None,
        },
{
    match snapshot {
        Ok(ids) => Some(ids),
        Err(_) => None,
    }
}

} // verus!
