use vstd::prelude::*;

verus! {

/// Highest level a user can reach; the conversion clamps here.
pub const LEVEL_CAP: u32 = 100;

/// One row of the experience table: reaching `threshold` cumulative
/// experience points carries a user past `level`.
#[derive(Debug, Clone, Copy, PartialEq, Eq, Structural)]
pub struct LevelTableEntry {
    pub level: u32,
    pub threshold: u32,
}

/// A well-formed table is strictly increasing in both columns.
pub open spec fn table_wf(t: Seq<LevelTableEntry>) -> bool {
    forall|i: int, j: int|
        #![trigger t[i], t[j]]
        0 <= i < j < t.len() ==> t[i].level < t[j].level && t[i].threshold < t[j].threshold
}

/// Length of the leading run of entries whose threshold the experience
/// total has reached; the scan stops at the first entry it falls short of.
pub open spec fn cut(t: Seq<LevelTableEntry>, e: int) -> int
    decreases t.len(),
{
    if t.len() == 0 {
        0
    } else if e < t[0].threshold {
        0
    } else {
        1 + cut(t.drop_first(), e)
    }
}

/// The level for experience total `e`: one past the last entry reached
/// (level 1 when none is), clamped at `LEVEL_CAP`.
pub open spec fn spec_level_of(t: Seq<LevelTableEntry>, e: int) -> u32 {
    let k = cut(t, e);
    let raw = if k == 0 {
        1int
    } else {
        t[k - 1].level as int + 1
    };
    if raw > LEVEL_CAP as int {
        LEVEL_CAP
    } else {
        raw as u32
    }
}

/// The experience still missing before the next entry's threshold,
/// absent once every threshold in the table has been met.
pub open spec fn spec_remain_of(t: Seq<LevelTableEntry>, e: int) -> Option<u32> {
    let k = cut(t, e);
    if k < t.len() {
        Some((t[k].threshold - e) as u32)
    } else {
        None
    }
}

/// `cut` never leaves the table's index range.
pub proof fn lemma_cut_bounds(t: Seq<LevelTableEntry>, e: int)
    ensures
        0 <= cut(t, e) <= t.len(),
    decreases t.len(),
{
    if t.len() > 0 && e >= t[0].threshold {
        lemma_cut_bounds(t.drop_first(), e);
    }
}

/// A position with every earlier threshold reached and the next one (if
/// any) missed is exactly where the scan stops.
pub proof fn lemma_cut_is(t: Seq<LevelTableEntry>, e: int, k: int)
    requires
        0 <= k <= t.len(),
        forall|i: int| 0 <= i < k ==> (#[trigger] t[i]).threshold <= e,
        k < t.len() ==> e < t[k].threshold,
    ensures
        cut(t, e) == k,
    decreases t.len(),
{
    if t.len() == 0 {
    } else if k == 0 {
    } else {
        assert(t[0].threshold <= e);
        let rest = t.drop_first();
        assert(forall|i: int| 0 <= i < k - 1 ==> (#[trigger] rest[i]).threshold <= e) by {
            assert(forall|i: int| 0 <= i < k - 1 ==> #[trigger] rest[i] == t[i + 1]);
        }
        lemma_cut_is(rest, e, k - 1);
    }
}

/// A larger experience total never stops the scan earlier.
pub proof fn lemma_cut_monotone(t: Seq<LevelTableEntry>, e1: int, e2: int)
    requires
        e1 <= e2,
    ensures
        cut(t, e1) <= cut(t, e2),
    decreases t.len(),
{
    lemma_cut_bounds(t, e1);
    lemma_cut_bounds(t, e2);
    if t.len() > 0 && e1 >= t[0].threshold {
        lemma_cut_monotone(t.drop_first(), e1, e2);
    }
}

/// Monotonicity: more experience never maps to a lower level.
pub proof fn lemma_convert_monotone(t: Seq<LevelTableEntry>, e1: int, e2: int)
    requires
        table_wf(t),
        0 <= e1 <= e2,
    ensures
        spec_level_of(t, e1) <= spec_level_of(t, e2),
{
    lemma_cut_bounds(t, e1);
    lemma_cut_bounds(t, e2);
    lemma_cut_monotone(t, e1, e2);
    let k1 = cut(t, e1);
    let k2 = cut(t, e2);
    if k1 > 0 {
        assert(t[k1 - 1].level <= t[k2 - 1].level);
    }
}

/// Idempotent clamp: once the top threshold of a table that ends at the
/// cap is met, the level is the cap and no remainder is reported.
pub proof fn lemma_clamp_at_top(t: Seq<LevelTableEntry>, e: int)
    requires
        table_wf(t),
        t.len() > 0,
        t[t.len() - 1].level >= LEVEL_CAP,
        e >= t[t.len() - 1].threshold,
    ensures
        spec_level_of(t, e) == LEVEL_CAP,
        spec_remain_of(t, e) is None,
{
    assert(forall|i: int| 0 <= i < t.len() ==> (#[trigger] t[i]).threshold <= e) by {
        assert(forall|i: int|
            0 <= i < t.len() - 1 ==> (#[trigger] t[i]).threshold < t[t.len() - 1].threshold);
    }
    lemma_cut_is(t, e, t.len() as int);
}

/// Rejected shapes of the level table resource.
#[derive(Debug, Clone, PartialEq, Eq)]
pub enum LevelTableError {
    /// A data row is not two comma-separated unsigned numbers; the
    /// value is the position in the text where the row starts.
    BadRow(usize),
    /// Levels or thresholds fail to increase strictly at this entry index.
    OutOfOrder(usize),
}

/// The experience table, loaded once at startup and immutable afterwards.
#[derive(Debug, Clone)]
pub struct LevelTable {
    entries: Vec<LevelTableEntry>,
}

impl View for LevelTable {
    type V = Seq<LevelTableEntry>;

    closed spec fn view(&self) -> Seq<LevelTableEntry> {
        self.entries@
    }
}

impl LevelTable {
    pub open spec fn wf(&self) -> bool {
        table_wf(self@)
    }

    /// Accepts the rows exactly when both columns increase strictly.
    pub fn from_entries(entries: Vec<LevelTableEntry>) -> (r: Result<LevelTable, LevelTableError>)
        ensures
            match r {
                Ok(tbl) => tbl@ == entries@ && table_wf(entries@),
                Err(e) => !table_wf(entries@) && e matches LevelTableError::OutOfOrder(_),
            },
    {
        let n = entries.len();
        let mut i: usize = 1;
        while i < n
            invariant
                n == entries@.len(),
                1 <= i,
                forall|j: int|
                    0 <= j < i - 1 ==> (#[trigger] entries@[j]).level < entries@[j + 1].level
                        && entries@[j].threshold < entries@[j + 1].threshold,
            decreases n - i,
        {
            if entries[i - 1].level >= entries[i].level
                || entries[i - 1].threshold >= entries[i].threshold {
                proof {
                    let j = i as int;
                    assert(!table_wf(entries@)) by {
                        assert(0 <= j - 1 < j < entries@.len());
                        assert(!(entries@[j - 1].level < entries@[j].level
                            && entries@[j - 1].threshold < entries@[j].threshold));
                    }
                }
                return Err(LevelTableError::OutOfOrder(i));
            }
            i += 1;
        }
        proof {
            lemma_adjacent_increasing(entries@);
        }
        Ok(LevelTable { entries })
    }

    pub fn len(&self) -> (r: usize)
        ensures
            r == self@.len(),
    {
        self.entries.len()
    }

    pub fn entry(&self, i: usize) -> (r: LevelTableEntry)
        requires
            i < self@.len(),
        ensures
            r == self@[i as int],
    {
        self.entries[i]
    }
}

/// Strict growth between neighbours extends to any two positions.
proof fn lemma_adjacent_increasing(t: Seq<LevelTableEntry>)
    requires
        forall|j: int|
            0 <= j < t.len() - 1 ==> (#[trigger] t[j]).level < t[j + 1].level
                && t[j].threshold < t[j + 1].threshold,
    ensures
        table_wf(t),
{
    assert forall|i: int, j: int| 0 <= i < j < t.len()
        implies (#[trigger] t[i]).level < (#[trigger] t[j]).level
            && t[i].threshold < t[j].threshold by {
        lemma_chain_increasing(t, i, j);
    }
}

proof fn lemma_chain_increasing(t: Seq<LevelTableEntry>, i: int, j: int)
    requires
        forall|k: int|
            0 <= k < t.len() - 1 ==> (#[trigger] t[k]).level < t[k + 1].level
                && t[k].threshold < t[k + 1].threshold,
        0 <= i < j < t.len(),
    ensures
        t[i].level < t[j].level && t[i].threshold < t[j].threshold,
    decreases j - i,
{
    if i + 1 < j {
        lemma_chain_increasing(t, i + 1, j);
    }
    assert(t[i].level < t[i + 1].level && t[i].threshold < t[i + 1].threshold);
}

/// Conversion of an experience total into a level and the experience
/// still needed to level up.
pub trait LevelConvert {
    /// The pair this converter assigns to an experience total.
    spec fn spec_to_level_with_remain(&self, experience_point: int) -> (u32, Option<u32>);

    /// Current level and, unless every threshold is already met, the
    /// points missing before the next level-up.
    fn to_level_with_remain(&self, experience_point: i64) -> (r: (u32, Option<u32>))
        requires
            0 <= experience_point <= u32::MAX as i64,
        ensures
            r == self.spec_to_level_with_remain(experience_point as int),
    ;
}

/// Table-backed converter: a linear scan in ascending level order, with
/// the level clamped at `LEVEL_CAP`.
#[derive(Debug, Clone)]
pub struct LevelConvertImpl {
    pub table: LevelTable,
}

impl LevelConvertImpl {
    pub fn new(table: LevelTable) -> (r: Self)
        ensures
            r.table == table,
    {
        Self { table }
    }
}

impl LevelConvert for LevelConvertImpl {
    open spec fn spec_to_level_with_remain(&self, experience_point: int) -> (u32, Option<u32>) {
        (spec_level_of(self.table@, experience_point), spec_remain_of(self.table@, experience_point))
    }

    fn to_level_with_remain(&self, experience_point: i64) -> (r: (u32, Option<u32>)) {
        let e = experience_point as u32;
        let n = self.table.len();
        let mut level: u32 = 1;
        let mut i: usize = 0;
        while i < n
            invariant
                n == self.table@.len(),
                0 <= e <= u32::MAX,
                e == experience_point,
                i <= n,
                forall|j: int| 0 <= j < i ==> (#[trigger] self.table@[j]).threshold <= e,
                level as int == (if i == 0 {
                    1int
                } else if self.table@[i - 1].level as int + 1 > LEVEL_CAP as int {
                    LEVEL_CAP as int
                } else {
                    self.table@[i - 1].level as int + 1
                }),
            decreases n - i,
        {
            let entry = self.table.entry(i);
            if e < entry.threshold {
                proof {
                    lemma_cut_is(self.table@, e as int, i as int);
                }
                return (level, Some(entry.threshold - e));
            }
            level = if entry.level >= LEVEL_CAP {
                LEVEL_CAP
            } else {
                entry.level + 1
            };
            i += 1;
        }
        proof {
            lemma_cut_is(self.table@, e as int, n as int);
        }
        (level, None)
    }
}

} // verus!
