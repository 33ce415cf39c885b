use vstd::prelude::*;

use crate::digits::parse_u32_field;
use crate::digits::spec_parse_u32;
use crate::level::table_wf;
use crate::level::LevelTable;
use crate::level::LevelTableEntry;
use crate::level::LevelTableError;
use crate::text::chars_of;
use crate::text::find_first;
use crate::text::first_at;
use crate::text::lemma_first_at_is;

verus! {

/// A data row means a level and a threshold exactly when the text up to
/// the first comma and the text after it are both decimal fields.
pub open spec fn spec_parse_row(line: Seq<char>) -> Option<LevelTableEntry> {
    let i = first_at(line, ',');
    if i == line.len() {
        None
    } else {
        match (spec_parse_u32(line.take(i)), spec_parse_u32(line.skip(i + 1))) {
            (Some(level), Some(threshold)) => Some(LevelTableEntry { level, threshold }),
            _ => None,
        }
    }
}

/// Reads the row `s[from..to]`, accepting exactly what
/// `spec_parse_row` gives an entry.
fn parse_row(s: &Vec<char>, from: usize, to: usize) -> (r: Option<LevelTableEntry>)
    requires
        from <= to <= s@.len(),
    ensures
        r == spec_parse_row(s@.subrange(from as int, to as int)),
{
    let ghost line = s@.subrange(from as int, to as int);
    let comma = find_comma_before(s, from, to);
    proof {
        assert(forall|i: int| 0 <= i < line.len() ==> #[trigger] line[i] == s@[i + from]);
        lemma_first_at_is(line, ',', comma as int - from as int);
    }
    if comma == to {
        return None;
    }
    proof {
        assert(line.take(comma - from) =~= s@.subrange(from as int, comma as int));
        assert(line.skip(comma - from + 1) =~= s@.subrange(comma as int + 1, to as int));
    }
    let level = match parse_u32_field(s, from, comma) {
        Some(v) => v,
        None => {
            return None;
        },
    };
    let threshold = match parse_u32_field(s, comma + 1, to) {
        Some(v) => v,
        None => {
            return None;
        },
    };
    Some(LevelTableEntry { level, threshold })
}

/// Finds the first comma in `s[from..to]`, or `to` when there is none.
fn find_comma_before(s: &Vec<char>, from: usize, to: usize) -> (r: usize)
    requires
        from <= to <= s@.len(),
    ensures
        from <= r <= to,
        r < to ==> s@[r as int] == ',',
        forall|i: int| from <= i < r ==> #[trigger] s@[i] != ',',
{
    let mut i: usize = from;
    while i < to
        invariant
            from <= i <= to <= s@.len(),
            forall|j: int| from <= j < i ==> #[trigger] s@[j] != ',',
        decreases to - i,
    {
        if s[i] == ',' {
            return i;
        }
        i += 1;
    }
    to
}

/// A line without its trailing carriage return, if it carries one.
pub open spec fn strip_cr(line: Seq<char>) -> Seq<char> {
    if line.len() > 0 && line.last() == '\r' {
        line.drop_last()
    } else {
        line
    }
}

/// The rows the text after the header denotes: one entry per
/// non-empty line, blank lines skipped, or nothing if any non-empty
/// line is not a row.
pub open spec fn spec_parse_rows(s: Seq<char>) -> Option<Seq<LevelTableEntry>>
    decreases s.len(),
{
    if s.len() == 0 {
        Some(Seq::<LevelTableEntry>::empty())
    } else {
        let n = first_at(s, '\n');
        let line = strip_cr(s.take(n));
        let rest = if 0 <= n && n + 1 < s.len() {
            s.skip(n + 1)
        } else {
            Seq::<char>::empty()
        };
        let tail = spec_parse_rows(rest);
        if line.len() == 0 {
            tail
        } else {
            match (spec_parse_row(line), tail) {
                (Some(e), Some(t)) => Some(seq![e] + t),
                _ => None,
            }
        }
    }
}

/// The text after the header line.
pub open spec fn spec_table_body(s: Seq<char>) -> Seq<char> {
    let n = first_at(s, '\n');
    if n == s.len() {
        Seq::<char>::empty()
    } else {
        s.skip(n + 1)
    }
}

/// Reads the rows of `s[from..]`, one line at a time.
fn parse_rows(s: &Vec<char>, from: usize) -> (r: Result<Vec<LevelTableEntry>, LevelTableError>)
    requires
        from <= s@.len(),
    ensures
        match r {
            Ok(entries) => spec_parse_rows(s@.skip(from as int)) == Some(entries@),
            Err(e) => spec_parse_rows(s@.skip(from as int)) is None && e matches
                LevelTableError::BadRow(_),
        },
    decreases s@.len() - from,
{
    let ghost suffix = s@.skip(from as int);
    if from == s.len() {
        let entries: Vec<LevelTableEntry> = Vec::new();
        proof {
            assert(suffix =~= Seq::<char>::empty());
        }
        return Ok(entries);
    }
    let n = find_first(s, from, '\n');
    let mut end = n;
    if end > from && s[end - 1] == '\r' {
        end = end - 1;
    }
    proof {
        assert(forall|i: int| 0 <= i < suffix.len() ==> #[trigger] suffix[i] == s@[i + from]);
        assert(suffix.take(n - from) =~= s@.subrange(from as int, n as int));
        assert(strip_cr(suffix.take(n - from)) =~= s@.subrange(from as int, end as int));
        if n + 1 < s@.len() {
            assert(suffix.skip(n - from + 1) =~= s@.skip(n as int + 1));
        }
    }
    let tail = if n == s.len() {
        Vec::new()
    } else {
        match parse_rows(s, n + 1) {
            Ok(t) => t,
            Err(e) => {
                return Err(e);
            },
        }
    };
    proof {
        if n + 1 >= s@.len() {
            assert(spec_parse_rows(Seq::<char>::empty()) == Some(Seq::<LevelTableEntry>::empty()));
            if n < s@.len() {
                assert(s@.skip(n as int + 1) =~= Seq::<char>::empty());
            }
        }
    }
    if end == from {
        return Ok(tail);
    }
    match parse_row(s, from, end) {
        Some(entry) => {
            let mut entries: Vec<LevelTableEntry> = Vec::new();
            entries.push(entry);
            let mut tail = tail;
            entries.append(&mut tail);
            proof {
                assert(entries@ =~= seq![entry] + entries@.skip(1));
            }
            Ok(entries)
        },
        None => Err(LevelTableError::BadRow(from)),
    }
}

/// Loads the level table from the text of its tabular resource: a
/// header line, then one `level,threshold` row per line. The table is
/// accepted exactly when every row is well formed and both columns
/// increase strictly; anything else is a startup failure.
pub fn parse_level_table(text: &str) -> (r: Result<LevelTable, LevelTableError>)
    ensures
        match r {
            Ok(tbl) => spec_parse_rows(spec_table_body(text@)) == Some(tbl@) && table_wf(tbl@),
            Err(LevelTableError::BadRow(_)) => spec_parse_rows(spec_table_body(text@)) is None,
            Err(LevelTableError::OutOfOrder(_)) => (spec_parse_rows(spec_table_body(text@))
                matches Some(entries) && !table_wf(entries)),
        },
{
    let s = chars_of(text);
    let n = find_first(&s, 0, '\n');
    proof {
        assert(s@.skip(0) =~= s@);
    }
    let entries = if n == s.len() {
        Vec::new()
    } else {
        match parse_rows(&s, n + 1) {
            Ok(t) => t,
            Err(e) => {
                return Err(e);
            },
        }
    };
    proof {
        if n == s@.len() {
            assert(spec_parse_rows(Seq::<char>::empty()) == Some(Seq::<LevelTableEntry>::empty()));
        }
    }
    LevelTable::from_entries(entries)
}

} // verus!
