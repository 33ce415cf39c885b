use daily_mission::LevelConvert;
use daily_mission::LevelConvertImpl;
use daily_mission::LevelTable;
use daily_mission::LevelTableEntry;
use daily_mission::LevelTableError;
use daily_mission::parse_level_table;

/// The reference table: passing level `l` takes `round(10 * l^1.5)`
/// cumulative experience points, levels 1 through 100.
fn fixture_entries() -> Vec<LevelTableEntry> {
    (1u32..=100)
        .map(|level| LevelTableEntry {
            level,
            threshold: (10.0 * (level as f64).powf(1.5)).round() as u32,
        })
        .collect()
}

fn fixture_converter() -> LevelConvertImpl {
    let table = LevelTable::from_entries(fixture_entries()).expect("fixture table must be valid");
    LevelConvertImpl::new(table)
}

#[test]
fn test_with_level() {
    let a = fixture_converter();
    assert_eq!(a.to_level_with_remain(0), (1, Some(10)));
    assert_eq!(a.to_level_with_remain(2), (1, Some(8)));
    assert_eq!(a.to_level_with_remain(10), (2, Some(18)));
    assert_eq!(a.to_level_with_remain(7623), (84, Some(76)));
    assert_eq!(a.to_level_with_remain(8396), (90, Some(142)));
    assert_eq!(a.to_level_with_remain(10000), (100, None));
    assert_eq!(a.to_level_with_remain(120000), (100, None));
}

#[test]
fn test_level_monotone_sweep() {
    let a = fixture_converter();
    let mut last_level = 0u32;
    for e in 0..12000i64 {
        let (level, _) = a.to_level_with_remain(e);
        assert!(level >= last_level, "level dropped at {}", e);
        last_level = level;
    }
}

#[test]
fn test_clamp_above_table_top() {
    let a = fixture_converter();
    for e in [10000i64, 10001, 54321, 4294967295] {
        assert_eq!(a.to_level_with_remain(e), (100, None));
    }
}

#[test]
fn test_boundary_exact_threshold_advances() {
    // A total exactly at a threshold has passed that level.
    let a = fixture_converter();
    assert_eq!(a.to_level_with_remain(9), (1, Some(1)));
    assert_eq!(a.to_level_with_remain(10), (2, Some(18)));
    assert_eq!(a.to_level_with_remain(28), (3, Some(24)));
}

#[test]
fn test_empty_table_gives_floor_level() {
    let table = LevelTable::from_entries(Vec::new()).expect("empty table is ordered");
    let a = LevelConvertImpl::new(table);
    assert_eq!(a.to_level_with_remain(0), (1, None));
    assert_eq!(a.to_level_with_remain(9999), (1, None));
}

#[test]
fn test_from_entries_rejects_unordered_levels() {
    let entries = vec![
        LevelTableEntry { level: 1, threshold: 10 },
        LevelTableEntry { level: 1, threshold: 28 },
    ];
    match LevelTable::from_entries(entries) {
        Err(LevelTableError::OutOfOrder(i)) => assert_eq!(i, 1),
        _ => panic!("levels out of order must be refused"),
    }
}

#[test]
fn test_from_entries_rejects_unordered_thresholds() {
    let entries = vec![
        LevelTableEntry { level: 1, threshold: 10 },
        LevelTableEntry { level: 2, threshold: 10 },
    ];
    match LevelTable::from_entries(entries) {
        Err(LevelTableError::OutOfOrder(i)) => assert_eq!(i, 1),
        _ => panic!("thresholds out of order must be refused"),
    }
}

#[test]
fn test_parse_level_table_roundtrip() {
    let text = "level,exp\n1,10\n2,28\n3,52\n";
    let table = parse_level_table(text).expect("table text must parse");
    let a = LevelConvertImpl::new(table);
    assert_eq!(a.to_level_with_remain(0), (1, Some(10)));
    assert_eq!(a.to_level_with_remain(30), (3, Some(22)));
    assert_eq!(a.to_level_with_remain(52), (4, None));
}

#[test]
fn test_parse_level_table_crlf_and_blank_lines() {
    let text = "level,exp\r\n1,10\r\n\r\n2,28\r\n";
    let table = parse_level_table(text).expect("CRLF table text must parse");
    let a = LevelConvertImpl::new(table);
    assert_eq!(a.to_level_with_remain(10), (2, Some(18)));
}

#[test]
fn test_parse_level_table_rejects_bad_row() {
    assert!(matches!(
        parse_level_table("level,exp\n1,10\nten,20\n"),
        Err(LevelTableError::BadRow(_))
    ));
    assert!(matches!(
        parse_level_table("level,exp\n1\n"),
        Err(LevelTableError::BadRow(_))
    ));
    assert!(matches!(
        parse_level_table("level,exp\n1,10,99\n"),
        Err(LevelTableError::BadRow(_))
    ));
}

#[test]
fn test_parse_level_table_rejects_out_of_order() {
    assert!(matches!(
        parse_level_table("level,exp\n2,28\n1,10\n"),
        Err(LevelTableError::OutOfOrder(_))
    ));
}

#[test]
fn test_parse_level_table_header_only() {
    let table = parse_level_table("level,exp\n").expect("header alone is an empty table");
    let a = LevelConvertImpl::new(table);
    assert_eq!(a.to_level_with_remain(5), (1, None));
}
