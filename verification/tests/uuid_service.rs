use std::collections::HashSet;

use daily_mission::UUIDService;
use daily_mission::UUIDServiceImpl;

#[test]
fn test_gen_each_uuid() {
    let service = UUIDServiceImpl;
    let uuid1 = service.generate();
    let uuid2 = service.generate();
    assert_ne!(uuid1, uuid2)
}

#[test]
fn test_multiple_uuids_are_unique() {
    let uuids: Vec<_> = (0..100).map(|_| UUIDServiceImpl.generate()).collect();
    let unique_uuids: HashSet<_> = uuids.iter().cloned().collect();
    assert_eq!(uuids.len(), unique_uuids.len());
}
