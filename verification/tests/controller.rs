use gtp_controller::allocator::TeidAllocator;
use gtp_controller::gtp::GtpController;
use gtp_controller::table::{Cause, Key, TunnelTable};
use gtp_controller::teid::Teid;
use std::time::Duration;

fn budget() -> Duration {
    Duration::from_millis(500)
}

fn controller_from(first: Teid, live: &[(Teid, Key)]) -> GtpController {
    let mut table = TunnelTable::new();
    for (teid, key) in live {
        assert_eq!(table.insert(*teid, *key, vec![0xEE], budget()), Ok(()));
    }
    GtpController::from_parts(table, TeidAllocator::starting_at(first))
}

#[test]
fn new_controller_is_empty() {
    let controller = GtpController::new();
    assert_eq!(controller.get(0), None);
    assert_eq!(controller.get(u32::MAX), None);
    assert_eq!(controller.get_with_key(0), None);
    let controller = GtpController::default();
    assert_eq!(controller.get(1), None);
    assert_eq!(controller.get_with_key(1), None);
}

#[test]
fn registration_assigns_the_candidate() {
    let mut controller = controller_from(100, &[]);
    assert_eq!(controller.try_add_resource(7, vec![1, 2, 3], budget()), Ok(100));
    assert_eq!(controller.try_add_resource(8, vec![4], budget()), Ok(101));
    assert_eq!(controller.add_resource(9, vec![], budget()), Some(102));
}

#[test]
fn candidate_wraps_after_the_largest_identifier() {
    let mut controller = controller_from(u32::MAX, &[]);
    assert_eq!(controller.add_resource(1, vec![1], budget()), Some(u32::MAX));
    assert_eq!(controller.add_resource(2, vec![2], budget()), Some(0));
    assert_eq!(controller.add_resource(3, vec![3], budget()), Some(1));
    assert_eq!(controller.get(0), Some((2, vec![2])));
}

#[test]
fn assigned_identifiers_and_keys_are_distinct() {
    let mut controller = GtpController::new();
    let mut assigned: Vec<Teid> = Vec::new();
    for key in 0..200u128 {
        let teid = controller.add_resource(key, vec![key as u8], budget()).unwrap();
        assert!(!assigned.contains(&teid));
        assigned.push(teid);
    }
    assert_eq!(assigned.len(), 200);
}

#[test]
fn registration_is_found_both_ways() {
    let mut controller = GtpController::new();
    let key: Key = 0x2001_0db8_0000_0000_0000_0000_0000_0001;
    let res = vec![10, 0, 0, 1, 0x08, 0x68];
    let teid = controller.add_resource(key, res.clone(), budget()).unwrap();
    assert_eq!(controller.get(teid), Some((key, res.clone())));
    assert_eq!(controller.get_with_key(key), Some((teid, res.clone())));
    // Later registrations leave it where it is.
    let other = controller.add_resource(key + 1, vec![9, 9], budget()).unwrap();
    assert_ne!(other, teid);
    assert_eq!(controller.get(teid), Some((key, res.clone())));
    assert_eq!(controller.get_with_key(key), Some((teid, res)));
    assert_eq!(controller.get(other), Some((key + 1, vec![9, 9])));
    assert_eq!(controller.get_with_key(key + 1), Some((other, vec![9, 9])));
}

#[test]
fn absent_identifier_and_key_are_not_found() {
    let mut controller = controller_from(5, &[]);
    assert_eq!(controller.add_resource(50, vec![1], budget()), Some(5));
    assert_eq!(controller.get(6), None);
    assert_eq!(controller.get(4), None);
    assert_eq!(controller.get_with_key(51), None);
}

#[test]
fn zero_budget_times_out_and_writes_nothing() {
    let mut controller = controller_from(40, &[]);
    assert_eq!(controller.try_add_resource(1, vec![1], Duration::ZERO), Err(Cause::Timeout));
    assert_eq!(controller.get(40), None);
    assert_eq!(controller.get_with_key(1), None);
    // The candidate was used up by the attempt.
    assert_eq!(controller.try_add_resource(1, vec![1], budget()), Ok(41));
    assert_eq!(controller.add_resource(2, vec![2], Duration::ZERO), None);
    assert_eq!(controller.get_with_key(2), None);
    assert_eq!(controller.get(42), None);
}

#[test]
fn shortest_budget_is_enough() {
    let mut controller = controller_from(40, &[]);
    assert_eq!(controller.try_add_resource(1, vec![1], Duration::from_nanos(1)), Ok(40));
}

#[test]
fn collisions_come_before_the_timeout() {
    let mut controller = controller_from(11, &[(11, 500)]);
    assert_eq!(controller.try_add_resource(7, vec![1], Duration::ZERO), Err(Cause::DuplicateId));
    assert_eq!(controller.get(11), Some((500, vec![0xEE])));
    assert_eq!(controller.get_with_key(7), None);
    let mut controller = controller_from(12, &[(11, 500)]);
    assert_eq!(controller.try_add_resource(500, vec![1], Duration::ZERO), Err(Cause::DuplicateKey));
    assert_eq!(controller.get(12), None);
    assert_eq!(controller.get_with_key(500), Some((11, vec![0xEE])));
    assert_eq!(controller.try_add_resource(501, vec![1], Duration::ZERO), Err(Cause::Timeout));
    assert_eq!(controller.get(13), None);
    assert_eq!(controller.get_with_key(501), None);
}

#[test]
fn identifier_collision_is_reported_and_resolved() {
    let mut controller = controller_from(10, &[(11, 500)]);
    assert_eq!(controller.try_add_resource(1, vec![1], budget()), Ok(10));
    // The next candidate, 11, is live.
    assert_eq!(controller.try_add_resource(2, vec![2], budget()), Err(Cause::DuplicateId));
    // Nothing was written.
    assert_eq!(controller.get_with_key(2), None);
    assert_eq!(controller.get(11), Some((500, vec![0xEE])));
    assert_eq!(controller.get(10), Some((1, vec![1])));
    // The allocator now stands on an identifier that is not live.
    let teid = controller.try_add_resource(2, vec![2], budget()).unwrap();
    assert_ne!(teid, 10);
    assert_ne!(teid, 11);
    assert_eq!(controller.get(teid), Some((2, vec![2])));
    assert_eq!(controller.get_with_key(2), Some((teid, vec![2])));
}

#[test]
fn identifier_collision_gives_no_assignment() {
    let mut controller = controller_from(11, &[(11, 500)]);
    assert_eq!(controller.add_resource(2, vec![2], budget()), None);
    assert_eq!(controller.get_with_key(2), None);
    let teid = controller.add_resource(2, vec![2], budget()).unwrap();
    assert_ne!(teid, 11);
}

#[test]
fn identifier_collision_comes_before_the_duplicate_key() {
    let mut controller = controller_from(11, &[(11, 500)]);
    assert_eq!(controller.try_add_resource(500, vec![2], budget()), Err(Cause::DuplicateId));
    assert_eq!(controller.get(11), Some((500, vec![0xEE])));
    assert_eq!(controller.get_with_key(500), Some((11, vec![0xEE])));
}

#[test]
fn duplicate_key_is_refused() {
    let mut controller = controller_from(70, &[]);
    assert_eq!(controller.try_add_resource(9, vec![1], budget()), Ok(70));
    assert_eq!(controller.try_add_resource(9, vec![2], budget()), Err(Cause::DuplicateKey));
    // The first registration stands, and the refused one left nothing.
    assert_eq!(controller.get_with_key(9), Some((70, vec![1])));
    assert_eq!(controller.get(70), Some((9, vec![1])));
    assert_eq!(controller.get(71), None);
    // The refused attempt used up its candidate.
    assert_eq!(controller.try_add_resource(10, vec![3], budget()), Ok(72));
}

#[test]
fn duplicate_key_is_refused_every_time() {
    let mut controller = GtpController::new();
    let first = controller.try_add_resource(9, vec![1], budget()).unwrap();
    for _ in 0..20 {
        assert_eq!(controller.try_add_resource(9, vec![2], budget()), Err(Cause::DuplicateKey));
    }
    assert_eq!(controller.get_with_key(9), Some((first, vec![1])));
}

#[test]
fn many_registrations_all_succeed() {
    let mut controller = GtpController::new();
    let count: u128 = 1000;
    let mut assigned: Vec<Teid> = Vec::new();
    for key in 0..count {
        let res = vec![(key % 251) as u8, (key / 251) as u8];
        assigned.push(controller.add_resource(key, res, Duration::from_secs(5)).unwrap());
    }
    let mut sorted = assigned.clone();
    sorted.sort();
    sorted.dedup();
    assert_eq!(sorted.len(), 1000);
    for key in 0..count {
        let res = vec![(key % 251) as u8, (key / 251) as u8];
        let teid = assigned[key as usize];
        assert_eq!(controller.get_with_key(key), Some((teid, res.clone())));
        assert_eq!(controller.get(teid), Some((key, res)));
    }
}

#[test]
fn concurrent_registrations_all_succeed() {
    let runtime = tokio::runtime::Builder::new_current_thread()
        .enable_time()
        .build()
        .unwrap();
    let shared = std::sync::Arc::new(tokio::sync::Mutex::new(GtpController::new()));
    let count: u128 = 64;
    let assigned: Vec<Teid> = runtime.block_on(async {
        let mut tasks = Vec::new();
        for key in 0..count {
            let shared = shared.clone();
            tasks.push(tokio::spawn(async move {
                tokio::task::yield_now().await;
                let mut controller = shared.lock().await;
                controller.add_resource(key, vec![key as u8], Duration::from_secs(5))
            }));
        }
        let mut assigned = Vec::new();
        for task in tasks {
            assigned.push(task.await.unwrap().unwrap());
        }
        assigned
    });
    let mut sorted = assigned.clone();
    sorted.sort();
    sorted.dedup();
    assert_eq!(sorted.len(), 64);
    let controller = runtime.block_on(shared.lock());
    for key in 0..count {
        let teid = assigned[key as usize];
        assert_eq!(controller.get_with_key(key), Some((teid, vec![key as u8])));
        assert_eq!(controller.get(teid), Some((key, vec![key as u8])));
    }
}

#[test]
fn len_follows_the_registrations() {
    let mut controller = controller_from(10, &[(11, 500)]);
    assert_eq!(controller.len(), 1);
    assert_eq!(controller.add_resource(1, vec![1], budget()), Some(10));
    assert_eq!(controller.len(), 2);
    assert_eq!(controller.add_resource(2, vec![2], budget()), None);
    assert_eq!(controller.len(), 2);
    assert_eq!(controller.try_add_resource(1, vec![2], budget()), Err(Cause::DuplicateKey));
    assert_eq!(controller.len(), 2);
    assert_eq!(controller.try_add_resource(3, vec![2], Duration::ZERO), Err(Cause::Timeout));
    assert_eq!(controller.len(), 2);
}

#[test]
fn default_controller_starts_below_the_largest_identifier() {
    for _ in 0..200 {
        let mut controller = GtpController::default();
        let teid = controller.add_resource(1, vec![1], budget()).unwrap();
        assert!(teid < u32::MAX);
    }
}
