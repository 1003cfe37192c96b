use moqtail::holding_subscribes::HoldingSubscribes;
use moqtail::model::Location;

fn loc(group: u64, object: u64) -> Location {
    Location { group, object }
}

#[test]
fn try_resolve_returns_empty_when_no_holding() {
    let mut holding = HoldingSubscribes::default();
    let resolved = holding.try_resolve(loc(100, 0));
    assert!(resolved.is_empty());
    assert_eq!(holding.len(), 0);
}

#[test]
fn try_resolve_releases_subscribe_when_largest_meets_delay_exactly() {
    let mut holding = HoldingSubscribes::default();
    holding.register(/* request_id */ 1, /* delay_groups */ 3);
    let resolved = holding.try_resolve(loc(3, 0));
    assert_eq!(resolved.len(), 1);
    assert_eq!(resolved[0].request_id, 1);
    assert_eq!(resolved[0].start_location, loc(0, 0));
    assert_eq!(holding.len(), 0); // drained
}

#[test]
fn try_resolve_releases_subscribe_when_largest_exceeds_delay() {
    let mut holding = HoldingSubscribes::default();
    holding.register(1, 3);
    let resolved = holding.try_resolve(loc(5, 0));
    assert_eq!(resolved.len(), 1);
    assert_eq!(resolved[0].start_location, loc(2, 0));
}

#[test]
fn try_resolve_keeps_subscribe_when_largest_below_delay() {
    let mut holding = HoldingSubscribes::default();
    holding.register(1, 5);
    let resolved = holding.try_resolve(loc(2, 0));
    assert!(resolved.is_empty());
    assert_eq!(holding.len(), 1);
}

#[test]
fn try_resolve_partitions_correctly() {
    let mut holding = HoldingSubscribes::default();
    holding.register(1, 2);
    holding.register(2, 10);
    holding.register(3, 4);
    let resolved = holding.try_resolve(loc(5, 0));
    assert_eq!(resolved.len(), 2);
    assert_eq!(holding.len(), 1);
    let resolved_ids: Vec<u64> = resolved.iter().map(|r| r.request_id).collect();
    assert!(resolved_ids.contains(&1));
    assert!(resolved_ids.contains(&3));
    let start_for = |id: u64| -> Location {
        resolved
            .iter()
            .find(|r| r.request_id == id)
            .unwrap()
            .start_location
            .clone()
    };
    assert_eq!(start_for(1), loc(3, 0));
    assert_eq!(start_for(3), loc(1, 0));
}

#[test]
fn register_then_resolve_then_register_reuses_capacity() {
    let mut holding = HoldingSubscribes::default();
    holding.register(1, 2);
    let _ = holding.try_resolve(loc(2, 0));
    holding.register(2, 3);
    assert_eq!(holding.len(), 1);
    let resolved = holding.try_resolve(loc(3, 0));
    assert_eq!(resolved.len(), 1);
    assert_eq!(resolved[0].request_id, 2);
    assert_eq!(holding.len(), 0);
}
