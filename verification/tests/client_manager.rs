use moqtail::client_manager::{ClientManager, ClientRecord};
use moqtail::track_name::{track_name_string, FullTrackName, Tuple, TupleField};
use moqtail::upstream::{LinkAction, LinkEvent, UpstreamLink, UPSTREAM_RETRY};

fn tuple(fields: &[&str]) -> Tuple {
    Tuple::new(fields.iter().map(|f| TupleField::from_utf8(f)).collect())
}

fn track(fields: &[&str], name: &str) -> FullTrackName {
    FullTrackName::new(tuple(fields), TupleField::from_utf8(name))
}

fn client(published: Vec<FullTrackName>, announced: Vec<Tuple>) -> ClientRecord {
    ClientRecord { published_tracks: published, announced_track_namespaces: announced }
}

#[test]
fn a_track_is_asked_of_everyone_who_can_supply_it() {
    let mut manager = ClientManager::new();
    manager.add(3, client(vec![track(&["live"], "a")], vec![]));
    manager.add(1, client(vec![], vec![tuple(&["live"])]));
    manager.add(2, client(vec![track(&["live"], "b")], vec![tuple(&["other"])]));
    let mut found = manager.get_publishers_for_track(&track(&["live"], "a"));
    found.sort();
    assert_eq!(found, vec![1, 3]);
    assert_eq!(manager.get_publisher_by_full_track_name(&track(&["live"], "a")), Some(3));
    assert_eq!(manager.get_publisher_by_full_track_name(&track(&["live"], "c")), None);
    assert_eq!(
        manager.get_publisher_by_announced_track_namespace(&tuple(&["live", "child"])),
        Some(1)
    );
    assert_eq!(manager.get_publisher_by_announced_track_namespace(&tuple(&["liver"])), None);
    assert_eq!(manager.get_publisher_by_announced_track_namespace(&tuple(&[])), None);
}

#[test]
fn the_link_upstream_is_the_last_resort() {
    let mut manager = ClientManager::new();
    let name = track(&["live"], "a");
    assert!(manager.get_publishers_for_track(&name).is_empty());
    manager.set_upstream(9);
    assert_eq!(manager.get_upstream(), None);
    manager.add(9, client(vec![], vec![]));
    assert_eq!(manager.get_upstream(), Some(9));
    assert_eq!(manager.get_publishers_for_track(&name), vec![9]);
    manager.add(1, client(vec![track(&["live"], "a")], vec![]));
    assert_eq!(manager.get_publishers_for_track(&name), vec![1]);
    manager.clear_upstream(8);
    assert_eq!(manager.get_upstream(), Some(9));
    manager.clear_upstream(9);
    assert_eq!(manager.get_upstream(), None);
    assert!(manager.remove(1).is_some() && manager.remove(1).is_none());
    assert!(manager.get(1).is_none() && manager.get(9).is_some());
}

#[test]
fn a_link_that_drops_is_dialled_again() {
    let mut manager = ClientManager::new();
    let mut link = UpstreamLink::new(10);
    assert_eq!(link.step(LinkEvent::Connected, &mut manager), LinkAction::Ignore);
    assert_eq!(link.step(LinkEvent::RetryDue, &mut manager), LinkAction::Dial);
    assert_eq!(
        link.step(LinkEvent::Connected, &mut manager),
        LinkAction::SendSetup { max_request_id: 11 }
    );
    assert_eq!(
        link.step(LinkEvent::SetupAccepted { connection_id: 4 }, &mut manager),
        LinkAction::RunSession
    );
    assert_eq!(manager.get_upstream(), Some(4));
    assert_eq!(
        link.step(LinkEvent::SessionEnded, &mut manager),
        LinkAction::Wait { nanos: UPSTREAM_RETRY }
    );
    assert_eq!(manager.get_upstream(), None);
    assert_eq!(link.step(LinkEvent::RetryDue, &mut manager), LinkAction::Dial);
    assert_eq!(
        link.step(LinkEvent::Failed, &mut manager),
        LinkAction::Wait { nanos: UPSTREAM_RETRY }
    );
}

#[test]
fn names_are_compared_byte_by_byte_and_printed_as_text() {
    assert!(track(&["a", "b"], "c").equals(&track(&["a", "b"], "c")));
    assert!(!track(&["a", "b"], "c").equals(&track(&["a"], "c")));
    assert!(!track(&["ab"], "c").equals(&track(&["a"], "bc")));
    assert!(tuple(&["a", "b"]).starts_with(&tuple(&["a"])));
    assert!(tuple(&["a"]).starts_with(&tuple(&[])));
    assert!(!tuple(&["a"]).starts_with(&tuple(&["a", "b"])));
    assert_eq!(track_name_string(&track(&["a", "b"], "caf\u{e9}")), "a/b/caf\u{e9}");
    assert_eq!(track_name_string(&track(&[], "c")), "/c");
    let broken = FullTrackName::new(tuple(&["a"]), TupleField { bytes: vec![b'x', 0xff] });
    assert_eq!(track_name_string(&broken), "a/x\u{fffd}");
}

#[test]
fn a_path_names_the_fields_between_its_slashes() {
    let fields = |path: &str| -> Vec<Vec<u8>> {
        Tuple::from_utf8_path(path).fields.iter().map(|f| f.as_bytes().to_vec()).collect()
    };
    assert_eq!(fields("moqtail"), vec![b"moqtail".to_vec()]);
    assert_eq!(fields("/test"), vec![b"test".to_vec()]);
    assert_eq!(fields("/live//\u{e9}t\u{e9}/"), vec![b"live".to_vec(), "été".as_bytes().to_vec()]);
    assert!(fields("").is_empty());
    assert!(fields("///").is_empty());
}
