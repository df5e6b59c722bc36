use light_client::peers::SourceId;
use light_client::requests::{RequestId, RequestTable};

#[test]
fn a_new_table_is_empty() {
    let table = RequestTable::new();
    assert_eq!(table.len(), 0);
    assert_eq!(table.source_of(RequestId(1)), None);
}

#[test]
fn a_registered_request_is_in_flight() {
    let mut table = RequestTable::new();
    table.register(RequestId(1), SourceId(10));
    table.register(RequestId(2), SourceId(20));
    assert_eq!(table.len(), 2);
    assert_eq!(table.source_of(RequestId(1)), Some(SourceId(10)));
    assert_eq!(table.source_of(RequestId(2)), Some(SourceId(20)));
    assert_eq!(table.source_of(RequestId(3)), None);
}

#[test]
fn registering_under_a_used_id_replaces_the_entry() {
    let mut table = RequestTable::new();
    table.register(RequestId(1), SourceId(10));
    table.register(RequestId(1), SourceId(11));
    assert_eq!(table.len(), 1);
    assert_eq!(table.source_of(RequestId(1)), Some(SourceId(11)));
}

#[test]
fn a_request_is_resolved_once() {
    let mut table = RequestTable::new();
    table.register(RequestId(1), SourceId(10));
    assert_eq!(table.resolve(RequestId(1)), Some(SourceId(10)));
    assert_eq!(table.resolve(RequestId(1)), None);
    assert_eq!(table.len(), 0);
}

#[test]
fn resolving_leaves_the_other_requests() {
    let mut table = RequestTable::new();
    table.register(RequestId(1), SourceId(10));
    table.register(RequestId(2), SourceId(10));
    table.register(RequestId(3), SourceId(30));
    assert_eq!(table.resolve(RequestId(2)), Some(SourceId(10)));
    assert_eq!(table.len(), 2);
    assert_eq!(table.source_of(RequestId(1)), Some(SourceId(10)));
    assert_eq!(table.source_of(RequestId(3)), Some(SourceId(30)));
}

#[test]
fn removing_a_source_takes_out_all_its_requests_oldest_first() {
    let mut table = RequestTable::new();
    table.register(RequestId(5), SourceId(1));
    table.register(RequestId(3), SourceId(2));
    table.register(RequestId(9), SourceId(1));
    table.register(RequestId(4), SourceId(1));
    assert_eq!(table.remove_source(SourceId(1)), vec![RequestId(5), RequestId(9), RequestId(4)]);
    assert_eq!(table.len(), 1);
    assert_eq!(table.source_of(RequestId(3)), Some(SourceId(2)));
    assert_eq!(table.remove_source(SourceId(1)), Vec::<RequestId>::new());
}

#[test]
fn removing_a_source_without_requests_changes_nothing() {
    let mut table = RequestTable::new();
    table.register(RequestId(5), SourceId(1));
    assert_eq!(table.remove_source(SourceId(7)), Vec::<RequestId>::new());
    assert_eq!(table.len(), 1);
}
