use cftail::errors::TailError;
use cftail::events::StackEvent;
use cftail::fetch::{StackFetch, combine_results, sort_events};

fn ev(stack: &str, id: &str, status: &str, ts: i64) -> StackEvent {
    StackEvent {
        event_id: id.to_string(),
        stack_name: stack.to_string(),
        logical_resource_id: Some(stack.to_string()),
        resource_type: Some("AWS::CloudFormation::Stack".to_string()),
        resource_status: status.to_string(),
        resource_status_reason: None,
        timestamp: ts,
    }
}

fn timestamps(events: &[StackEvent]) -> Vec<i64> {
    events.iter().map(|e| e.timestamp).collect()
}

#[test]
fn fetch_collects_events_newer_than_since_in_page_order() {
    let mut fetch = StackFetch::new(&"root".to_string(), 0);
    let page = vec![
        ev("root", "e10", "UPDATE_IN_PROGRESS", 10),
        ev("root", "e5", "UPDATE_IN_PROGRESS", 5),
        ev("root", "e15", "UPDATE_COMPLETE", 15),
    ];
    fetch.consume_page(&page, false);
    assert!(!fetch.wants_more());
    assert_eq!(timestamps(&fetch.events), vec![10, 5, 15]);
}

#[test]
fn fetch_stops_at_the_first_event_at_or_below_the_watermark() {
    let mut fetch = StackFetch::new(&"root".to_string(), 10);
    let page = vec![
        ev("root", "e15", "UPDATE_COMPLETE", 15),
        ev("root", "e12", "UPDATE_IN_PROGRESS", 12),
        ev("root", "e10", "UPDATE_IN_PROGRESS", 10),
        ev("root", "e5", "CREATE_COMPLETE", 5),
    ];
    fetch.consume_page(&page, true);
    assert!(!fetch.wants_more());
    assert_eq!(timestamps(&fetch.events), vec![15, 12]);
}

#[test]
fn fetch_wants_more_while_pages_remain_and_stay_fresh() {
    let mut fetch = StackFetch::new(&"root".to_string(), 0);
    fetch.consume_page(&vec![ev("root", "e3", "UPDATE_IN_PROGRESS", 3)], true);
    assert!(fetch.wants_more());
    fetch.consume_page(&vec![ev("root", "e2", "UPDATE_IN_PROGRESS", 2)], false);
    assert!(!fetch.wants_more());
    assert_eq!(timestamps(&fetch.events), vec![3, 2]);
}

#[test]
fn fetch_skips_event_ids_it_has_already_seen() {
    let mut fetch = StackFetch::new(&"root".to_string(), 0);
    fetch.consume_page(
        &vec![
            ev("root", "eA", "UPDATE_IN_PROGRESS", 3),
            ev("root", "eB", "UPDATE_IN_PROGRESS", 2),
        ],
        true,
    );
    fetch.consume_page(
        &vec![
            ev("root", "eB", "UPDATE_IN_PROGRESS", 2),
            ev("root", "eC", "UPDATE_IN_PROGRESS", 1),
        ],
        false,
    );
    let ids: Vec<String> = fetch.events.iter().map(|e| e.event_id.clone()).collect();
    assert_eq!(ids, vec!["eA".to_string(), "eB".to_string(), "eC".to_string()]);
}

#[test]
fn merge_sorts_ascending_by_timestamp() {
    let out = sort_events(vec![
        ev("root", "e10", "UPDATE_IN_PROGRESS", 10),
        ev("root", "e5", "UPDATE_IN_PROGRESS", 5),
        ev("root", "e15", "UPDATE_COMPLETE", 15),
    ]);
    assert_eq!(timestamps(&out), vec![5, 10, 15]);
}

#[test]
fn merge_breaks_timestamp_ties_by_event_id_deterministically() {
    let root_event = ev("root", "id-b", "UPDATE_COMPLETE", 7);
    let child_event = ev("child", "id-a", "UPDATE_COMPLETE", 7);

    let one = combine_results(vec![
        Ok(vec![ev("root", "id-b", "UPDATE_COMPLETE", 7)]),
        Ok(vec![ev("child", "id-a", "UPDATE_COMPLETE", 7)]),
    ])
    .expect("no fatal error");
    let two = combine_results(vec![
        Ok(vec![child_event]),
        Ok(vec![root_event]),
    ])
    .expect("no fatal error");

    let ids_one: Vec<String> = one.iter().map(|e| e.event_id.clone()).collect();
    let ids_two: Vec<String> = two.iter().map(|e| e.event_id.clone()).collect();
    assert_eq!(ids_one, vec!["id-a".to_string(), "id-b".to_string()]);
    assert_eq!(ids_one, ids_two);
}

#[test]
fn throttled_stack_costs_only_its_own_batch() {
    let out = combine_results(vec![
        Ok(vec![ev("root", "e1", "UPDATE_IN_PROGRESS", 1)]),
        Err(TailError::Throttled),
    ])
    .expect("a throttled stack is not fatal");
    assert_eq!(out.len(), 1);
    assert_eq!(out[0].stack_name, "root");
}

#[test]
fn fatal_error_surfaces_from_the_merge() {
    let r = combine_results(vec![
        Ok(vec![ev("root", "e1", "UPDATE_IN_PROGRESS", 1)]),
        Err(TailError::CredentialsExpired),
        Err(TailError::NoCredentials),
    ]);
    assert!(matches!(r, Err(TailError::CredentialsExpired)));
}

#[test]
fn retryable_only_errors_yield_the_successful_batches() {
    let r = combine_results(vec![
        Err(TailError::Timeout),
        Err(TailError::TransportOrUnknown("reset".to_string())),
        Ok(vec![ev("child", "e2", "CREATE_COMPLETE", 2)]),
    ]);
    let out = r.expect("retryable errors are absorbed");
    assert_eq!(timestamps(&out), vec![2]);
}
