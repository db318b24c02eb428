use cftail::errors::TailError;
use cftail::events::StackEvent;
use cftail::fetch::{StackFetch, combine_results};
use cftail::stack_status::StatusCategory;
use cftail::stacks::StackInfo;
use cftail::tail::{Engine, TailConfig, notify, separator_line};

fn event(stack: &str, id: &str, status: &str, ts: i64) -> StackEvent {
    StackEvent {
        event_id: id.to_string(),
        stack_name: stack.to_string(),
        logical_resource_id: Some(stack.to_string()),
        resource_type: Some("AWS::CloudFormation::Stack".to_string()),
        resource_status: status.to_string(),
        resource_status_reason: None,
        timestamp: ts,
    }
}

fn config(names: &[&str], originals: &[&str], since: i64) -> TailConfig {
    TailConfig {
        stack_info: StackInfo {
            names: names.iter().map(|s| s.to_string()).collect(),
            original_names: originals.iter().map(|s| s.to_string()).collect(),
        },
        since,
        show_separators: true,
        show_notifications: true,
        show_outputs: true,
        show_resource_types: true,
        sound: "Ping".to_string(),
    }
}

#[test]
fn prefetch_renders_in_merge_order_and_leaves_watermark_at_the_newest_event() {
    let mut fetch = StackFetch::new(&"root".to_string(), 0);
    fetch.consume_page(
        &vec![
            event("root", "e10", "UPDATE_IN_PROGRESS", 10),
            event("root", "e5", "UPDATE_IN_PROGRESS", 5),
            event("root", "e15", "UPDATE_IN_PROGRESS", 15),
        ],
        false,
    );
    let batch = combine_results(vec![Ok(fetch.into_events())]).expect("no fatal error");

    let mut engine = Engine::new(config(&["root"], &["root"], 0));
    let plans = engine.prefetch_batch(&batch).expect("statuses all map");

    let rendered: Vec<i64> = plans.iter().map(|p| p.timestamp).collect();
    assert_eq!(rendered, vec![5, 10, 15]);
    assert_eq!(engine.watermark, 15);
    assert!(!engine.is_done());
}

#[test]
fn completion_of_an_original_stack_ends_the_run_after_its_batch() {
    let mut engine = Engine::new(config(&["root", "child"], &["root"], 0));
    engine.prefetch_batch(&Vec::new()).expect("empty batch");

    let batch = vec![
        event("root", "e1", "UPDATE_COMPLETE", 10),
        event("child", "e2", "UPDATE_IN_PROGRESS", 11),
    ];
    let plans = engine.poll_batch(&batch).expect("statuses all map");
    assert!(plans[0].is_completion);
    assert!(!plans[1].is_completion);
    assert!(engine.is_done());
}

#[test]
fn completion_of_a_nested_only_stack_does_not_end_the_run() {
    let mut engine = Engine::new(config(&["root", "child"], &["root"], 0));
    engine.prefetch_batch(&Vec::new()).expect("empty batch");

    let batch = vec![event("child", "e1", "UPDATE_COMPLETE", 10)];
    let plans = engine.poll_batch(&batch).expect("statuses all map");
    assert!(!plans[0].is_completion);
    assert!(!plans[0].highlight);
    assert!(!engine.is_done());
}

#[test]
fn watermark_never_regresses_on_a_mixed_batch() {
    let mut engine = Engine::new(config(&["root"], &["root"], 10));
    engine.prefetch_batch(&Vec::new()).expect("empty batch");
    assert_eq!(engine.watermark, 10);

    let batch = vec![
        event("root", "e20", "UPDATE_IN_PROGRESS", 20),
        event("root", "e7", "UPDATE_IN_PROGRESS", 7),
    ];
    engine.poll_batch(&batch).expect("statuses all map");
    assert_eq!(engine.watermark, 20);

    engine.poll_batch(&Vec::new()).expect("empty batch");
    assert_eq!(engine.watermark, 20);
}

#[test]
fn rendering_stays_in_timestamp_order_across_cycles() {
    let mut engine = Engine::new(config(&["root"], &["root"], 0));
    let mut rendered: Vec<i64> = Vec::new();

    let prefetch = combine_results(vec![Ok(vec![
        event("root", "e10", "UPDATE_IN_PROGRESS", 10),
        event("root", "e5", "UPDATE_IN_PROGRESS", 5),
    ])])
    .expect("no fatal error");
    for p in engine.prefetch_batch(&prefetch).expect("statuses all map") {
        rendered.push(p.timestamp);
    }

    // Each poll cycle fetches only events newer than the watermark.
    let mut cycle = StackFetch::new(&"root".to_string(), engine.watermark);
    cycle.consume_page(
        &vec![
            event("root", "e30", "UPDATE_IN_PROGRESS", 30),
            event("root", "e12", "UPDATE_IN_PROGRESS", 12),
            event("root", "e10", "UPDATE_IN_PROGRESS", 10),
        ],
        false,
    );
    let batch = combine_results(vec![Ok(cycle.into_events())]).expect("no fatal error");
    for p in engine.poll_batch(&batch).expect("statuses all map") {
        rendered.push(p.timestamp);
    }

    assert_eq!(rendered, vec![5, 10, 12, 30]);
    let mut sorted = rendered.clone();
    sorted.sort();
    assert_eq!(rendered, sorted);
}

#[test]
fn an_event_at_or_below_the_watermark_is_not_fetched_again() {
    let rendered = event("root", "e10", "UPDATE_IN_PROGRESS", 10);
    let mut engine = Engine::new(config(&["root"], &["root"], 0));
    engine.prefetch_batch(&vec![rendered]).expect("statuses all map");
    assert_eq!(engine.watermark, 10);

    let mut next_cycle = StackFetch::new(&"root".to_string(), engine.watermark);
    next_cycle.consume_page(
        &vec![
            event("root", "e11", "UPDATE_IN_PROGRESS", 11),
            event("root", "e10", "UPDATE_IN_PROGRESS", 10),
        ],
        false,
    );
    let ids: Vec<String> = next_cycle.events.iter().map(|e| e.event_id.clone()).collect();
    assert_eq!(ids, vec!["e11".to_string()]);
}

#[test]
fn render_plan_carries_the_event_fields_and_status_category() {
    let mut engine = Engine::new(config(&["root"], &["root"], 0));
    let mut failed = event("root", "e1", "CREATE_FAILED", 5);
    failed.resource_status_reason = Some("boom".to_string());
    let plans = engine.prefetch_batch(&vec![failed]).expect("statuses all map");

    let plan = &plans[0];
    assert_eq!(plan.stack_name, "root");
    assert_eq!(plan.resource_name.as_deref(), Some("root"));
    assert_eq!(plan.status, "CREATE_FAILED");
    assert_eq!(plan.category, StatusCategory::Failed);
    assert_eq!(plan.status_reason.as_deref(), Some("boom"));
    assert!(plan.highlight);
    assert!(!plan.celebrate);
    assert!(!plan.is_completion);
    assert!(plan.fetch_outputs_for.is_none());
    assert!(!plan.print_separator);
    assert!(!plan.notify);
}

#[test]
fn celebration_drives_outputs_separator_and_notification_flags() {
    let mut engine = Engine::new(config(&["root"], &["root"], 0));
    engine.prefetch_batch(&Vec::new()).expect("empty batch");
    let plans = engine
        .poll_batch(&vec![event("root", "e1", "UPDATE_COMPLETE", 10)])
        .expect("statuses all map");

    let plan = &plans[0];
    assert!(plan.celebrate);
    assert_eq!(plan.fetch_outputs_for.as_deref(), Some("root"));
    assert!(plan.print_separator);
    assert!(plan.notify);
}

#[test]
fn a_completion_with_a_reason_still_ends_the_run_but_does_not_celebrate() {
    let mut engine = Engine::new(config(&["root"], &["root"], 0));
    engine.prefetch_batch(&Vec::new()).expect("empty batch");
    let mut done = event("root", "e1", "UPDATE_COMPLETE", 10);
    done.resource_status_reason = Some("finished with notes".to_string());
    let plans = engine.poll_batch(&vec![done]).expect("statuses all map");

    assert!(!plans[0].celebrate);
    assert!(!plans[0].notify);
    assert!(plans[0].is_completion);
    assert!(engine.is_done());
}

#[test]
fn notifications_are_suppressed_during_the_catch_up_pass() {
    let mut engine = Engine::new(config(&["root"], &["root"], 0));
    let plans = engine
        .prefetch_batch(&vec![event("root", "e1", "UPDATE_COMPLETE", 10)])
        .expect("statuses all map");

    assert!(plans[0].celebrate);
    assert!(!plans[0].notify);
    assert!(!engine.is_done());
}

#[test]
fn display_toggles_turn_the_follow_up_renderings_off() {
    let mut cfg = config(&["root"], &["root"], 0);
    cfg.show_outputs = false;
    cfg.show_separators = false;
    cfg.show_notifications = false;
    let mut engine = Engine::new(cfg);
    engine.prefetch_batch(&Vec::new()).expect("empty batch");
    let plans = engine
        .poll_batch(&vec![event("root", "e1", "UPDATE_COMPLETE", 10)])
        .expect("statuses all map");

    assert!(plans[0].celebrate);
    assert!(plans[0].fetch_outputs_for.is_none());
    assert!(!plans[0].print_separator);
    assert!(!plans[0].notify);
    assert!(engine.is_done());
}

#[test]
fn an_unmapped_status_in_a_batch_is_fatal_and_leaves_the_engine_unchanged() {
    let mut engine = Engine::new(config(&["root"], &["root"], 0));
    engine.prefetch_batch(&Vec::new()).expect("empty batch");
    let batch = vec![
        event("root", "e1", "UPDATE_IN_PROGRESS", 5),
        event("root", "e2", "NOT_A_STATUS", 6),
    ];
    match engine.poll_batch(&batch) {
        Err(TailError::UnmappedStatus(raw)) => assert_eq!(raw, "NOT_A_STATUS"),
        other => panic!("expected unmapped-status error, got {:?}", other),
    }
    assert_eq!(engine.watermark, 0);
    assert!(!engine.is_done());
}

#[test]
fn credentials_expiry_escalates_and_other_errors_do_not() {
    assert!(Engine::error_escalates(&TailError::CredentialsExpired));
    assert!(!Engine::error_escalates(&TailError::Timeout));
    assert!(!Engine::error_escalates(&TailError::Throttled));
    assert!(!Engine::error_escalates(&TailError::NoCredentials));
    assert!(!Engine::error_escalates(&TailError::StackNotFound("s".to_string())));
    assert!(!Engine::error_escalates(&TailError::TransportOrUnknown("x".to_string())));
}

#[test]
fn separator_line_is_all_dashes_of_the_asked_width() {
    assert_eq!(separator_line(5), "-----");
    assert_eq!(separator_line(0), "");
}

#[test]
fn notify_reports_whether_delivery_was_accepted() {
    // No desktop session is assumed anywhere; only the signature is
    // exercised: delivery may be accepted or refused.
    let _ = notify("Ping");
}
