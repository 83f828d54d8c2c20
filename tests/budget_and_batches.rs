use top_movers::batch::{
    batch_bounds, pacing_delay_ms, BatchScheduler, SchedulerAction, SchedulerEvent, SchedulerState,
};
use top_movers::budget::{
    batch_size, batch_size_for_limit, calculate_request_weight, safe_capacity, weight_ceiling, RateLimit,
};

fn limit(kind: &str, interval: &str, value: u32) -> RateLimit {
    RateLimit { limit_type: kind.to_string(), interval: interval.to_string(), limit: value }
}

#[test]
fn weights_follow_the_tiers() {
    assert_eq!(calculate_request_weight(50), 1);
    assert_eq!(calculate_request_weight(250), 2);
    assert_eq!(calculate_request_weight(750), 5);
    assert_eq!(calculate_request_weight(1500), 10);
}

#[test]
fn weight_tier_boundaries() {
    assert_eq!(calculate_request_weight(0), 1);
    assert_eq!(calculate_request_weight(99), 1);
    assert_eq!(calculate_request_weight(100), 2);
    assert_eq!(calculate_request_weight(499), 2);
    assert_eq!(calculate_request_weight(500), 5);
    assert_eq!(calculate_request_weight(1000), 5);
    assert_eq!(calculate_request_weight(1001), 10);
    assert_eq!(calculate_request_weight(u32::MAX), 10);
}

#[test]
fn batch_size_for_default_ceiling() {
    assert_eq!(safe_capacity(2400), 2160);
    assert_eq!(batch_size(2400, 5), 432);
    assert_eq!(batch_size_for_limit(2400, 750), 432);
    assert_eq!(batch_size_for_limit(2400, 1500), 216);
}

#[test]
fn batch_size_is_never_zero() {
    assert_eq!(batch_size(0, 10), 1);
    assert_eq!(batch_size(10, 10), 1);
    assert_eq!(safe_capacity(u32::MAX), 3865470565);
}

#[test]
fn ceiling_comes_from_the_minute_weight_limit() {
    let limits = vec![
        limit("ORDERS", "MINUTE", 1200),
        limit("REQUEST_WEIGHT", "SECOND", 50),
        limit("REQUEST_WEIGHT", "MINUTE", 6000),
        limit("REQUEST_WEIGHT", "MINUTE", 10),
    ];
    assert_eq!(weight_ceiling(&limits), 6000);
}

#[test]
fn ceiling_falls_back_to_default() {
    assert_eq!(weight_ceiling(&vec![]), 2400);
    assert_eq!(weight_ceiling(&vec![limit("ORDERS", "MINUTE", 1200)]), 2400);
}

#[test]
fn batch_bounds_cover_the_list() {
    assert_eq!(batch_bounds(10, 3), vec![(0, 3), (3, 6), (6, 9), (9, 10)]);
    assert_eq!(batch_bounds(6, 3), vec![(0, 3), (3, 6)]);
    assert_eq!(batch_bounds(2, 432), vec![(0, 2)]);
    assert_eq!(batch_bounds(0, 5), vec![]);
}

#[test]
fn batches_concatenate_to_the_list() {
    let items: Vec<u32> = (0..1000).collect();
    let mut joined = Vec::new();
    for (start, end) in batch_bounds(items.len(), 432) {
        assert!(end - start >= 1 && end - start <= 432);
        joined.extend_from_slice(&items[start..end]);
    }
    assert_eq!(joined, items);
}

#[test]
fn pacing_fills_the_slot() {
    assert_eq!(pacing_delay_ms(0), 62_000);
    assert_eq!(pacing_delay_ms(1_500), 60_500);
    assert_eq!(pacing_delay_ms(59_999), 2_001);
    assert_eq!(pacing_delay_ms(60_000), 0);
    assert_eq!(pacing_delay_ms(90_000), 0);
}

#[test]
fn scheduler_runs_batches_in_order_with_pacing() {
    let mut s = BatchScheduler::new(5, 2);
    assert_eq!(s.step(SchedulerEvent::Start), Some(SchedulerAction::Dispatch { start: 0, end: 2 }));
    assert_eq!(s.step(SchedulerEvent::BatchDone { elapsed_ms: 1_000 }), Some(SchedulerAction::Pause { ms: 61_000 }));
    assert_eq!(s.state, SchedulerState::Waiting);
    assert_eq!(s.step(SchedulerEvent::PauseDone), Some(SchedulerAction::Dispatch { start: 2, end: 4 }));
    assert_eq!(
        s.step(SchedulerEvent::BatchDone { elapsed_ms: 70_000 }),
        Some(SchedulerAction::Dispatch { start: 4, end: 5 })
    );
    assert_eq!(s.step(SchedulerEvent::BatchDone { elapsed_ms: 10 }), Some(SchedulerAction::Finish));
    assert_eq!(s.state, SchedulerState::Done);
}

#[test]
fn scheduler_without_instruments_finishes_at_once() {
    let mut s = BatchScheduler::new(0, 432);
    assert_eq!(s.step(SchedulerEvent::Start), Some(SchedulerAction::Finish));
    assert_eq!(s.state, SchedulerState::Done);
}

#[test]
fn scheduler_ignores_out_of_order_events() {
    let mut s = BatchScheduler::new(3, 2);
    assert_eq!(s.step(SchedulerEvent::PauseDone), None);
    assert_eq!(s.state, SchedulerState::Idle);
    s.step(SchedulerEvent::Start);
    assert_eq!(s.step(SchedulerEvent::Start), None);
    assert_eq!(s.next_start, 2);
}
