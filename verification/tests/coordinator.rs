use stock_tracer::coordinator::{
    all_ended, build_requests, join_workers, CycleOutcome, SymbolOutcome, SymbolRequest,
};
use stock_tracer::failure::FailureReason;
use stock_tracer::instant::Timestamp;
use stock_tracer::layout::{ends, last_window, MOVING_AVERAGE_WINDOW};
use stock_tracer::provider::{fetch_event, ProviderReply, RequestSymbolDataResponse};
use stock_tracer::worker::{step, HistoryPolicy, WorkerAction, WorkerEvent, WorkerState};

#[derive(Debug, PartialEq)]
struct Record {
    last_price: f64,
    relative_change_pct: f64,
    period_min: f64,
    period_max: f64,
    last_moving_average: Option<f64>,
}

fn summarise(prices: &[f64]) -> Option<Record> {
    let (first, latest) = ends(prices.len())?;
    let change = prices[latest] - prices[first];
    let base = if prices[first] == 0.0 { 1.0 } else { prices[first] };
    Some(Record {
        last_price: prices[latest],
        relative_change_pct: change / base * 100.0,
        period_min: prices.iter().copied().fold(prices[first], f64::min),
        period_max: prices.iter().copied().fold(prices[first], f64::max),
        last_moving_average: last_window(MOVING_AVERAGE_WINDOW, prices.len())
            .map(|(start, end)| prices[start..end].iter().sum::<f64>() / (end - start) as f64),
    })
}

fn run_worker(
    policy: HistoryPolicy,
    request: &SymbolRequest,
    reply: ProviderReply<f64>,
) -> WorkerState<Record> {
    let (state, action) = step(policy, WorkerState::Idle, WorkerEvent::Start);
    assert_eq!(action, WorkerAction::Fetch);
    let answer = RequestSymbolDataResponse::from_reply(request.clone(), &reply);
    let (state, action) = step(policy, state, fetch_event(&answer));
    if action != WorkerAction::Compute {
        return state;
    }
    let event = match summarise(&answer.unwrap().prices) {
        Some(record) => WorkerEvent::Computed(record),
        None => WorkerEvent::Undefined,
    };
    step(policy, state, event).0
}

fn names(symbols: &[&str]) -> Vec<String> {
    symbols.iter().map(|s| s.to_string()).collect()
}

const FROM: Timestamp = Timestamp { secs: 1_672_531_200, nanos: 0 };
const TO: Timestamp = Timestamp { secs: 1_675_209_600, nanos: 0 };

#[test]
fn requests_are_one_per_symbol_with_shared_bounds() {
    let requests = build_requests(&names(&["AAA", "BBB", "CCC"]), FROM, TO);
    assert_eq!(requests.len(), 3);
    for (request, symbol) in requests.iter().zip(["AAA", "BBB", "CCC"]) {
        assert_eq!(request.symbol, symbol);
        assert_eq!(request.from, FROM);
        assert_eq!(request.to, TO);
    }
}

#[test]
fn requests_for_no_symbols_are_none() {
    assert!(build_requests(&Vec::new(), FROM, TO).is_empty());
}

#[test]
fn a_symbol_named_twice_is_asked_for_twice() {
    let requests = build_requests(&names(&["AAA", "AAA"]), FROM, TO);
    assert_eq!(requests.len(), 2);
    assert_eq!(requests[0], requests[1]);
}

#[test]
fn one_symbol_fails_and_the_other_is_summarised() {
    let requests = build_requests(&names(&["AAA", "BBB"]), FROM, TO);
    let raw: Vec<(i64, f64)> = vec![
        (1_672_617_600, 10.0),
        (1_672_704_000, 12.0),
        (1_672_790_400, 11.0),
        (1_672_876_800, 15.0),
    ];
    let workers = vec![
        run_worker(HistoryPolicy::AllowShort, &requests[0], ProviderReply::Observations(raw)),
        run_worker(HistoryPolicy::AllowShort, &requests[1], ProviderReply::Unreachable),
    ];
    let outcome = join_workers(&requests, workers).unwrap();
    assert_eq!(outcome.len(), 2);
    let record = outcome.get("AAA").unwrap().result.as_ref().unwrap();
    assert_eq!(record.last_price, 15.0);
    assert_eq!(record.period_min, 10.0);
    assert_eq!(record.period_max, 15.0);
    assert_eq!(record.relative_change_pct, 50.0);
    assert_eq!(record.last_moving_average, None);
    assert_eq!(outcome.get("BBB").unwrap().result, Err(FailureReason::ProviderFailure));
    assert_eq!(outcome.failure_count(), 1);
    assert_eq!(outcome.record_count(), 1);
}

#[test]
fn a_short_series_has_no_record_where_the_window_is_required() {
    let requests = build_requests(&names(&["AAA"]), FROM, TO);
    let raw: Vec<(i64, f64)> = vec![(1, 10.0), (2, 12.0), (3, 11.0), (4, 15.0)];
    let workers =
        vec![run_worker(HistoryPolicy::RequireWindow, &requests[0], ProviderReply::Observations(raw))];
    let outcome = join_workers(&requests, workers).unwrap();
    assert_eq!(outcome.get("AAA").unwrap().result, Err(FailureReason::InsufficientHistory));
}

#[test]
fn an_empty_series_is_no_data_and_no_record() {
    let requests = build_requests(&names(&["ZZZ"]), FROM, TO);
    let workers = vec![run_worker(
        HistoryPolicy::AllowShort,
        &requests[0],
        ProviderReply::Observations(Vec::new()),
    )];
    let outcome = join_workers(&requests, workers).unwrap();
    assert_eq!(
        outcome,
        CycleOutcome {
            entries: vec![SymbolOutcome {
                symbol: String::from("ZZZ"),
                result: Err(FailureReason::NoData),
            }],
        }
    );
}

#[test]
fn a_long_series_has_a_moving_average() {
    let requests = build_requests(&names(&["AAA"]), FROM, TO);
    let raw: Vec<(i64, f64)> = (0..40).rev().map(|day| (day as i64, day as f64)).collect();
    let workers =
        vec![run_worker(HistoryPolicy::RequireWindow, &requests[0], ProviderReply::Observations(raw))];
    let outcome = join_workers(&requests, workers).unwrap();
    assert_eq!(
        outcome.get("AAA").unwrap().result,
        Ok(Record {
            last_price: 39.0,
            relative_change_pct: 3900.0,
            period_min: 0.0,
            period_max: 39.0,
            last_moving_average: Some(24.5),
        })
    );
}

#[test]
fn every_symbol_has_its_entry_whichever_workers_fail() {
    let symbols = names(&["AAA", "BBB", "CCC", "DDD", "EEE"]);
    let requests = build_requests(&symbols, FROM, TO);
    let workers: Vec<WorkerState<u32>> = vec![
        WorkerState::Done(1),
        WorkerState::Failed(FailureReason::ProviderFailure),
        WorkerState::Done(3),
        WorkerState::Failed(FailureReason::NoData),
        WorkerState::Failed(FailureReason::InsufficientHistory),
    ];
    let outcome = join_workers(&requests, workers).unwrap();
    assert_eq!(outcome.len(), 5);
    assert_eq!(outcome.failure_count(), 3);
    assert_eq!(outcome.record_count(), 2);
    let symbols_out: Vec<&str> = outcome.entries.iter().map(|e| e.symbol.as_str()).collect();
    assert_eq!(symbols_out, ["AAA", "BBB", "CCC", "DDD", "EEE"]);
    assert_eq!(outcome.get("AAA").unwrap().result, Ok(1));
    assert_eq!(outcome.get("BBB").unwrap().result, Err(FailureReason::ProviderFailure));
    assert_eq!(outcome.get("CCC").unwrap().result, Ok(3));
    assert_eq!(outcome.get("DDD").unwrap().result, Err(FailureReason::NoData));
    assert_eq!(outcome.get("EEE").unwrap().result, Err(FailureReason::InsufficientHistory));
}

#[test]
fn all_workers_failing_is_an_outcome_too() {
    let requests = build_requests(&names(&["AAA", "BBB"]), FROM, TO);
    let workers: Vec<WorkerState<u32>> = vec![
        WorkerState::Failed(FailureReason::ProviderFailure),
        WorkerState::Failed(FailureReason::ProviderFailure),
    ];
    let outcome = join_workers(&requests, workers).unwrap();
    assert_eq!(outcome.failure_count(), 2);
    assert_eq!(outcome.record_count(), 0);
}

#[test]
fn no_outcome_before_every_worker_has_ended() {
    let requests = build_requests(&names(&["AAA", "BBB"]), FROM, TO);
    for pending in [WorkerState::Idle, WorkerState::Fetching, WorkerState::Computing] {
        let workers: Vec<WorkerState<u32>> = vec![WorkerState::Done(1), pending];
        assert!(!all_ended(&requests, &workers));
        assert_eq!(join_workers(&requests, workers), None);
    }
}

#[test]
fn no_outcome_without_a_worker_for_every_request() {
    let requests = build_requests(&names(&["AAA", "BBB"]), FROM, TO);
    let too_few: Vec<WorkerState<u32>> = vec![WorkerState::Done(1)];
    assert!(!all_ended(&requests, &too_few));
    assert_eq!(join_workers(&requests, too_few), None);
    let too_many: Vec<WorkerState<u32>> =
        vec![WorkerState::Done(1), WorkerState::Done(2), WorkerState::Done(3)];
    assert!(!all_ended(&requests, &too_many));
    assert_eq!(join_workers(&requests, too_many), None);
}

#[test]
fn the_outcome_of_no_requests_is_empty() {
    let workers: Vec<WorkerState<u32>> = Vec::new();
    assert!(all_ended(&Vec::new(), &workers));
    let outcome = join_workers(&Vec::new(), workers).unwrap();
    assert_eq!(outcome.len(), 0);
    assert_eq!(outcome.failure_count(), 0);
    assert_eq!(outcome.record_count(), 0);
    assert_eq!(outcome.get("AAA"), None);
}

#[test]
fn get_finds_the_first_entry_of_a_symbol() {
    let requests = build_requests(&names(&["AAA", "BBB", "AAA"]), FROM, TO);
    let workers: Vec<WorkerState<u32>> = vec![
        WorkerState::Done(1),
        WorkerState::Done(2),
        WorkerState::Failed(FailureReason::NoData),
    ];
    let outcome = join_workers(&requests, workers).unwrap();
    assert_eq!(outcome.get("AAA").unwrap().result, Ok(1));
    assert_eq!(outcome.get("BBB").unwrap().result, Ok(2));
    assert_eq!(outcome.get("aaa"), None);
    assert_eq!(outcome.get(""), None);
    assert_eq!(outcome.get("AA"), None);
}
