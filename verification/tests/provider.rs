use stock_tracer::coordinator::SymbolRequest;
use stock_tracer::instant::Timestamp;
use stock_tracer::provider::{fetch_event, ProviderError, ProviderReply, RequestSymbolDataResponse};
use stock_tracer::worker::WorkerEvent;

fn request(symbol: &str) -> SymbolRequest {
    SymbolRequest {
        symbol: String::from(symbol),
        from: Timestamp { secs: 1_672_531_200, nanos: 0 },
        to: Timestamp { secs: 1_675_209_600, nanos: 250 },
    }
}

#[test]
fn response_is_for_its_request() {
    let raw: Vec<(i64, f64)> = vec![(1_672_704_000, 12.0), (1_672_617_600, 10.0)];
    let response = RequestSymbolDataResponse::from_observations(request("AAA"), &raw);
    assert_eq!(
        response,
        RequestSymbolDataResponse {
            symbol: String::from("AAA"),
            prices: vec![10.0, 12.0],
            from: Timestamp { secs: 1_672_531_200, nanos: 0 },
            to: Timestamp { secs: 1_675_209_600, nanos: 250 },
        }
    );
}

#[test]
fn response_without_observations_is_an_empty_series() {
    let raw: Vec<(i64, f64)> = Vec::new();
    let response = RequestSymbolDataResponse::from_observations(request("ZZZ"), &raw);
    assert_eq!(response.symbol, "ZZZ");
    assert!(response.prices.is_empty());
}

#[test]
fn observations_reply_is_a_response_in_chronological_order() {
    let reply = ProviderReply::Observations(vec![(30, 3.5), (10, 1.5), (20, 2.5)]);
    let answer = RequestSymbolDataResponse::from_reply(request("AAA"), &reply);
    assert_eq!(
        answer,
        Ok(RequestSymbolDataResponse {
            symbol: String::from("AAA"),
            prices: vec![1.5, 2.5, 3.5],
            from: Timestamp { secs: 1_672_531_200, nanos: 0 },
            to: Timestamp { secs: 1_675_209_600, nanos: 250 },
        })
    );
}

#[test]
fn a_provider_without_observations_is_no_failure() {
    let reply: ProviderReply<f64> = ProviderReply::Empty;
    let answer = RequestSymbolDataResponse::from_reply(request("ZZZ"), &reply);
    assert_eq!(
        answer,
        Ok(RequestSymbolDataResponse {
            symbol: String::from("ZZZ"),
            prices: Vec::new(),
            from: Timestamp { secs: 1_672_531_200, nanos: 0 },
            to: Timestamp { secs: 1_675_209_600, nanos: 250 },
        })
    );
}

#[test]
fn a_provider_that_failed_gives_its_error() {
    let unreachable: ProviderReply<f64> = ProviderReply::Unreachable;
    let unreadable: ProviderReply<f64> = ProviderReply::Unreadable;
    let rejected: ProviderReply<f64> = ProviderReply::Rejected;
    assert_eq!(
        RequestSymbolDataResponse::from_reply(request("AAA"), &unreachable),
        Err(ProviderError::Network)
    );
    assert_eq!(
        RequestSymbolDataResponse::from_reply(request("AAA"), &unreadable),
        Err(ProviderError::Malformed)
    );
    assert_eq!(
        RequestSymbolDataResponse::from_reply(request("AAA"), &rejected),
        Err(ProviderError::InvalidQuery)
    );
}

#[test]
fn a_response_tells_the_worker_its_length() {
    let raw: Vec<(i64, f64)> = vec![(1, 10.0), (2, 12.0), (3, 11.0), (4, 15.0)];
    let answer = Ok(RequestSymbolDataResponse::from_observations(request("AAA"), &raw));
    assert_eq!(fetch_event::<f64, ()>(&answer), WorkerEvent::Fetched { observations: 4 });
    let empty: ProviderReply<f64> = ProviderReply::Empty;
    let answer = RequestSymbolDataResponse::from_reply(request("ZZZ"), &empty);
    assert_eq!(fetch_event::<f64, ()>(&answer), WorkerEvent::Fetched { observations: 0 });
}

#[test]
fn an_error_tells_the_worker_that_the_provider_failed() {
    for error in [ProviderError::Network, ProviderError::Malformed, ProviderError::InvalidQuery] {
        let answer: Result<RequestSymbolDataResponse<f64>, ProviderError> = Err(error);
        assert_eq!(fetch_event::<f64, ()>(&answer), WorkerEvent::ProviderError);
    }
}
