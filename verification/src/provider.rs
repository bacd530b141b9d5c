//! What a provider's reply becomes before a worker sees it.
//!
//! A provider answers a request with observations in no particular order,
//! or says that it has none, or fails. Having none is no failure: it is an
//! empty series. Who receives a response can so tell a period without data
//! from a fetch that went wrong.
use crate::chronology::{
    chronological, chronological_order_of, closing_series, is_chronological_order, timestamps_of,
};
use crate::coordinator::SymbolRequest;
use crate::instant::Timestamp;
use crate::worker::WorkerEvent;
use vstd::prelude::*;

verus! {

/// What a provider said to a request. `P` is the type of a price.
#[derive(Debug, PartialEq)]
pub enum ProviderReply<P> {
    /// Observations, each a timestamp in seconds and a price, in the order
    /// the provider gave them.
    Observations(Vec<(i64, P)>),
    /// The provider took the query and has no observation in its period.
    Empty,
    /// The provider could not be reached.
    Unreachable,
    /// The provider's answer could not be read.
    Unreadable,
    /// The provider called the query invalid.
    Rejected,
}

/// How a fetch went wrong.
#[derive(Clone, Copy, Debug, PartialEq, Eq, Structural)]
pub enum ProviderError {
    /// Network or transport failure.
    Network,
    /// Malformed or unparseable response.
    Malformed,
    /// The provider reported the query as invalid.
    InvalidQuery,
}

/// The series that answers a request: the prices of `symbol` observed from
/// `from` up to `to`, oldest first. A series may be empty: the provider
/// answered, and had nothing in that period.
#[derive(Debug, PartialEq)]
pub struct RequestSymbolDataResponse<P> {
    pub symbol: String,
    pub prices: Vec<P>,
    pub from: Timestamp,
    pub to: Timestamp,
}

/// The prices that a reply holds, oldest first, or how the fetch went wrong.
pub open spec fn spec_prices_of<P>(reply: ProviderReply<P>) -> Result<Seq<P>, ProviderError> {
    match reply {
        ProviderReply::Observations(observations) => Ok(chronological(observations@)),
        ProviderReply::Empty => Ok(Seq::empty()),
        ProviderReply::Unreachable => Err(ProviderError::Network),
        ProviderReply::Unreadable => Err(ProviderError::Malformed),
        ProviderReply::Rejected => Err(ProviderError::InvalidQuery),
    }
}

impl<P: Copy> RequestSymbolDataResponse<P> {
    /// The answer to `request`, made of the observations that the provider
    /// returned for it: the response is for the request's symbol and
    /// period, and holds the observed prices in chronological order.
    pub fn from_observations(request: SymbolRequest, observations: &Vec<(i64, P)>) -> (response:
        Self)
        ensures
            response.symbol@ == request.symbol@,
            response.from == request.from,
            response.to == request.to,
            response.prices@ == chronological(observations@),
            is_chronological_order(
                timestamps_of(observations@),
                chronological_order_of(timestamps_of(observations@)),
            ),
    {
        let prices = closing_series(observations);
        RequestSymbolDataResponse {
            symbol: request.symbol,
            prices,
            from: request.from,
            to: request.to,
        }
    }

    /// The answer to `request`, made of the provider's reply. Observations
    /// give a response with their prices in chronological order, and a
    /// provider without observations gives a response with an empty series.
    /// A provider that failed gives the error that tells how.
    pub fn from_reply(request: SymbolRequest, reply: &ProviderReply<P>) -> (answer: Result<
        Self,
        ProviderError,
    >)
        ensures
            match spec_prices_of(*reply) {
                Ok(prices) => answer matches Ok(response) && response.symbol@ == request.symbol@
                    && response.from == request.from && response.to == request.to
                    && response.prices@ == prices,
                Err(error) => answer == Err::<Self, ProviderError>(error),
            },
    {
        match reply {
            ProviderReply::Observations(observations) => Ok(
                Self::from_observations(request, observations),
            ),
            ProviderReply::Empty => Ok(
                RequestSymbolDataResponse {
                    symbol: request.symbol,
                    prices: Vec::new(),
                    from: request.from,
                    to: request.to,
                },
            ),
            ProviderReply::Unreachable => Err(ProviderError::Network),
            ProviderReply::Unreadable => Err(ProviderError::Malformed),
            ProviderReply::Rejected => Err(ProviderError::InvalidQuery),
        }
    }
}

/// The event that tells a worker of the answer to its request: the length
/// of the series, or that the provider failed.
pub fn fetch_event<P, R>(answer: &Result<RequestSymbolDataResponse<P>, ProviderError>) -> (event:
    WorkerEvent<R>)
    ensures
        match answer {
            Ok(response) => event == (WorkerEvent::<R>::Fetched {
                observations: response.prices@.len() as usize,
            }),
            Err(_) => event == WorkerEvent::<R>::ProviderError,
        },
{
    match answer {
        Ok(response) => WorkerEvent::Fetched { observations: response.prices.len() },
        Err(_) => WorkerEvent::ProviderError,
    }
}

} // verus!
