use vstd::prelude::*;

verus! {

/// A structural fault that makes a whole remote payload unusable.
#[derive(Clone, Copy, Debug, PartialEq, Eq, Structural)]
pub enum MalformedCause {
    /// The payload carries no data set at all.
    NoDataSets,
    /// No dimension of the payload's structure is the currency dimension.
    NoCurrencyDimension,
}

/// The error taxonomy of the exchange-rate pipeline.
#[derive(Clone, Debug)]
pub enum ExchangeError {
    /// Structural parse failure; fatal for the fetch that received the payload.
    MalformedResponse(MalformedCause),
    /// The requested currency code is absent from the current snapshot.
    CurrencyNotFound(String),
    /// A remote or storage call failed; carried verbatim, never retried.
    TransportFailure(String),
    /// Malformed caller input at the exposed-capability boundary.
    InvalidArguments,
}

} // verus!
