use vstd::prelude::*;

use crate::civil::MAX_SUPPORTED_TIMESTAMP;
use crate::civil::date_key;
use crate::civil::date_key_chars;
use crate::civil::paris_civil;
use crate::civil::paris_civil_of;
use crate::civil::utc_civil;
use crate::civil::utc_civil_of;
use crate::errors::ExchangeError;
use crate::parser::EcbDataResponse;
use crate::parser::parse_error;
use crate::parser::parse_exchange_rates;
use crate::parser::parse_model;
use crate::parser::parse_ok;
use crate::policy::FreshnessDecision;
use crate::policy::decide_freshness;
use crate::policy::freshness_spec;
use crate::rates::ExchangeRatesSnapshot;
use crate::rates::get_rate_from_eur;
use crate::rates::get_rate_to_eur;
use crate::rates::lookup_rate;
use crate::rates::snapshot_rates;
use crate::rates::snapshot_wf;
use crate::store::ExchangeRateRecord;
use crate::store::InMemoryStorageAdapter;

verus! {

/// The bit pattern of 1.0 in binary64: the rate of the base currency
/// against itself, and the numerator of an inverted rate.
pub const UNIT_RATE_BITS: u64 = 0x3FF0_0000_0000_0000;

/// The implicit base currency; never listed in a snapshot.
pub open spec fn base_code() -> Seq<char> {
    "EUR"@
}

/// How a requested cross rate is computed from base-relative rates. The
/// library performs no binary64 arithmetic itself: a `Quotient` is for the
/// caller to divide.
#[derive(Clone, Copy, Debug, PartialEq, Eq, Structural)]
pub enum RateComputation {
    /// The stored base-relative rate itself, no arithmetic owed.
    Direct { rate_bits: u64 },
    /// Numerator over denominator, both binary64 bit patterns.
    Quotient { numerator_bits: u64, denominator_bits: u64 },
}

/// Does a conversion from `from` to `to` have every rate it needs?
pub open spec fn convert_defined(
    rs: Seq<(Seq<char>, u64)>,
    from: Seq<char>,
    to: Seq<char>,
) -> bool {
    if to == base_code() {
        from == base_code() || lookup_rate(rs, from) is Some
    } else if from == base_code() {
        lookup_rate(rs, to) is Some
    } else {
        lookup_rate(rs, from) is Some && lookup_rate(rs, to) is Some
    }
}

/// The computation a defined conversion yields: toward the base the stored
/// rate itself (the base against itself being the unit rate), from the base
/// the inverse of the stored rate, and otherwise the quotient of the two
/// stored rates.
pub open spec fn convert_value(
    rs: Seq<(Seq<char>, u64)>,
    from: Seq<char>,
    to: Seq<char>,
) -> RateComputation {
    if to == base_code() {
        if from == base_code() {
            RateComputation::Direct { rate_bits: UNIT_RATE_BITS }
        } else {
            RateComputation::Direct { rate_bits: lookup_rate(rs, from).unwrap() }
        }
    } else if from == base_code() {
        RateComputation::Quotient {
            numerator_bits: UNIT_RATE_BITS,
            denominator_bits: lookup_rate(rs, to).unwrap(),
        }
    } else {
        RateComputation::Quotient {
            numerator_bits: lookup_rate(rs, from).unwrap(),
            denominator_bits: lookup_rate(rs, to).unwrap(),
        }
    }
}

/// The code an undefined conversion reports as missing: the one looked up
/// first among those absent.
pub open spec fn convert_missing_code(
    rs: Seq<(Seq<char>, u64)>,
    from: Seq<char>,
    to: Seq<char>,
) -> Seq<char> {
    if to == base_code() {
        from
    } else if from == base_code() {
        to
    } else if lookup_rate(rs, from) is None {
        from
    } else {
        to
    }
}

/// Compute the cross rate from `from_currency` to `to_currency` through the
/// base currency, from the given snapshot alone. Converting the base
/// currency to itself is, by deliberate choice, the unit rate rather than a
/// missing-currency error: the base is never listed in a snapshot.
pub fn convert(
    snapshot: &ExchangeRatesSnapshot,
    from_currency: &str,
    to_currency: &str,
) -> (r: Result<RateComputation, ExchangeError>)
    ensures
        r is Ok <==> convert_defined(snapshot_rates(*snapshot), from_currency@, to_currency@),
        r matches Ok(c) ==> c == convert_value(
            snapshot_rates(*snapshot),
            from_currency@,
            to_currency@,
        ),
        r matches Err(e) ==> e matches ExchangeError::CurrencyNotFound(code) && code@
            == convert_missing_code(snapshot_rates(*snapshot), from_currency@, to_currency@),
{
    let base: String = "EUR".to_owned();
    if to_currency.to_owned() == base {
        if from_currency.to_owned() == base {
            Ok(RateComputation::Direct { rate_bits: UNIT_RATE_BITS })
        } else {
            match get_rate_to_eur(snapshot, from_currency) {
                Ok(bits) => Ok(RateComputation::Direct { rate_bits: bits }),
                Err(e) => Err(e),
            }
        }
    } else if from_currency.to_owned() == base {
        match get_rate_from_eur(snapshot, to_currency) {
            Ok(bits) => Ok(
                RateComputation::Quotient {
                    numerator_bits: UNIT_RATE_BITS,
                    denominator_bits: bits,
                },
            ),
            Err(e) => Err(e),
        }
    } else {
        match get_rate_to_eur(snapshot, from_currency) {
            Err(e) => Err(e),
            Ok(from_bits) => match get_rate_from_eur(snapshot, to_currency) {
                Err(e) => Err(e),
                Ok(to_bits) => Ok(
                    RateComputation::Quotient {
                        numerator_bits: from_bits,
                        denominator_bits: to_bits,
                    },
                ),
            },
        }
    }
}

/// Triangulation: when a snapshot stores `ra` for `a` and `rb` for `b`,
/// neither being the base currency, the conversion from `a` to `b` is the
/// quotient `ra / rb`, the conversion from the base to `b` is the quotient
/// `1 / rb`, and the conversion from `a` to the base is `ra` itself.
pub proof fn lemma_triangulation(
    rs: Seq<(Seq<char>, u64)>,
    a: Seq<char>,
    b: Seq<char>,
    ra: u64,
    rb: u64,
)
    requires
        lookup_rate(rs, a) == Some(ra),
        lookup_rate(rs, b) == Some(rb),
        a != base_code(),
        b != base_code(),
    ensures
        convert_defined(rs, a, b),
        convert_value(rs, a, b) == (RateComputation::Quotient {
            numerator_bits: ra,
            denominator_bits: rb,
        }),
        convert_defined(rs, base_code(), b),
        convert_value(rs, base_code(), b) == (RateComputation::Quotient {
            numerator_bits: UNIT_RATE_BITS,
            denominator_bits: rb,
        }),
        convert_defined(rs, a, base_code()),
        convert_value(rs, a, base_code()) == (RateComputation::Direct { rate_bits: ra }),
{
}

/// One requested conversion: an amount of `from_currency` (its bit pattern
/// is carried through untouched) to be expressed in `target_currency`.
pub struct ConversionRequest {
    pub from_currency: String,
    pub amount_bits: u64,
    pub target_currency: String,
}

/// Resolve a whole list of requested conversions against one snapshot; the
/// first unresolvable request fails the batch, as its error.
pub fn convert_batch(
    snapshot: &ExchangeRatesSnapshot,
    requests: &Vec<ConversionRequest>,
) -> (r: Result<Vec<RateComputation>, ExchangeError>)
    ensures
        r is Ok <==> (forall|i: int|
            0 <= i < requests@.len() ==> convert_defined(
                snapshot_rates(*snapshot),
                #[trigger] requests@[i].from_currency@,
                requests@[i].target_currency@,
            )),
        r matches Ok(v) ==> v@.len() == requests@.len() && (forall|i: int|
            0 <= i < requests@.len() ==> v@[i] == convert_value(
                snapshot_rates(*snapshot),
                #[trigger] requests@[i].from_currency@,
                requests@[i].target_currency@,
            )),
        r matches Err(e) ==> e matches ExchangeError::CurrencyNotFound(code) && exists|i: int|
            0 <= i < requests@.len() && !convert_defined(
                snapshot_rates(*snapshot),
                #[trigger] requests@[i].from_currency@,
                requests@[i].target_currency@,
            ) && (forall|j: int|
                0 <= j < i ==> convert_defined(
                    snapshot_rates(*snapshot),
                    #[trigger] requests@[j].from_currency@,
                    requests@[j].target_currency@,
                )) && code@ == convert_missing_code(
                snapshot_rates(*snapshot),
                requests@[i].from_currency@,
                requests@[i].target_currency@,
            ),
{
    let mut outcomes: Vec<RateComputation> = Vec::new();
    let n = requests.len();
    let mut i: usize = 0;
    while i < n
        invariant
            n == requests@.len(),
            0 <= i <= n,
            outcomes@.len() == i,
            forall|j: int|
                0 <= j < i ==> convert_defined(
                    snapshot_rates(*snapshot),
                    #[trigger] requests@[j].from_currency@,
                    requests@[j].target_currency@,
                ),
            forall|j: int|
                0 <= j < i ==> outcomes@[j] == convert_value(
                    snapshot_rates(*snapshot),
                    #[trigger] requests@[j].from_currency@,
                    requests@[j].target_currency@,
                ),
        decreases n - i,
    {
        let req = &requests[i];
        match convert(snapshot, req.from_currency.as_str(), req.target_currency.as_str()) {
            Ok(c) => {
                outcomes.push(c);
            },
            Err(e) => {
                assert(!convert_defined(
                    snapshot_rates(*snapshot),
                    requests@[i as int].from_currency@,
                    requests@[i as int].target_currency@,
                ));
                return Err(e);
            },
        }
        i = i + 1;
    }
    Ok(outcomes)
}

/// The freshness decision for a request at unix instant `now_ts` against
/// the record cached under today's key, if any. A record whose fetch
/// instant cannot be expressed in the publication zone's supported range is
/// treated as stale.
pub open spec fn cache_decision(now_ts: i64, record: Option<ExchangeRateRecord>) -> FreshnessDecision {
    match record {
        None => FreshnessDecision::Miss,
        Some(rec) => if 0 <= rec.fetch_timestamp <= MAX_SUPPORTED_TIMESTAMP {
            freshness_spec(
                paris_civil_of(now_ts),
                Some(paris_civil_of(rec.fetch_timestamp)),
            )
        } else {
            FreshnessDecision::Miss
        },
    }
}

/// The record-carrying value behind an optional borrow.
pub open spec fn opt_record(record: Option<&ExchangeRateRecord>) -> Option<ExchangeRateRecord> {
    match record {
        Some(rec) => Some(*rec),
        None => None,
    }
}

/// Apply the freshness policy at unix instant `now_ts` to the record cached
/// under today's key, if any.
pub fn evaluate_cache(now_ts: i64, record: Option<&ExchangeRateRecord>) -> (r: FreshnessDecision)
    requires
        0 <= now_ts <= MAX_SUPPORTED_TIMESTAMP,
    ensures
        r == cache_decision(now_ts, opt_record(record)),
{
    match record {
        None => FreshnessDecision::Miss,
        Some(rec) => {
            if 0 <= rec.fetch_timestamp && rec.fetch_timestamp <= MAX_SUPPORTED_TIMESTAMP {
                let now_local = paris_civil(now_ts);
                let fetch_local = paris_civil(rec.fetch_timestamp);
                decide_freshness(now_local, Some(fetch_local))
            } else {
                FreshnessDecision::Miss
            }
        },
    }
}

/// Today's cache key: the UTC calendar date of `now_ts`.
pub fn compute_cache_key(now_ts: i64) -> (r: String)
    requires
        0 <= now_ts <= MAX_SUPPORTED_TIMESTAMP,
    ensures
        r@ == date_key_chars(utc_civil_of(now_ts)),
{
    let civil = utc_civil(now_ts);
    date_key(civil)
}

/// The record a store holds under the cache key of `now_ts`, if any.
pub open spec fn cached_record(
    m: Map<Seq<char>, ExchangeRateRecord>,
    now_ts: i64,
) -> Option<ExchangeRateRecord> {
    let key = date_key_chars(utc_civil_of(now_ts));
    if m.contains_key(key) {
        Some(m[key])
    } else {
        None
    }
}

/// The first half of a fetch at `now_ts`: consult the store under today's
/// key and apply the freshness policy. `Some` carries a copy of the
/// reusable cached snapshot; on `None` the caller must obtain a payload
/// from the remote source and hand it to `store_fetched`.
pub fn plan_fetch(store: &InMemoryStorageAdapter, now_ts: i64) -> (r: Option<
    ExchangeRatesSnapshot,
>)
    requires
        store.wf(),
        0 <= now_ts <= MAX_SUPPORTED_TIMESTAMP,
    ensures
        r is Some <==> cache_decision(now_ts, cached_record(store@, now_ts))
            == FreshnessDecision::Hit,
        r matches Some(s) ==> cached_record(store@, now_ts) matches Some(rec) && s.rates@
            == rec.snapshot.rates@ && s.timestamp == rec.snapshot.timestamp,
{
    let key = compute_cache_key(now_ts);
    let record = store.get_latest_exchange_rates(key.as_str());
    let decision = evaluate_cache(now_ts, record);
    match record {
        Some(rec) => {
            if decision == FreshnessDecision::Hit {
                Some(rec.snapshot.duplicate())
            } else {
                None
            }
        },
        None => None,
    }
}

/// The second half of a fetch at `now_ts`, after the remote call: parse the
/// payload, cache the snapshot under today's key — overwriting whatever
/// record was there — and return the snapshot. On a malformed payload the
/// store is left untouched and the parse error is surfaced.
pub fn store_fetched(
    store: &mut InMemoryStorageAdapter,
    response: &EcbDataResponse,
    now_ts: i64,
) -> (r: Result<ExchangeRatesSnapshot, ExchangeError>)
    requires
        old(store).wf(),
        0 <= now_ts <= MAX_SUPPORTED_TIMESTAMP,
    ensures
        final(store).wf(),
        r is Ok <==> parse_ok(*response),
        r is Err ==> *final(store) == *old(store) && r == Err::<
            ExchangeRatesSnapshot,
            ExchangeError,
        >(parse_error(*response)),
        r matches Ok(s) ==> ({
            let key = date_key_chars(utc_civil_of(now_ts));
            &&& snapshot_rates(s) == parse_model(*response)
            &&& s.timestamp == now_ts
            &&& snapshot_wf(s)
            &&& final(store)@ == old(store)@.insert(key, final(store)@[key])
            &&& final(store)@.contains_key(key)
            &&& final(store)@[key].snapshot.rates@ == s.rates@
            &&& final(store)@[key].snapshot.timestamp == now_ts
            &&& final(store)@[key].fetch_timestamp == now_ts
            &&& final(store)@[key].source_identifier@ == key
            &&& final(store)@[key].metadata@ == Seq::<(String, String)>::empty()
        }),
{
    match parse_exchange_rates(response, now_ts) {
        Err(e) => Err(e),
        Ok(snapshot) => {
            let key = compute_cache_key(now_ts);
            let record = ExchangeRateRecord::new(snapshot.duplicate(), now_ts, key);
            store.store_exchange_rates(record);
            Ok(snapshot)
        },
    }
}

} // verus!
