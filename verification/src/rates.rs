use vstd::prelude::*;
use vstd::assert_seqs_equal;

use crate::errors::ExchangeError;

verus! {

/// One exchange rate. `rate_bits` is the IEEE-754 binary64 bit pattern of
/// the number of units of `currency` per one unit of the base currency.
#[derive(Debug)]
pub struct ExchangeRate {
    pub currency: String,
    pub rate_bits: u64,
}

/// A normalized, timestamped list of currency-to-base rates.
/// `timestamp` is the unix instant (in seconds) at which it was captured.
/// The base currency is implicit and never listed.
#[derive(Debug)]
pub struct ExchangeRatesSnapshot {
    pub rates: Vec<ExchangeRate>,
    pub timestamp: i64,
}

/// The spec-level value of one rate: the code's characters and the bit pattern.
pub open spec fn rate_model(r: ExchangeRate) -> (Seq<char>, u64) {
    (r.currency@, r.rate_bits)
}

/// The spec-level value of a rate list.
pub open spec fn rates_model(rs: Seq<ExchangeRate>) -> Seq<(Seq<char>, u64)> {
    rs.map_values(|r: ExchangeRate| rate_model(r))
}

/// The spec-level value of a snapshot's rate list.
pub open spec fn snapshot_rates(s: ExchangeRatesSnapshot) -> Seq<(Seq<char>, u64)> {
    rates_model(s.rates@)
}

/// A binary64 bit pattern whose sign bit is clear.
pub open spec fn rate_bits_nonneg(b: u64) -> bool {
    b < 0x8000_0000_0000_0000u64
}

/// No two entries carry the same currency code.
pub open spec fn distinct_codes(rs: Seq<(Seq<char>, u64)>) -> bool {
    forall|i: int, j: int| 0 <= i < j < rs.len() ==> rs[i].0 != rs[j].0
}

/// The snapshot invariant: distinct currency codes, non-negative rates.
pub open spec fn snapshot_wf(s: ExchangeRatesSnapshot) -> bool {
    &&& distinct_codes(snapshot_rates(s))
    &&& forall|i: int|
        0 <= i < snapshot_rates(s).len() ==> rate_bits_nonneg(
            #[trigger] snapshot_rates(s)[i].1,
        )
}

/// The first rate stored under `code`, if any.
pub open spec fn lookup_rate(rs: Seq<(Seq<char>, u64)>, code: Seq<char>) -> Option<u64>
    decreases rs.len(),
{
    if rs.len() == 0 {
        None
    } else if rs[0].0 == code {
        Some(rs[0].1)
    } else {
        lookup_rate(rs.skip(1), code)
    }
}

proof fn lemma_lookup_found(rs: Seq<(Seq<char>, u64)>, code: Seq<char>, i: int)
    requires
        0 <= i < rs.len(),
        rs[i].0 == code,
        forall|j: int| 0 <= j < i ==> rs[j].0 != code,
    ensures
        lookup_rate(rs, code) == Some(rs[i].1),
    decreases i,
{
    if i == 0 {
    } else {
        lemma_lookup_found(rs.skip(1), code, i - 1);
    }
}

proof fn lemma_lookup_missing(rs: Seq<(Seq<char>, u64)>, code: Seq<char>)
    requires
        forall|j: int| 0 <= j < rs.len() ==> rs[j].0 != code,
    ensures
        lookup_rate(rs, code) is None,
    decreases rs.len(),
{
    if rs.len() > 0 {
        lemma_lookup_missing(rs.skip(1), code);
    }
}

/// Scan a snapshot for the first rate stored under `currency`.
pub fn find_rate(snapshot: &ExchangeRatesSnapshot, currency: &str) -> (r: Option<u64>)
    ensures
        r == lookup_rate(snapshot_rates(*snapshot), currency@),
{
    let code: String = currency.to_owned();
    let ghost model = snapshot_rates(*snapshot);
    let n = snapshot.rates.len();
    let mut i: usize = 0;
    while i < n
        invariant
            n == snapshot.rates.len(),
            0 <= i <= n,
            model == snapshot_rates(*snapshot),
            code@ == currency@,
            forall|j: int| 0 <= j < i ==> model[j].0 != currency@,
        decreases n - i,
    {
        if snapshot.rates[i].currency == code {
            proof {
                lemma_lookup_found(model, currency@, i as int);
            }
            return Some(snapshot.rates[i].rate_bits);
        }
        i = i + 1;
    }
    proof {
        lemma_lookup_missing(model, currency@);
    }
    None
}

/// Look up how many units of `currency` one unit of the base currency buys;
/// the error names the missing code.
pub fn get_rate_to_eur(snapshot: &ExchangeRatesSnapshot, currency: &str) -> (r: Result<
    u64,
    ExchangeError,
>)
    ensures
        match lookup_rate(snapshot_rates(*snapshot), currency@) {
            Some(bits) => r == Ok::<u64, ExchangeError>(bits),
            None => r matches Err(ExchangeError::CurrencyNotFound(c)) && c@ == currency@,
        },
{
    match find_rate(snapshot, currency) {
        Some(bits) => Ok(bits),
        None => Err(ExchangeError::CurrencyNotFound(currency.to_owned())),
    }
}

/// Same lookup as `get_rate_to_eur`, read in the opposite direction by its
/// callers; the stored rate serves both legs of a triangulation.
pub fn get_rate_from_eur(snapshot: &ExchangeRatesSnapshot, currency: &str) -> (r: Result<
    u64,
    ExchangeError,
>)
    ensures
        match lookup_rate(snapshot_rates(*snapshot), currency@) {
            Some(bits) => r == Ok::<u64, ExchangeError>(bits),
            None => r matches Err(ExchangeError::CurrencyNotFound(c)) && c@ == currency@,
        },
{
    get_rate_to_eur(snapshot, currency)
}

impl ExchangeRatesSnapshot {
    /// A deep copy; the element type has no verified `Clone`.
    pub fn duplicate(&self) -> (r: ExchangeRatesSnapshot)
        ensures
            r.rates@ == self.rates@,
            r.timestamp == self.timestamp,
    {
        let mut rates: Vec<ExchangeRate> = Vec::new();
        let n = self.rates.len();
        let mut i: usize = 0;
        while i < n
            invariant
                n == self.rates.len(),
                0 <= i <= n,
                rates@.len() == i,
                forall|j: int| 0 <= j < i ==> rates@[j] == self.rates@[j],
            decreases n - i,
        {
            let entry = ExchangeRate {
                currency: self.rates[i].currency.clone(),
                rate_bits: self.rates[i].rate_bits,
            };
            rates.push(entry);
            i = i + 1;
        }
        proof {
            assert_seqs_equal!(rates@ == self.rates@);
        }
        ExchangeRatesSnapshot { rates, timestamp: self.timestamp }
    }
}

} // verus!
