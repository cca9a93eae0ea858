use vstd::prelude::*;
use vstd::assert_seqs_equal;

use crate::errors::ExchangeError;
use crate::errors::MalformedCause;
use crate::rates::ExchangeRate;
use crate::rates::ExchangeRatesSnapshot;
use crate::rates::distinct_codes;
use crate::rates::rate_bits_nonneg;
use crate::rates::rate_model;
use crate::rates::rates_model;
use crate::rates::snapshot_rates;
use crate::rates::snapshot_wf;
use crate::series_key::all_digits;
use crate::series_key::digits_value;
use crate::series_key::parse_index;
use crate::series_key::split_bytes;
use crate::series_key::split_key;

verus! {

/// One observation list of a series: its period label and the observed
/// values, each either absent (null) or the binary64 bit pattern of a number.
pub struct ObservationList {
    pub period: String,
    pub values: Vec<Option<u64>>,
}

/// One series of a data set: its key, kept as raw bytes (colon-delimited
/// dimension-value indices), and its observation lists in payload order.
pub struct Series {
    pub key: Vec<u8>,
    pub observations: Vec<ObservationList>,
}

/// One data set: a list of series in payload order.
pub struct DataSet {
    pub series: Vec<Series>,
}

/// One value of a dimension, carrying its identifier.
pub struct DimensionValue {
    pub id: String,
}

/// One dimension of the structure description: its identifier and its
/// ordered value list.
pub struct Dimension {
    pub id: String,
    pub values: Vec<DimensionValue>,
}

/// The structure description: the dimensions in series-key order.
pub struct Structure {
    pub dimensions: Vec<Dimension>,
}

/// A raw statistical data-cube payload, reduced to plain values.
pub struct EcbDataResponse {
    pub data_sets: Vec<DataSet>,
    pub structure: Structure,
}

/// The position of the first dimension whose identifier is the currency
/// dimension tag.
pub open spec fn currency_dimension_index(dims: Seq<Dimension>) -> Option<int>
    decreases dims.len(),
{
    if dims.len() == 0 {
        None
    } else if dims[0].id@ == "CURRENCY"@ {
        Some(0int)
    } else {
        match currency_dimension_index(dims.skip(1)) {
            Some(i) => Some(i + 1),
            None => None,
        }
    }
}

proof fn lemma_currency_dim_found(dims: Seq<Dimension>, i: int)
    requires
        0 <= i < dims.len(),
        dims[i].id@ == "CURRENCY"@,
        forall|j: int| 0 <= j < i ==> dims[j].id@ != "CURRENCY"@,
    ensures
        currency_dimension_index(dims) == Some(i),
    decreases i,
{
    if i > 0 {
        lemma_currency_dim_found(dims.skip(1), i - 1);
    }
}

proof fn lemma_currency_dim_missing(dims: Seq<Dimension>)
    requires
        forall|j: int| 0 <= j < dims.len() ==> dims[j].id@ != "CURRENCY"@,
    ensures
        currency_dimension_index(dims) is None,
    decreases dims.len(),
{
    if dims.len() > 0 {
        lemma_currency_dim_missing(dims.skip(1));
    }
}

/// The first element of the first observation list, if both exist.
pub open spec fn first_observation(s: Series) -> Option<u64> {
    if s.observations@.len() == 0 {
        None
    } else if s.observations@[0].values@.len() == 0 {
        None
    } else {
        s.observations@[0].values@[0]
    }
}

/// What one series contributes: the currency code selected by the key
/// segment at the currency dimension's `position`, paired with the first
/// observed value. Nothing when the key has too few segments, the segment is
/// not a decimal index into `values`, the observation is absent or null, or
/// the observed bit pattern has its sign bit set.
pub open spec fn series_rate(s: Series, position: int, values: Seq<DimensionValue>) -> Option<
    (Seq<char>, u64),
> {
    let segs = split_bytes(s.key@);
    if !(0 <= position < segs.len()) {
        None
    } else if !(all_digits(segs[position]) && digits_value(segs[position]) < values.len()) {
        None
    } else {
        match first_observation(s) {
            None => None,
            Some(bits) => if rate_bits_nonneg(bits) {
                Some((values[digits_value(segs[position]) as int].id@, bits))
            } else {
                None
            },
        }
    }
}

/// Some entry of `rs` carries `code`.
pub open spec fn has_code(rs: Seq<(Seq<char>, u64)>, code: Seq<char>) -> bool {
    exists|i: int| 0 <= i < rs.len() && rs[i].0 == code
}

/// The rate list collected from `series_list` in order, each series either
/// contributing one entry or being skipped; a series whose currency code was
/// already emitted is skipped as well.
pub open spec fn parsed_rates(
    series_list: Seq<Series>,
    position: int,
    values: Seq<DimensionValue>,
) -> Seq<(Seq<char>, u64)>
    decreases series_list.len(),
{
    if series_list.len() == 0 {
        Seq::empty()
    } else {
        let prefix = parsed_rates(series_list.drop_last(), position, values);
        match series_rate(series_list.last(), position, values) {
            Some(cr) => if has_code(prefix, cr.0) {
                prefix
            } else {
                prefix.push(cr)
            },
            None => prefix,
        }
    }
}

/// The parser fails only on structural absence: no data set at all, or no
/// currency dimension in the structure description.
pub open spec fn parse_ok(response: EcbDataResponse) -> bool {
    &&& response.data_sets@.len() > 0
    &&& currency_dimension_index(response.structure.dimensions@) is Some
}

/// The error a structurally unusable payload produces: the absence of any
/// data set is reported ahead of a missing currency dimension.
pub open spec fn parse_error(response: EcbDataResponse) -> ExchangeError {
    if response.data_sets@.len() == 0 {
        ExchangeError::MalformedResponse(MalformedCause::NoDataSets)
    } else {
        ExchangeError::MalformedResponse(MalformedCause::NoCurrencyDimension)
    }
}

/// The rate list a successful parse yields.
pub open spec fn parse_model(response: EcbDataResponse) -> Seq<(Seq<char>, u64)> {
    match currency_dimension_index(response.structure.dimensions@) {
        Some(p) => parsed_rates(
            response.data_sets@[0].series@,
            p,
            response.structure.dimensions@[p].values@,
        ),
        None => Seq::empty(),
    }
}

/// For any payload, the collected rate list never carries two entries with
/// the same currency code, and every entry's bit pattern has a clear sign
/// bit: a series whose observation is null, absent or negative is skipped,
/// and a repeated currency keeps its first entry.
pub proof fn lemma_parsed_rates_wf(
    series_list: Seq<Series>,
    position: int,
    values: Seq<DimensionValue>,
)
    ensures
        distinct_codes(parsed_rates(series_list, position, values)),
        forall|i: int|
            0 <= i < parsed_rates(series_list, position, values).len() ==> rate_bits_nonneg(
                #[trigger] parsed_rates(series_list, position, values)[i].1,
            ),
    decreases series_list.len(),
{
    if series_list.len() > 0 {
        lemma_parsed_rates_wf(series_list.drop_last(), position, values);
        let prefix = parsed_rates(series_list.drop_last(), position, values);
        match series_rate(series_list.last(), position, values) {
            Some(cr) => {
                if !has_code(prefix, cr.0) {
                    let whole = prefix.push(cr);
                    assert forall|i: int, j: int| 0 <= i < j < whole.len() implies whole[i].0
                        != whole[j].0 by {
                        if j < prefix.len() {
                        } else {
                            assert(whole[i].0 == prefix[i].0);
                        }
                    }
                }
            },
            None => {},
        }
    }
}

/// A series that contributes nothing — its key has too few segments, the
/// segment at the currency position is not a decimal index into the value
/// list, or its observation is absent, null or negative — can be removed
/// without affecting what the other series yield.
pub proof fn lemma_skipped_series_irrelevant(
    series_list: Seq<Series>,
    i: int,
    position: int,
    values: Seq<DimensionValue>,
)
    requires
        0 <= i < series_list.len(),
        series_rate(series_list[i], position, values) is None,
    ensures
        parsed_rates(series_list.remove(i), position, values) == parsed_rates(
            series_list,
            position,
            values,
        ),
    decreases series_list.len(),
{
    if i == series_list.len() - 1 {
        assert(series_list.remove(i) =~= series_list.drop_last());
    } else {
        let shorter = series_list.drop_last();
        lemma_skipped_series_irrelevant(shorter, i, position, values);
        assert(series_list.remove(i).drop_last() =~= shorter.remove(i));
        assert(series_list.remove(i).last() == series_list.last());
        assert(series_list.remove(i).len() > 0);
    }
}

/// Does some collected rate already carry `code`?
fn contains_currency(rates: &Vec<ExchangeRate>, code: &String) -> (b: bool)
    ensures
        b == has_code(rates_model(rates@), code@),
{
    let n = rates.len();
    let mut i: usize = 0;
    while i < n
        invariant
            n == rates@.len(),
            0 <= i <= n,
            forall|j: int| 0 <= j < i ==> rates_model(rates@)[j].0 != code@,
        decreases n - i,
    {
        if rates[i].currency == *code {
            assert(rates_model(rates@)[i as int].0 == code@);
            return true;
        }
        i = i + 1;
    }
    false
}

/// Turn a raw payload into a normalized snapshot captured at `now_ts`:
/// select the first data set, locate the currency dimension, and collect one
/// rate per usable series, skipping malformed ones silently.
pub fn parse_exchange_rates(response: &EcbDataResponse, now_ts: i64) -> (r: Result<
    ExchangeRatesSnapshot,
    ExchangeError,
>)
    ensures
        r is Ok <==> parse_ok(*response),
        !parse_ok(*response) ==> r == Err::<ExchangeRatesSnapshot, ExchangeError>(
            parse_error(*response),
        ),
        r matches Ok(s) ==> snapshot_rates(s) == parse_model(*response) && s.timestamp == now_ts
            && snapshot_wf(s),
{
    if response.data_sets.len() == 0 {
        return Err(ExchangeError::MalformedResponse(MalformedCause::NoDataSets));
    }

    let tag: String = "CURRENCY".to_owned();
    let dims = &response.structure.dimensions;
    let n_dims = dims.len();
    let mut position: usize = 0;
    let mut found = false;
    while position < n_dims && !found
        invariant
            n_dims == dims@.len(),
            0 <= position <= n_dims,
            tag@ == "CURRENCY"@,
            found ==> position < n_dims && dims@[position as int].id@ == "CURRENCY"@,
            forall|j: int| 0 <= j < position ==> dims@[j].id@ != "CURRENCY"@,
        decreases n_dims - position + (if found { 0int } else { 1int }),
    {
        if dims[position].id == tag {
            found = true;
        } else {
            position = position + 1;
        }
    }
    if !found {
        proof {
            lemma_currency_dim_missing(dims@);
        }
        return Err(ExchangeError::MalformedResponse(MalformedCause::NoCurrencyDimension));
    }
    proof {
        lemma_currency_dim_found(dims@, position as int);
    }

    let dim_values = &dims[position].values;
    let data_set = &response.data_sets[0];
    let n_series = data_set.series.len();
    let mut rates: Vec<ExchangeRate> = Vec::new();
    let mut k: usize = 0;
    while k < n_series
        invariant
            n_series == data_set.series@.len(),
            data_set == &response.data_sets@[0],
            dim_values == &dims@[position as int].values,
            dims == &response.structure.dimensions,
            0 <= k <= n_series,
            position < dims@.len(),
            rates_model(rates@) == parsed_rates(
                data_set.series@.take(k as int),
                position as int,
                dim_values@,
            ),
        decreases n_series - k,
    {
        let ghost pre = rates_model(rates@);
        let ghost sk = data_set.series@[k as int];
        let s = &data_set.series[k];
        let segs = split_key(&s.key);
        assert(segs@.map_values(|v: Vec<u8>| v@) == split_bytes(sk.key@));
        assert(segs@.len() == split_bytes(sk.key@).len());
        if position < segs.len() {
            assert(segs@[position as int]@ == split_bytes(sk.key@)[position as int]);
            match parse_index(&segs[position], dim_values.len()) {
                Some(idx) => {
                    if s.observations.len() > 0 && s.observations[0].values.len() > 0 {
                        match s.observations[0].values[0] {
                            Some(bits) => {
                                if bits < 0x8000_0000_0000_0000u64 {
                                    assert(series_rate(sk, position as int, dim_values@) == Some(
                                        (dim_values@[idx as int].id@, bits),
                                    ));
                                    let code = dim_values[idx].id.clone();
                                    if !contains_currency(&rates, &code) {
                                        let entry = ExchangeRate {
                                            currency: code,
                                            rate_bits: bits,
                                        };
                                        rates.push(entry);
                                        proof {
                                            assert_seqs_equal!(
                                                rates_model(rates@) ==
                                                pre.push((dim_values@[idx as int].id@, bits))
                                            );
                                        }
                                    }
                                } else {
                                    assert(series_rate(sk, position as int, dim_values@) is None);
                                }
                            },
                            None => {
                                assert(series_rate(sk, position as int, dim_values@) is None);
                            },
                        }
                    } else {
                        assert(series_rate(sk, position as int, dim_values@) is None);
                    }
                },
                None => {
                    assert(series_rate(sk, position as int, dim_values@) is None);
                },
            }
        } else {
            assert(series_rate(sk, position as int, dim_values@) is None);
        }
        k = k + 1;
        proof {
            assert(data_set.series@.take(k as int).drop_last() == data_set.series@.take(
                k as int - 1,
            ));
            assert(data_set.series@.take(k as int).last() == sk);
        }
    }
    assert(data_set.series@.take(n_series as int) == data_set.series@);
    proof {
        lemma_parsed_rates_wf(data_set.series@, position as int, dim_values@);
    }
    Ok(ExchangeRatesSnapshot { rates, timestamp: now_ts })
}

} // verus!
