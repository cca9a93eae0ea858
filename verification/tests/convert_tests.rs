use bce_exchange::errors::ExchangeError;
use bce_exchange::rates::ExchangeRate;
use bce_exchange::rates::ExchangeRatesSnapshot;
use bce_exchange::service::ConversionRequest;
use bce_exchange::service::RateComputation;
use bce_exchange::service::convert;
use bce_exchange::service::convert_batch;

fn snapshot() -> ExchangeRatesSnapshot {
    ExchangeRatesSnapshot {
        rates: vec![
            ExchangeRate {
                currency: "USD".to_string(),
                rate_bits: 1.08f64.to_bits(),
            },
            ExchangeRate {
                currency: "JPY".to_string(),
                rate_bits: 160.0f64.to_bits(),
            },
        ],
        timestamp: 1754836200,
    }
}

fn as_f64(c: RateComputation) -> f64 {
    match c {
        RateComputation::Direct { rate_bits } => f64::from_bits(rate_bits),
        RateComputation::Quotient {
            numerator_bits,
            denominator_bits,
        } => f64::from_bits(numerator_bits) / f64::from_bits(denominator_bits),
    }
}

#[test]
fn usd_to_jpy_is_the_quotient_of_the_stored_rates() {
    let s = snapshot();
    let c = convert(&s, "USD", "JPY").unwrap();
    assert_eq!(
        c,
        RateComputation::Quotient {
            numerator_bits: 1.08f64.to_bits(),
            denominator_bits: 160.0f64.to_bits(),
        }
    );
    let rate = as_f64(c);
    assert_eq!(rate, 1.08 / 160.0);
    assert!((rate - 0.00675).abs() < 1e-9);
}

#[test]
fn from_base_is_the_inverse_of_the_stored_rate() {
    let s = snapshot();
    let c = convert(&s, "EUR", "JPY").unwrap();
    assert_eq!(
        c,
        RateComputation::Quotient {
            numerator_bits: 1.0f64.to_bits(),
            denominator_bits: 160.0f64.to_bits(),
        }
    );
    assert_eq!(as_f64(c), 1.0 / 160.0);
}

#[test]
fn to_base_is_the_stored_rate_itself() {
    let s = snapshot();
    let c = convert(&s, "USD", "EUR").unwrap();
    assert_eq!(
        c,
        RateComputation::Direct {
            rate_bits: 1.08f64.to_bits(),
        }
    );
    assert_eq!(as_f64(c), 1.08);
}

#[test]
fn base_to_base_is_the_unit_rate() {
    let s = snapshot();
    let c = convert(&s, "EUR", "EUR").unwrap();
    assert_eq!(as_f64(c), 1.0);
}

#[test]
fn missing_currency_reports_its_code() {
    let s = snapshot();
    let e = convert(&s, "XXX", "USD").unwrap_err();
    match e {
        ExchangeError::CurrencyNotFound(code) => assert_eq!(code, "XXX"),
        _ => panic!("expected CurrencyNotFound"),
    }
    let e = convert(&s, "USD", "YYY").unwrap_err();
    match e {
        ExchangeError::CurrencyNotFound(code) => assert_eq!(code, "YYY"),
        _ => panic!("expected CurrencyNotFound"),
    }
    let e = convert(&s, "XXX", "EUR").unwrap_err();
    match e {
        ExchangeError::CurrencyNotFound(code) => assert_eq!(code, "XXX"),
        _ => panic!("expected CurrencyNotFound"),
    }
}

fn request(from: &str, amount: f64, to: &str) -> ConversionRequest {
    ConversionRequest {
        from_currency: from.to_string(),
        amount_bits: amount.to_bits(),
        target_currency: to.to_string(),
    }
}

#[test]
fn batch_resolves_each_request() {
    let s = snapshot();
    let requests = vec![request("USD", 100.0, "JPY"), request("EUR", 2.0, "USD")];
    let outcomes = convert_batch(&s, &requests).unwrap();
    assert_eq!(outcomes.len(), 2);
    assert_eq!(as_f64(outcomes[0]), 1.08 / 160.0);
    assert_eq!(as_f64(outcomes[1]), 1.0 / 1.08);
    // The caller multiplies the carried amount by the resolved rate.
    let converted = f64::from_bits(requests[0].amount_bits) * as_f64(outcomes[0]);
    assert!((converted - 0.675).abs() < 1e-9);
}

#[test]
fn batch_fails_with_the_first_unresolvable_request() {
    let s = snapshot();
    let requests = vec![
        request("USD", 1.0, "JPY"),
        request("AAA", 1.0, "BBB"),
        request("CCC", 1.0, "JPY"),
    ];
    let e = convert_batch(&s, &requests).unwrap_err();
    match e {
        ExchangeError::CurrencyNotFound(code) => assert_eq!(code, "AAA"),
        _ => panic!("expected CurrencyNotFound"),
    }
}

#[test]
fn batch_of_nothing_succeeds() {
    let s = snapshot();
    let outcomes = convert_batch(&s, &vec![]).unwrap();
    assert!(outcomes.is_empty());
}
