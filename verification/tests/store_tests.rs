use bce_exchange::rates::ExchangeRate;
use bce_exchange::rates::ExchangeRatesSnapshot;
use bce_exchange::store::ExchangeRateRecord;
use bce_exchange::store::InMemoryStorageAdapter;

fn snapshot(code: &str, rate: f64, timestamp: i64) -> ExchangeRatesSnapshot {
    ExchangeRatesSnapshot {
        rates: vec![ExchangeRate {
            currency: code.to_string(),
            rate_bits: rate.to_bits(),
        }],
        timestamp,
    }
}

#[test]
fn a_new_record_has_empty_metadata() {
    let record = ExchangeRateRecord::new(snapshot("USD", 1.08, 5), 7, "2025-08-10".to_string());
    assert_eq!(record.fetch_timestamp, 7);
    assert_eq!(record.source_identifier, "2025-08-10");
    assert!(record.metadata.is_empty());
}

#[test]
fn stored_records_are_found_under_their_key() {
    let mut store = InMemoryStorageAdapter::new();
    assert!(store.get_latest_exchange_rates("2025-08-10").is_none());
    assert!(!store.exchange_rates_exist("2025-08-10"));

    let record = ExchangeRateRecord::new(snapshot("USD", 1.08, 5), 5, "2025-08-10".to_string());
    store.store_exchange_rates(record);

    assert!(store.exchange_rates_exist("2025-08-10"));
    let found = store.get_latest_exchange_rates("2025-08-10").unwrap();
    assert_eq!(found.fetch_timestamp, 5);
    assert_eq!(found.snapshot.rates[0].currency, "USD");
    assert!(!store.exchange_rates_exist("2025-08-11"));
}

#[test]
fn a_second_write_under_the_same_key_overwrites() {
    let mut store = InMemoryStorageAdapter::new();
    store.store_exchange_rates(ExchangeRateRecord::new(
        snapshot("USD", 1.08, 5),
        5,
        "2025-08-10".to_string(),
    ));
    store.store_exchange_rates(ExchangeRateRecord::new(
        snapshot("USD", 1.09, 9),
        9,
        "2025-08-10".to_string(),
    ));
    let (cached, fetched_at) = store.get_exchange_rates("2025-08-10").unwrap();
    assert_eq!(fetched_at, 9);
    assert_eq!(cached.rates[0].rate_bits, 1.09f64.to_bits());
}

#[test]
fn distinct_keys_coexist() {
    let mut store = InMemoryStorageAdapter::new();
    store.store_exchange_rates(ExchangeRateRecord::new(
        snapshot("USD", 1.08, 5),
        5,
        "2025-08-10".to_string(),
    ));
    store.store_exchange_rates(ExchangeRateRecord::new(
        snapshot("JPY", 160.0, 9),
        9,
        "2025-08-11".to_string(),
    ));
    assert_eq!(
        store
            .get_exchange_rates("2025-08-10")
            .unwrap()
            .0
            .rates[0]
            .currency,
        "USD"
    );
    assert_eq!(
        store
            .get_exchange_rates("2025-08-11")
            .unwrap()
            .0
            .rates[0]
            .currency,
        "JPY"
    );
}

#[test]
fn the_in_memory_store_is_always_healthy() {
    let store = InMemoryStorageAdapter::new();
    assert!(store.health_check().is_ok());
}

#[test]
fn snapshots_duplicate_deeply() {
    let s = snapshot("USD", 1.08, 5);
    let d = s.duplicate();
    assert_eq!(d.timestamp, 5);
    assert_eq!(d.rates.len(), 1);
    assert_eq!(d.rates[0].currency, "USD");
    assert_eq!(d.rates[0].rate_bits, 1.08f64.to_bits());
}
