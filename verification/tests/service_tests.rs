use bce_exchange::parser::DataSet;
use bce_exchange::parser::Dimension;
use bce_exchange::parser::DimensionValue;
use bce_exchange::parser::EcbDataResponse;
use bce_exchange::parser::ObservationList;
use bce_exchange::parser::Series;
use bce_exchange::parser::Structure;
use bce_exchange::policy::FreshnessDecision;
use bce_exchange::service::compute_cache_key;
use bce_exchange::service::evaluate_cache;
use bce_exchange::service::plan_fetch;
use bce_exchange::service::store_fetched;
use bce_exchange::store::ExchangeRateRecord;
use bce_exchange::store::InMemoryStorageAdapter;

// 2025-08-10, Central European Summer Time (UTC+2).
const AUG_16_30: i64 = 1754836200;
const AUG_16_45: i64 = 1754837100;
const AUG_16_59: i64 = 1754837940;
const AUG_17_01: i64 = 1754838060;
const AUG_17_30: i64 = 1754839800;

// 2025-01-15, Central European Time (UTC+1).
const JAN_16_30: i64 = 1736955000;
const JAN_16_45: i64 = 1736955900;
const JAN_17_30: i64 = 1736958600;

fn payload(rate: f64) -> EcbDataResponse {
    EcbDataResponse {
        data_sets: vec![DataSet {
            series: vec![Series {
                key: "0:0".as_bytes().to_vec(),
                observations: vec![ObservationList {
                    period: "2025-08-08".to_string(),
                    values: vec![Some(rate.to_bits())],
                }],
            }],
        }],
        structure: Structure {
            dimensions: vec![
                Dimension {
                    id: "FREQ".to_string(),
                    values: vec![DimensionValue {
                        id: "D".to_string(),
                    }],
                },
                Dimension {
                    id: "CURRENCY".to_string(),
                    values: vec![DimensionValue {
                        id: "USD".to_string(),
                    }],
                },
            ],
        },
    }
}

#[test]
fn cache_key_is_the_utc_calendar_date() {
    assert_eq!(compute_cache_key(AUG_16_30), "2025-08-10");
    assert_eq!(compute_cache_key(JAN_16_30), "2025-01-15");
    assert_eq!(compute_cache_key(0), "1970-01-01");
}

#[test]
fn empty_cache_needs_one_fetch_and_one_store() {
    let mut store = InMemoryStorageAdapter::new();
    // The plan asks for a remote fetch...
    assert!(plan_fetch(&store, AUG_16_30).is_none());
    // ...whose payload is parsed and stored exactly once.
    let snapshot = store_fetched(&mut store, &payload(1.08), AUG_16_30).unwrap();
    assert_eq!(snapshot.rates.len(), 1);
    assert_eq!(snapshot.timestamp, AUG_16_30);
    let (cached, fetched_at) = store.get_exchange_rates("2025-08-10").unwrap();
    assert_eq!(fetched_at, AUG_16_30);
    assert_eq!(cached.rates[0].currency, "USD");
    // A second plan for the same instant reuses the cache: no further fetch.
    assert!(plan_fetch(&store, AUG_16_30).is_some());
}

#[test]
fn same_day_pre_publication_request_reuses_the_cache() {
    let mut store = InMemoryStorageAdapter::new();
    store_fetched(&mut store, &payload(1.08), AUG_16_30).unwrap();
    let reused = plan_fetch(&store, AUG_16_45).unwrap();
    assert_eq!(reused.rates[0].rate_bits, 1.08f64.to_bits());
    assert_eq!(reused.timestamp, AUG_16_30);
}

#[test]
fn post_publication_request_refetches_and_overwrites() {
    let mut store = InMemoryStorageAdapter::new();
    store_fetched(&mut store, &payload(1.08), AUG_16_30).unwrap();
    // 17:30 local, capture from 16:30 local: stale, one refetch owed.
    assert!(plan_fetch(&store, AUG_17_30).is_none());
    store_fetched(&mut store, &payload(1.09), AUG_17_30).unwrap();
    let (cached, fetched_at) = store.get_exchange_rates("2025-08-10").unwrap();
    assert_eq!(fetched_at, AUG_17_30);
    assert_eq!(cached.rates[0].rate_bits, 1.09f64.to_bits());
    // The post-publication capture now serves later requests.
    assert!(plan_fetch(&store, AUG_17_30).is_some());
}

#[test]
fn capture_at_sixteen_fifty_nine_is_stale_at_seventeen_oh_one() {
    let mut store = InMemoryStorageAdapter::new();
    store_fetched(&mut store, &payload(1.08), AUG_16_59).unwrap();
    assert!(plan_fetch(&store, AUG_17_01).is_none());
}

#[test]
fn the_policy_reads_publication_zone_hours_not_utc() {
    // 16:30 local winter time is 15:30 UTC; 17:30 local is only 16:30 UTC.
    // Were UTC hours used, both requests would lie before 17:00 and hit.
    let mut store = InMemoryStorageAdapter::new();
    store_fetched(&mut store, &payload(1.08), JAN_16_30).unwrap();
    assert!(plan_fetch(&store, JAN_16_45).is_some());
    assert!(plan_fetch(&store, JAN_17_30).is_none());
}

#[test]
fn evaluate_cache_follows_the_freshness_policy() {
    let snapshot = store_fetched(
        &mut InMemoryStorageAdapter::new(),
        &payload(1.08),
        AUG_16_30,
    )
    .unwrap();
    let record = ExchangeRateRecord::new(snapshot, AUG_16_30, "2025-08-10".to_string());
    assert_eq!(evaluate_cache(AUG_16_45, Some(&record)), FreshnessDecision::Hit);
    assert_eq!(evaluate_cache(AUG_17_30, Some(&record)), FreshnessDecision::Miss);
    assert_eq!(evaluate_cache(AUG_16_45, None), FreshnessDecision::Miss);
}

#[test]
fn a_malformed_payload_leaves_the_store_untouched() {
    let mut store = InMemoryStorageAdapter::new();
    let bad = EcbDataResponse {
        data_sets: vec![],
        structure: Structure { dimensions: vec![] },
    };
    assert!(store_fetched(&mut store, &bad, AUG_16_30).is_err());
    assert!(!store.exchange_rates_exist("2025-08-10"));
}
