use benoop::config::{config_eq, Config, RequestConfig};
use benoop::error::Error;

fn endpoint(url: &str, weight: i32) -> RequestConfig {
    RequestConfig { url: String::from(url), weight }
}

fn two_endpoint_config() -> Config {
    Config {
        concurrent: 2,
        total: 10,
        requests: vec![endpoint("http://a", 1), endpoint("http://b", 3)],
    }
}

#[test]
fn validate_accepts_well_formed_config() {
    assert_eq!(two_endpoint_config().validate(), Ok(()));
}

#[test]
fn validate_rejects_empty_endpoint_list() {
    let config = Config { concurrent: 2, total: 10, requests: vec![] };
    assert_eq!(config.validate(), Err(Error::InvalidWeights));
}

#[test]
fn validate_rejects_non_positive_weight() {
    let config = Config {
        concurrent: 2,
        total: 10,
        requests: vec![endpoint("http://a", 1), endpoint("http://b", 0)],
    };
    assert_eq!(config.validate(), Err(Error::InvalidWeights));
    let config = Config { concurrent: 2, total: 10, requests: vec![endpoint("http://a", -4)] };
    assert_eq!(config.validate(), Err(Error::InvalidWeights));
}

#[test]
fn validate_rejects_oversized_weight_sum() {
    let config = Config {
        concurrent: 2,
        total: 10,
        requests: vec![endpoint("http://a", i32::MAX), endpoint("http://b", 1)],
    };
    assert_eq!(config.validate(), Err(Error::InvalidWeights));
}

#[test]
fn validate_rejects_zero_concurrency() {
    let config = Config { concurrent: 0, total: 10, requests: vec![endpoint("http://a", 1)] };
    assert_eq!(config.validate(), Err(Error::InvalidConcurrency));
}

#[test]
fn validate_rejects_zero_total() {
    let config = Config { concurrent: 2, total: 0, requests: vec![endpoint("http://a", 1)] };
    assert_eq!(config.validate(), Err(Error::InvalidTotal));
}

#[test]
fn single_endpoint_is_always_selected() {
    let config = Config { concurrent: 1, total: 1, requests: vec![endpoint("http://only", 7)] };
    for _ in 0..100 {
        assert_eq!(config.random_request_index(), 0);
        assert_eq!(config.get_random_request().url, "http://only");
    }
}

#[test]
fn selection_stays_among_configured_endpoints() {
    let config = two_endpoint_config();
    for _ in 0..1000 {
        assert!(config.random_request_index() < 2);
    }
}

/// Empirical selection frequency approaches the weight shares: with
/// weights 1 and 3 the second endpoint should take about three quarters
/// of a large sample.
#[test]
fn selection_frequency_follows_weights() {
    let config = two_endpoint_config();
    let draws: usize = 40_000;
    let mut second: usize = 0;
    for _ in 0..draws {
        if config.random_request_index() == 1 {
            second += 1;
        }
    }
    let share = second as f64 / draws as f64;
    assert!(
        (share - 0.75).abs() < 0.03,
        "endpoint share {} strays too far from its weight share 0.75",
        share
    );
}

#[test]
fn config_eq_is_structural_and_order_sensitive() {
    let a = two_endpoint_config();
    assert!(config_eq(&a, &a.clone()));

    let mut different_weight = a.clone();
    different_weight.requests[1].weight = 4;
    assert!(!config_eq(&a, &different_weight));

    let mut different_url = a.clone();
    different_url.requests[0].url = String::from("http://c");
    assert!(!config_eq(&a, &different_url));

    let reordered = Config {
        concurrent: a.concurrent,
        total: a.total,
        requests: vec![a.requests[1].clone(), a.requests[0].clone()],
    };
    assert!(!config_eq(&a, &reordered));

    let mut different_total = a.clone();
    different_total.total = 11;
    assert!(!config_eq(&a, &different_total));

    let mut different_concurrency = a.clone();
    different_concurrency.concurrent = 3;
    assert!(!config_eq(&a, &different_concurrency));
}
