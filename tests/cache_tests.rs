use mlvd::cache::{
    hostnames_unique, on_response, plan_lookup, request_validator, CacheProbe, CacheUpdate,
    DirectoryError, Plan, FRESHNESS_SECS,
};
use mlvd::select::{select, RandomSource, Relay};

fn relay(hostname: &str, active: bool, weight: usize) -> Relay {
    Relay {
        hostname: hostname.to_string(),
        location: "de-fra".to_string(),
        active,
        provider: "P".to_string(),
        weight,
        ip: "10.1.2.3".to_string(),
        public_key: "pk".to_string(),
    }
}

#[test]
fn fresh_cache_is_used_twice_without_network() {
    assert_eq!(plan_lookup(CacheProbe::Present { age_secs: Some(10) }), Ok(Plan::UseCached));
    assert_eq!(plan_lookup(CacheProbe::Present { age_secs: Some(11) }), Ok(Plan::UseCached));
    assert_eq!(plan_lookup(CacheProbe::Present { age_secs: Some(899) }), Ok(Plan::UseCached));
}

#[test]
fn stale_missing_or_unknown_cache_revalidates() {
    assert_eq!(FRESHNESS_SECS, 900);
    assert_eq!(plan_lookup(CacheProbe::Present { age_secs: Some(900) }), Ok(Plan::Revalidate));
    assert_eq!(plan_lookup(CacheProbe::Present { age_secs: None }), Ok(Plan::Revalidate));
    assert_eq!(plan_lookup(CacheProbe::Missing), Ok(Plan::Revalidate));
    assert_eq!(plan_lookup(CacheProbe::Unreadable), Err(DirectoryError::CacheIo));
}

#[test]
fn validator_defaults_to_empty() {
    assert_eq!(request_validator(Some("abc".to_string())), "abc");
    assert_eq!(request_validator(None), "");
}

#[test]
fn not_modified_only_touches() {
    match on_response(304, Some("abc".to_string()), None) {
        Ok(CacheUpdate::Touch) => {}
        other => panic!("unexpected {:?}", other),
    }
}

#[test]
fn new_body_is_stored_and_active_relay_chosen() {
    let body = vec![relay("de-fra-1", true, 10), relay("de-fra-2", false, 5)];
    match on_response(200, Some("xyz".to_string()), Some(body)) {
        Ok(CacheUpdate::Store { relays, validator }) => {
            assert_eq!(validator, "xyz");
            assert_eq!(relays.len(), 2);
            for seed in 0..30u64 {
                let mut rng = RandomSource::seeded(seed);
                let chosen = select(&relays, None, None, true, &mut rng).unwrap();
                assert_eq!(chosen.weight, 10);
                assert_eq!(chosen.hostname, "de-fra-1");
            }
        }
        other => panic!("unexpected {:?}", other),
    }
}

#[test]
fn missing_validator_is_stored_empty() {
    match on_response(200, None, Some(vec![relay("a", true, 1)])) {
        Ok(CacheUpdate::Store { validator, .. }) => assert_eq!(validator, ""),
        other => panic!("unexpected {:?}", other),
    }
}

#[test]
fn undecodable_or_duplicate_body_is_parse_error() {
    assert_eq!(on_response(200, Some("v".to_string()), None).unwrap_err(), DirectoryError::Parse);
    let dup = vec![relay("a", true, 1), relay("b", true, 1), relay("a", false, 2)];
    assert_eq!(on_response(200, None, Some(dup)).unwrap_err(), DirectoryError::Parse);
}

#[test]
fn other_status_is_fetch_error() {
    assert_eq!(on_response(500, None, None).unwrap_err(), DirectoryError::Fetch(Some(500)));
    assert_eq!(
        on_response(404, Some("x".to_string()), Some(vec![relay("a", true, 1)])).unwrap_err(),
        DirectoryError::Fetch(Some(404))
    );
}

#[test]
fn unique_hostnames() {
    assert!(hostnames_unique(&vec![]));
    assert!(hostnames_unique(&vec![relay("a", true, 1), relay("b", true, 1)]));
    assert!(!hostnames_unique(&vec![relay("a", true, 1), relay("a", true, 1)]));
}
