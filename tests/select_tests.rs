use mlvd::filter::Filter;
use mlvd::select::{get_filtered_relays, pick, select, RandomSource, Relay, SelectError};

fn relay(hostname: &str, location: &str, provider: &str, active: bool, weight: usize) -> Relay {
    Relay {
        hostname: hostname.to_string(),
        location: location.to_string(),
        active,
        provider: provider.to_string(),
        weight,
        ip: "10.0.0.1".to_string(),
        public_key: format!("key-{}", hostname),
    }
}

#[test]
fn provider_exclusion_scenario() {
    let relays = vec![
        relay("de-fra-1", "de-fra", "M247", true, 100),
        relay("de-ber-1", "de-ber", "OtherCo", true, 100),
    ];
    let lh = Filter::parse("de-").unwrap();
    let pv = Filter::parse("!(M247)").unwrap();
    let found = get_filtered_relays(&relays, Some(&lh), Some(&pv), false);
    assert_eq!(found.len(), 1);
    assert_eq!(found[0].hostname, "de-ber-1");
}

#[test]
fn location_filter_checks_location_or_hostname() {
    let relays = vec![
        relay("se-got-1", "se-got", "A", true, 1),
        relay("xx-1", "de-fra", "A", true, 1),
        relay("de-odd-1", "nl-ams", "A", true, 1),
    ];
    let lh = Filter::parse("^de").unwrap();
    let found = get_filtered_relays(&relays, Some(&lh), None, false);
    let names: Vec<&str> = found.iter().map(|r| r.hostname.as_str()).collect();
    assert_eq!(names, vec!["xx-1", "de-odd-1"]);
}

#[test]
fn no_filters_keep_every_relay_in_order() {
    let relays = vec![
        relay("a", "x", "p", false, 0),
        relay("b", "y", "q", true, 3),
    ];
    let found = get_filtered_relays(&relays, None, None, false);
    assert_eq!(found.len(), 2);
    assert_eq!(found[0].hostname, "a");
    assert_eq!(found[1].hostname, "b");
    let active = get_filtered_relays(&relays, None, None, true);
    assert_eq!(active.len(), 1);
    assert_eq!(active[0].hostname, "b");
}

#[test]
fn no_candidate_is_no_match() {
    let relays = vec![relay("a", "x", "p", false, 5)];
    let mut rng = RandomSource::seeded(1);
    assert_eq!(select(&relays, None, None, true, &mut rng).unwrap_err(), SelectError::NoMatch);
    let empty: Vec<Relay> = Vec::new();
    assert_eq!(select(&empty, None, None, false, &mut rng).unwrap_err(), SelectError::NoMatch);
}

#[test]
fn all_zero_weights_are_invalid() {
    let relays = vec![relay("a", "x", "p", true, 0), relay("b", "x", "p", true, 0)];
    let mut rng = RandomSource::seeded(7);
    assert_eq!(select(&relays, None, None, true, &mut rng).unwrap_err(), SelectError::InvalidWeights);
}

#[test]
fn single_candidate_is_returned_even_with_zero_weight() {
    let relays = vec![relay("a", "x", "p", true, 0), relay("b", "x", "p", false, 9)];
    let mut rng = RandomSource::seeded(3);
    assert_eq!(select(&relays, None, None, true, &mut rng).unwrap().hostname, "a");
}

#[test]
fn only_positive_weights_are_drawn() {
    let relays = vec![
        relay("a", "x", "p", true, 0),
        relay("b", "x", "p", true, 4),
        relay("c", "x", "p", true, 0),
    ];
    for seed in 0..50u64 {
        let mut rng = RandomSource::seeded(seed);
        assert_eq!(select(&relays, None, None, false, &mut rng).unwrap().hostname, "b");
    }
}

#[test]
fn weighted_draw_reaches_every_positive_relay() {
    let relays = vec![relay("a", "x", "p", true, 1), relay("b", "x", "p", true, 1)];
    let mut rng = RandomSource::from_entropy();
    let mut seen_a = false;
    let mut seen_b = false;
    for _ in 0..200 {
        let r = select(&relays, None, None, false, &mut rng).unwrap();
        if r.hostname == "a" {
            seen_a = true;
        } else {
            seen_b = true;
        }
    }
    assert!(seen_a && seen_b);
}

#[test]
fn overflowing_total_is_invalid() {
    let relays = vec![relay("a", "x", "p", true, usize::MAX), relay("b", "x", "p", true, 1)];
    let refs: Vec<&Relay> = relays.iter().collect();
    let mut rng = RandomSource::seeded(0);
    assert_eq!(pick(&refs, &mut rng).unwrap_err(), SelectError::InvalidWeights);
}

#[test]
fn same_seed_same_draws() {
    let relays: Vec<Relay> = (0..10).map(|i| relay(&format!("h{}", i), "x", "p", true, i + 1)).collect();
    let mut a = RandomSource::seeded(42);
    let mut b = RandomSource::seeded(42);
    for _ in 0..20 {
        let x = select(&relays, None, None, false, &mut a).unwrap();
        let y = select(&relays, None, None, false, &mut b).unwrap();
        assert_eq!(x.hostname, y.hostname);
    }
}
