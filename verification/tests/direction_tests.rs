use poly_5min_bot::direction::{slippage_index, LastPriceCache, PriceDirection};

#[test]
fn first_tick_has_no_direction() {
    let mut cache = LastPriceCache::new();
    assert_eq!(
        cache.observe(7, 4800, 5000),
        (PriceDirection::Unknown, PriceDirection::Unknown)
    );
}

#[test]
fn directions_compare_against_the_previous_tick() {
    let mut cache = LastPriceCache::new();
    cache.observe(7, 4800, 5000);
    assert_eq!(cache.observe(7, 4900, 4950), (PriceDirection::Up, PriceDirection::Down));
    assert_eq!(cache.observe(7, 4900, 5100), (PriceDirection::Flat, PriceDirection::Up));
}

#[test]
fn markets_do_not_interfere() {
    let mut cache = LastPriceCache::new();
    cache.observe(7, 4800, 5000);
    assert_eq!(
        cache.observe(8, 100, 9900),
        (PriceDirection::Unknown, PriceDirection::Unknown)
    );
    // market 7 still compares against its own last tick
    assert_eq!(cache.observe(7, 4700, 5000), (PriceDirection::Down, PriceDirection::Flat));
}

#[test]
fn clear_forgets_everything() {
    let mut cache = LastPriceCache::new();
    cache.observe(7, 4800, 5000);
    cache.clear();
    assert_eq!(
        cache.observe(7, 4800, 5000),
        (PriceDirection::Unknown, PriceDirection::Unknown)
    );
}

#[test]
fn only_a_falling_leg_takes_the_second_slippage() {
    assert_eq!(slippage_index(PriceDirection::Down), 1);
    assert_eq!(slippage_index(PriceDirection::Up), 0);
    assert_eq!(slippage_index(PriceDirection::Flat), 0);
    assert_eq!(slippage_index(PriceDirection::Unknown), 0);
}
