use sonetto::items::{
    convert_expired_power_items, find_power_effect, power_conversion_fits,
    stamina_after_conversion, ExpiredPowerItem, PowerItem,
};

fn expired(uid: i64, item_id: i32, quantity: i32) -> ExpiredPowerItem {
    ExpiredPowerItem {
        uid,
        item_id,
        quantity,
        expire_time: 1_700_000_000,
    }
}

fn table() -> Vec<PowerItem> {
    vec![
        PowerItem { id: 1, effect: 60 },
        PowerItem { id: 2, effect: 120 },
        PowerItem { id: 1, effect: 999 },
    ]
}

#[test]
fn configured_items_turn_into_effect_times_quantity() {
    let items = [expired(10, 1, 2), expired(11, 7, 5), expired(12, 2, 1)];
    assert!(power_conversion_fits(&items, &table()));
    let c = convert_expired_power_items(&items, &table());
    assert_eq!(c.consumed, vec![10, 12]);
    assert_eq!(c.total_stamina, 240);
    assert!(c.used);
}

#[test]
fn the_first_configured_row_gives_the_effect() {
    assert_eq!(find_power_effect(&table(), 1), Some(60));
    assert_eq!(find_power_effect(&table(), 3), None);
}

#[test]
fn no_expired_items_means_nothing_used() {
    let c = convert_expired_power_items(&[], &table());
    assert!(c.consumed.is_empty());
    assert_eq!(c.total_stamina, 0);
    assert!(!c.used);
}

#[test]
fn unconfigured_items_still_count_as_used() {
    let items = [expired(11, 7, 5)];
    let c = convert_expired_power_items(&items, &table());
    assert!(c.consumed.is_empty());
    assert_eq!(c.total_stamina, 0);
    assert!(c.used);
    assert_eq!(stamina_after_conversion(80, c.total_stamina), None);
}

#[test]
fn stamina_grows_by_the_total() {
    assert_eq!(stamina_after_conversion(80, 240), Some(320));
}

#[test]
fn totals_outside_i32_are_detected() {
    let items = [expired(10, 2, i32::MAX)];
    assert!(!power_conversion_fits(&items, &table()));
    let many = [expired(10, 2, 10_000_000), expired(11, 2, 10_000_000)];
    assert!(!power_conversion_fits(&many, &table()));
}
