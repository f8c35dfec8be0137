use sonetto::battle::attributes::is_supported_destiny_attribute;
use sonetto::battle::types::{DestinyResolveError, FixedTenths};

#[test]
fn fixed_tenths_floor_percent_smoke() {
    assert_eq!(FixedTenths(45).floor_percent_of(1000).unwrap(), 45);
}

#[test]
fn all_referenced_attribute_ids_have_runtime_adapters() {
    let allowed = [
        201, 203, 205, 211, 212, 214, 217, 218, 219, 220, 301, 601, 602, 603, 604, 605, 606, 607,
        608,
    ];
    for id in allowed {
        assert!(is_supported_destiny_attribute(id));
    }
}

#[test]
fn show_type_one_scales_raw_value_by_one_tenth() {
    assert_eq!(FixedTenths(45).floor_percent_of(999).unwrap(), 44);
}

#[test]
fn unsupported_attribute_ids_are_refused() {
    for id in [0, 200, 202, 213, 302, 600, 609] {
        assert!(!is_supported_destiny_attribute(id));
    }
}

#[test]
fn fixed_tenths_truncates_toward_zero_and_reports_overflow() {
    assert_eq!(FixedTenths(-45).floor_percent_of(999).unwrap(), -44);
    assert_eq!(FixedTenths(1).checked_add(FixedTenths(2)).unwrap(), FixedTenths(3));
    assert!(matches!(
        FixedTenths(i64::MAX).checked_add(FixedTenths(1)),
        Err(DestinyResolveError::Overflow)
    ));
    assert!(matches!(
        FixedTenths(i64::MAX).floor_percent_of(2),
        Err(DestinyResolveError::Overflow)
    ));
}
