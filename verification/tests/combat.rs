use sonetto::battle::attributes::ResolvedDestinyAttributes;
use sonetto::battle::combat::{
    hero_sp_attribute_from_destiny, merge_hero_combat_attributes, raw_modifier_of,
    HeroExAttribute, HeroSpAttribute,
};
use std::collections::BTreeMap;

fn resolved(raw: &[(i32, i64)], sp: HeroSpAttribute) -> ResolvedDestinyAttributes {
    ResolvedDestinyAttributes {
        hp: 10,
        attack: 20,
        defense: 30,
        mdefense: 40,
        raw_tenths: raw.iter().copied().collect::<BTreeMap<i32, i64>>(),
        ex_attr: HeroExAttribute::unset(),
        sp_attr: sp,
        real_hurt_rate: 0,
        poison_add_rate: 0,
        trace: vec![],
    }
}

#[test]
fn a_hero_without_modifiers_reports_zeroes() {
    let sp = hero_sp_attribute_from_destiny(None);
    assert_eq!(sp.revive, Some(0));
    assert_eq!(sp.heal, Some(0));
    assert_eq!(sp.clutch, Some(0));
    assert_eq!(sp.reuse_dmg, Some(0));
    assert_eq!(sp.clutch_dmg, Some(0));
}

#[test]
fn destiny_raw_values_fill_the_attributes_it_raises() {
    let r = resolved(
        &[(212, 50), (211, i64::MAX), (214, -30), (218, 5), (219, 6), (220, 7), (601, 99)],
        HeroSpAttribute::unset(),
    );
    let sp = hero_sp_attribute_from_destiny(Some(&r));
    assert_eq!(sp.heal, Some(50));
    assert_eq!(sp.clutch, Some(0));
    assert_eq!(sp.normal_skill_rate, Some(-30));
    assert_eq!(sp.rebound_dmg, Some(5));
    assert_eq!(sp.extra_dmg, Some(6));
    assert_eq!(sp.reuse_dmg, Some(7));
    assert_eq!(sp.absorb, Some(0));
}

#[test]
fn carried_attributes_win_over_raw_values() {
    let mut carried = HeroSpAttribute::unset();
    carried.heal = Some(7);
    carried.revive = Some(1);
    let r = resolved(&[(212, 50)], carried);
    let sp = hero_sp_attribute_from_destiny(Some(&r));
    assert_eq!(sp.heal, Some(7));
    assert_eq!(sp.revive, Some(1));
}

#[test]
fn raw_values_outside_i32_read_as_zero() {
    let raw: BTreeMap<i32, i64> = [(1, 5_000_000_000), (2, -3)].into_iter().collect();
    assert_eq!(raw_modifier_of(&raw, 1), 0);
    assert_eq!(raw_modifier_of(&raw, 2), -3);
    assert_eq!(raw_modifier_of(&raw, 3), 0);
}

#[test]
fn owned_hero_attributes_are_added_to_destiny_modifiers() {
    let mut destiny_sp = HeroSpAttribute::unset();
    destiny_sp.heal = Some(5);
    let r = resolved(&[(601, 10)], destiny_sp);
    let mut base_ex = HeroExAttribute::unset();
    base_ex.cri = Some(100);
    base_ex.cri_dmg = Some(1500);
    let mut base_sp = HeroSpAttribute::unset();
    base_sp.heal = Some(3);
    let merged = merge_hero_combat_attributes(r, base_ex, base_sp);
    assert_eq!(merged.ex_attr.cri, Some(100));
    assert_eq!(merged.ex_attr.cri_dmg, Some(1500));
    assert_eq!(merged.ex_attr.recri, Some(0));
    assert_eq!(merged.sp_attr.heal, Some(8));
    assert_eq!(merged.sp_attr.revive, Some(0));
    assert_eq!(merged.hp, 10);
    assert_eq!(merged.raw_tenths.get(&601), Some(&10));
}
