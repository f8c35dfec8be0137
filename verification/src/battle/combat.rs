//! The combat attributes a battle hero carries besides its stats: the
//! critical-hit (`ex`) and special (`sp`) attributes, the hero's own added to
//! what Destiny gives, and the special attributes the fight reports.
use crate::battle::attributes::ResolvedDestinyAttributes;
use std::collections::BTreeMap;
use vstd::prelude::*;

verus! {

/// A present value, or 0.
pub open spec fn or_zero(o: Option<i32>) -> int {
    match o {
        Some(v) => v as int,
        None => 0,
    }
}

/// The sum of two optional values, present.
pub open spec fn sum_of(a: Option<i32>, b: Option<i32>) -> Option<i32> {
    Some((or_zero(a) + or_zero(b)) as i32)
}

/// Whether the sum of two optional values fits `i32`.
pub open spec fn sum_fits(a: Option<i32>, b: Option<i32>) -> bool {
    i32::MIN <= or_zero(a) + or_zero(b) <= i32::MAX
}

/// The sum of two optional values, present.
fn add_present(a: Option<i32>, b: Option<i32>) -> (r: Option<i32>)
    requires
        sum_fits(a, b),
    ensures
        r == sum_of(a, b),
{
    let x: i32 = match a {
        Some(v) => v,
        None => 0,
    };
    let y: i32 = match b {
        Some(v) => v,
        None => 0,
    };
    Some(x + y)
}

/// The critical-hit attributes; a field is absent until something sets it.
#[derive(Clone, Copy, Debug, PartialEq, Eq)]
pub struct HeroExAttribute {
    pub cri: Option<i32>,
    pub recri: Option<i32>,
    pub cri_dmg: Option<i32>,
    pub cri_def: Option<i32>,
    pub add_dmg: Option<i32>,
    pub drop_dmg: Option<i32>,
}

/// The special attributes; a field is absent until something sets it.
#[derive(Clone, Copy, Debug, PartialEq, Eq)]
pub struct HeroSpAttribute {
    pub revive: Option<i32>,
    pub heal: Option<i32>,
    pub absorb: Option<i32>,
    pub defense_ignore: Option<i32>,
    pub clutch: Option<i32>,
    pub final_add_dmg: Option<i32>,
    pub final_drop_dmg: Option<i32>,
    pub normal_skill_rate: Option<i32>,
    pub play_add_rate: Option<i32>,
    pub play_drop_rate: Option<i32>,
    pub dizzy_resistances: Option<i32>,
    pub sleep_resistances: Option<i32>,
    pub petrified_resistances: Option<i32>,
    pub frozen_resistances: Option<i32>,
    pub disarm_resistances: Option<i32>,
    pub forbid_resistances: Option<i32>,
    pub seal_resistances: Option<i32>,
    pub cant_get_exskill_resistances: Option<i32>,
    pub del_ex_point_resistances: Option<i32>,
    pub stress_up_resistances: Option<i32>,
    pub control_resilience: Option<i32>,
    pub del_ex_point_resilience: Option<i32>,
    pub stress_up_resilience: Option<i32>,
    pub charm_resistances: Option<i32>,
    pub rebound_dmg: Option<i32>,
    pub extra_dmg: Option<i32>,
    pub reuse_dmg: Option<i32>,
    pub big_skill_rate: Option<i32>,
    pub clutch_dmg: Option<i32>,
}

/// HeroExAttribute with every field absent.
pub open spec fn unset_ex() -> HeroExAttribute {
    HeroExAttribute {
        cri: None,
        recri: None,
        cri_dmg: None,
        cri_def: None,
        add_dmg: None,
        drop_dmg: None,
    }
}

/// Each field of `base` plus the same field of `delta`, absent ones
/// counting as 0; every field is then present.
pub open spec fn added_ex(base: HeroExAttribute, delta: HeroExAttribute) -> HeroExAttribute {
    HeroExAttribute {
        cri: sum_of(base.cri, delta.cri),
        recri: sum_of(base.recri, delta.recri),
        cri_dmg: sum_of(base.cri_dmg, delta.cri_dmg),
        cri_def: sum_of(base.cri_def, delta.cri_def),
        add_dmg: sum_of(base.add_dmg, delta.add_dmg),
        drop_dmg: sum_of(base.drop_dmg, delta.drop_dmg),
    }
}

/// Whether every field sum of `base` and `delta` fits `i32`.
pub open spec fn ex_sums_fit(base: HeroExAttribute, delta: HeroExAttribute) -> bool {
    &&& sum_fits(base.cri, delta.cri)
    &&& sum_fits(base.recri, delta.recri)
    &&& sum_fits(base.cri_dmg, delta.cri_dmg)
    &&& sum_fits(base.cri_def, delta.cri_def)
    &&& sum_fits(base.add_dmg, delta.add_dmg)
    &&& sum_fits(base.drop_dmg, delta.drop_dmg)
}

impl HeroExAttribute {
    /// Every field absent.
    pub fn unset() -> (s: Self)
        ensures
            s == unset_ex(),
    {
        HeroExAttribute {
            cri: None,
            recri: None,
            cri_dmg: None,
            cri_def: None,
            add_dmg: None,
            drop_dmg: None,
        }
    }

    /// Adds `delta` to `self` field by field, absent fields counting as 0.
    pub fn added(&self, delta: &Self) -> (s: Self)
        requires
            ex_sums_fit(*self, *delta),
        ensures
            s == added_ex(*self, *delta),
    {
        HeroExAttribute {
            cri: add_present(self.cri, delta.cri),
            recri: add_present(self.recri, delta.recri),
            cri_dmg: add_present(self.cri_dmg, delta.cri_dmg),
            cri_def: add_present(self.cri_def, delta.cri_def),
            add_dmg: add_present(self.add_dmg, delta.add_dmg),
            drop_dmg: add_present(self.drop_dmg, delta.drop_dmg),
        }
    }
}

/// HeroSpAttribute with every field absent.
pub open spec fn unset_sp() -> HeroSpAttribute {
    HeroSpAttribute {
        revive: None,
        heal: None,
        absorb: None,
        defense_ignore: None,
        clutch: None,
        final_add_dmg: None,
        final_drop_dmg: None,
        normal_skill_rate: None,
        play_add_rate: None,
        play_drop_rate: None,
        dizzy_resistances: None,
        sleep_resistances: None,
        petrified_resistances: None,
        frozen_resistances: None,
        disarm_resistances: None,
        forbid_resistances: None,
        seal_resistances: None,
        cant_get_exskill_resistances: None,
        del_ex_point_resistances: None,
        stress_up_resistances: None,
        control_resilience: None,
        del_ex_point_resilience: None,
        stress_up_resilience: None,
        charm_resistances: None,
        rebound_dmg: None,
        extra_dmg: None,
        reuse_dmg: None,
        big_skill_rate: None,
        clutch_dmg: None,
    }
}

/// Each field of `base` plus the same field of `delta`, absent ones
/// counting as 0; every field is then present.
pub open spec fn added_sp(base: HeroSpAttribute, delta: HeroSpAttribute) -> HeroSpAttribute {
    HeroSpAttribute {
        revive: sum_of(base.revive, delta.revive),
        heal: sum_of(base.heal, delta.heal),
        absorb: sum_of(base.absorb, delta.absorb),
        defense_ignore: sum_of(base.defense_ignore, delta.defense_ignore),
        clutch: sum_of(base.clutch, delta.clutch),
        final_add_dmg: sum_of(base.final_add_dmg, delta.final_add_dmg),
        final_drop_dmg: sum_of(base.final_drop_dmg, delta.final_drop_dmg),
        normal_skill_rate: sum_of(base.normal_skill_rate, delta.normal_skill_rate),
        play_add_rate: sum_of(base.play_add_rate, delta.play_add_rate),
        play_drop_rate: sum_of(base.play_drop_rate, delta.play_drop_rate),
        dizzy_resistances: sum_of(base.dizzy_resistances, delta.dizzy_resistances),
        sleep_resistances: sum_of(base.sleep_resistances, delta.sleep_resistances),
        petrified_resistances: sum_of(base.petrified_resistances, delta.petrified_resistances),
        frozen_resistances: sum_of(base.frozen_resistances, delta.frozen_resistances),
        disarm_resistances: sum_of(base.disarm_resistances, delta.disarm_resistances),
        forbid_resistances: sum_of(base.forbid_resistances, delta.forbid_resistances),
        seal_resistances: sum_of(base.seal_resistances, delta.seal_resistances),
        cant_get_exskill_resistances: sum_of(base.cant_get_exskill_resistances, delta.cant_get_exskill_resistances),
        del_ex_point_resistances: sum_of(base.del_ex_point_resistances, delta.del_ex_point_resistances),
        stress_up_resistances: sum_of(base.stress_up_resistances, delta.stress_up_resistances),
        control_resilience: sum_of(base.control_resilience, delta.control_resilience),
        del_ex_point_resilience: sum_of(base.del_ex_point_resilience, delta.del_ex_point_resilience),
        stress_up_resilience: sum_of(base.stress_up_resilience, delta.stress_up_resilience),
        charm_resistances: sum_of(base.charm_resistances, delta.charm_resistances),
        rebound_dmg: sum_of(base.rebound_dmg, delta.rebound_dmg),
        extra_dmg: sum_of(base.extra_dmg, delta.extra_dmg),
        reuse_dmg: sum_of(base.reuse_dmg, delta.reuse_dmg),
        big_skill_rate: sum_of(base.big_skill_rate, delta.big_skill_rate),
        clutch_dmg: sum_of(base.clutch_dmg, delta.clutch_dmg),
    }
}

/// Whether every field sum of `base` and `delta` fits `i32`.
pub open spec fn sp_sums_fit(base: HeroSpAttribute, delta: HeroSpAttribute) -> bool {
    &&& sum_fits(base.revive, delta.revive)
    &&& sum_fits(base.heal, delta.heal)
    &&& sum_fits(base.absorb, delta.absorb)
    &&& sum_fits(base.defense_ignore, delta.defense_ignore)
    &&& sum_fits(base.clutch, delta.clutch)
    &&& sum_fits(base.final_add_dmg, delta.final_add_dmg)
    &&& sum_fits(base.final_drop_dmg, delta.final_drop_dmg)
    &&& sum_fits(base.normal_skill_rate, delta.normal_skill_rate)
    &&& sum_fits(base.play_add_rate, delta.play_add_rate)
    &&& sum_fits(base.play_drop_rate, delta.play_drop_rate)
    &&& sum_fits(base.dizzy_resistances, delta.dizzy_resistances)
    &&& sum_fits(base.sleep_resistances, delta.sleep_resistances)
    &&& sum_fits(base.petrified_resistances, delta.petrified_resistances)
    &&& sum_fits(base.frozen_resistances, delta.frozen_resistances)
    &&& sum_fits(base.disarm_resistances, delta.disarm_resistances)
    &&& sum_fits(base.forbid_resistances, delta.forbid_resistances)
    &&& sum_fits(base.seal_resistances, delta.seal_resistances)
    &&& sum_fits(base.cant_get_exskill_resistances, delta.cant_get_exskill_resistances)
    &&& sum_fits(base.del_ex_point_resistances, delta.del_ex_point_resistances)
    &&& sum_fits(base.stress_up_resistances, delta.stress_up_resistances)
    &&& sum_fits(base.control_resilience, delta.control_resilience)
    &&& sum_fits(base.del_ex_point_resilience, delta.del_ex_point_resilience)
    &&& sum_fits(base.stress_up_resilience, delta.stress_up_resilience)
    &&& sum_fits(base.charm_resistances, delta.charm_resistances)
    &&& sum_fits(base.rebound_dmg, delta.rebound_dmg)
    &&& sum_fits(base.extra_dmg, delta.extra_dmg)
    &&& sum_fits(base.reuse_dmg, delta.reuse_dmg)
    &&& sum_fits(base.big_skill_rate, delta.big_skill_rate)
    &&& sum_fits(base.clutch_dmg, delta.clutch_dmg)
}

impl HeroSpAttribute {
    /// Every field absent.
    pub fn unset() -> (s: Self)
        ensures
            s == unset_sp(),
    {
        HeroSpAttribute {
            revive: None,
            heal: None,
            absorb: None,
            defense_ignore: None,
            clutch: None,
            final_add_dmg: None,
            final_drop_dmg: None,
            normal_skill_rate: None,
            play_add_rate: None,
            play_drop_rate: None,
            dizzy_resistances: None,
            sleep_resistances: None,
            petrified_resistances: None,
            frozen_resistances: None,
            disarm_resistances: None,
            forbid_resistances: None,
            seal_resistances: None,
            cant_get_exskill_resistances: None,
            del_ex_point_resistances: None,
            stress_up_resistances: None,
            control_resilience: None,
            del_ex_point_resilience: None,
            stress_up_resilience: None,
            charm_resistances: None,
            rebound_dmg: None,
            extra_dmg: None,
            reuse_dmg: None,
            big_skill_rate: None,
            clutch_dmg: None,
        }
    }

    /// Adds `delta` to `self` field by field, absent fields counting as 0.
    pub fn added(&self, delta: &Self) -> (s: Self)
        requires
            sp_sums_fit(*self, *delta),
        ensures
            s == added_sp(*self, *delta),
    {
        HeroSpAttribute {
            revive: add_present(self.revive, delta.revive),
            heal: add_present(self.heal, delta.heal),
            absorb: add_present(self.absorb, delta.absorb),
            defense_ignore: add_present(self.defense_ignore, delta.defense_ignore),
            clutch: add_present(self.clutch, delta.clutch),
            final_add_dmg: add_present(self.final_add_dmg, delta.final_add_dmg),
            final_drop_dmg: add_present(self.final_drop_dmg, delta.final_drop_dmg),
            normal_skill_rate: add_present(self.normal_skill_rate, delta.normal_skill_rate),
            play_add_rate: add_present(self.play_add_rate, delta.play_add_rate),
            play_drop_rate: add_present(self.play_drop_rate, delta.play_drop_rate),
            dizzy_resistances: add_present(self.dizzy_resistances, delta.dizzy_resistances),
            sleep_resistances: add_present(self.sleep_resistances, delta.sleep_resistances),
            petrified_resistances: add_present(self.petrified_resistances, delta.petrified_resistances),
            frozen_resistances: add_present(self.frozen_resistances, delta.frozen_resistances),
            disarm_resistances: add_present(self.disarm_resistances, delta.disarm_resistances),
            forbid_resistances: add_present(self.forbid_resistances, delta.forbid_resistances),
            seal_resistances: add_present(self.seal_resistances, delta.seal_resistances),
            cant_get_exskill_resistances: add_present(self.cant_get_exskill_resistances, delta.cant_get_exskill_resistances),
            del_ex_point_resistances: add_present(self.del_ex_point_resistances, delta.del_ex_point_resistances),
            stress_up_resistances: add_present(self.stress_up_resistances, delta.stress_up_resistances),
            control_resilience: add_present(self.control_resilience, delta.control_resilience),
            del_ex_point_resilience: add_present(self.del_ex_point_resilience, delta.del_ex_point_resilience),
            stress_up_resilience: add_present(self.stress_up_resilience, delta.stress_up_resilience),
            charm_resistances: add_present(self.charm_resistances, delta.charm_resistances),
            rebound_dmg: add_present(self.rebound_dmg, delta.rebound_dmg),
            extra_dmg: add_present(self.extra_dmg, delta.extra_dmg),
            reuse_dmg: add_present(self.reuse_dmg, delta.reuse_dmg),
            big_skill_rate: add_present(self.big_skill_rate, delta.big_skill_rate),
            clutch_dmg: add_present(self.clutch_dmg, delta.clutch_dmg),
        }
    }
}

/// The value of a raw Destiny attribute that fits `i32`, or 0.
pub open spec fn raw_modifier(raw: Map<i32, i64>, id: i32) -> i32 {
    if raw.contains_key(id) && i32::MIN <= raw[id] <= i32::MAX {
        raw[id] as i32
    } else {
        0
    }
}

/// Reads a raw Destiny attribute as an `i32`, 0 when absent or too large.
pub fn raw_modifier_of(raw: &BTreeMap<i32, i64>, id: i32) -> (v: i32)
    ensures
        v == raw_modifier(raw@, id),
{
    match raw.get(&id) {
        Some(value) => if i32::MIN as i64 <= *value && *value <= i32::MAX as i64 {
            *value as i32
        } else {
            0
        },
        None => 0,
    }
}

/// The special attributes a fight reports for a hero: each one the hero
/// carries, and for the others 0, except those Destiny raises directly
/// (heal, clutch, normal skill rate, rebound, extra and reuse damage), which
/// take their raw Destiny value.
pub open spec fn reported_sp(sp: HeroSpAttribute, raw: Map<i32, i64>) -> HeroSpAttribute {
    HeroSpAttribute {
        revive: Some(match sp.revive { Some(v) => v, None => 0 }),
        heal: Some(match sp.heal { Some(v) => v, None => raw_modifier(raw, 212) }),
        absorb: Some(match sp.absorb { Some(v) => v, None => 0 }),
        defense_ignore: Some(match sp.defense_ignore { Some(v) => v, None => 0 }),
        clutch: Some(match sp.clutch { Some(v) => v, None => raw_modifier(raw, 211) }),
        final_add_dmg: Some(match sp.final_add_dmg { Some(v) => v, None => 0 }),
        final_drop_dmg: Some(match sp.final_drop_dmg { Some(v) => v, None => 0 }),
        normal_skill_rate: Some(match sp.normal_skill_rate { Some(v) => v, None => raw_modifier(raw, 214) }),
        play_add_rate: Some(match sp.play_add_rate { Some(v) => v, None => 0 }),
        play_drop_rate: Some(match sp.play_drop_rate { Some(v) => v, None => 0 }),
        dizzy_resistances: Some(match sp.dizzy_resistances { Some(v) => v, None => 0 }),
        sleep_resistances: Some(match sp.sleep_resistances { Some(v) => v, None => 0 }),
        petrified_resistances: Some(match sp.petrified_resistances { Some(v) => v, None => 0 }),
        frozen_resistances: Some(match sp.frozen_resistances { Some(v) => v, None => 0 }),
        disarm_resistances: Some(match sp.disarm_resistances { Some(v) => v, None => 0 }),
        forbid_resistances: Some(match sp.forbid_resistances { Some(v) => v, None => 0 }),
        seal_resistances: Some(match sp.seal_resistances { Some(v) => v, None => 0 }),
        cant_get_exskill_resistances: Some(match sp.cant_get_exskill_resistances { Some(v) => v, None => 0 }),
        del_ex_point_resistances: Some(match sp.del_ex_point_resistances { Some(v) => v, None => 0 }),
        stress_up_resistances: Some(match sp.stress_up_resistances { Some(v) => v, None => 0 }),
        control_resilience: Some(match sp.control_resilience { Some(v) => v, None => 0 }),
        del_ex_point_resilience: Some(match sp.del_ex_point_resilience { Some(v) => v, None => 0 }),
        stress_up_resilience: Some(match sp.stress_up_resilience { Some(v) => v, None => 0 }),
        charm_resistances: Some(match sp.charm_resistances { Some(v) => v, None => 0 }),
        rebound_dmg: Some(match sp.rebound_dmg { Some(v) => v, None => raw_modifier(raw, 218) }),
        extra_dmg: Some(match sp.extra_dmg { Some(v) => v, None => raw_modifier(raw, 219) }),
        reuse_dmg: Some(match sp.reuse_dmg { Some(v) => v, None => raw_modifier(raw, 220) }),
        big_skill_rate: Some(match sp.big_skill_rate { Some(v) => v, None => 0 }),
        clutch_dmg: Some(match sp.clutch_dmg { Some(v) => v, None => 0 }),
    }
}

/// The special attributes of a hero with Destiny modifiers `resolved` (a
/// hero without any reports the defaults).
pub open spec fn sp_from_destiny(resolved: Option<&ResolvedDestinyAttributes>) -> HeroSpAttribute {
    match resolved {
        Some(r) => reported_sp(r.sp_attr, r.raw_tenths@),
        None => reported_sp(unset_sp(), Map::empty()),
    }
}

/// The special attributes a fight reports for a hero.
pub fn hero_sp_attribute_from_destiny(resolved: Option<&ResolvedDestinyAttributes>) -> (s: HeroSpAttribute)
    ensures
        s == sp_from_destiny(resolved),
{
    let empty: BTreeMap<i32, i64> = BTreeMap::new();
    let (sp, raw) = match resolved {
        Some(r) => (r.sp_attr, &r.raw_tenths),
        None => (HeroSpAttribute::unset(), &empty),
    };
    assert(raw@ == (match resolved {
        Some(r) => r.raw_tenths@,
        None => Map::<i32, i64>::empty(),
    }));
    HeroSpAttribute {
        revive: Some(match sp.revive {
            Some(v) => v,
            None => 0,
        }),
        heal: Some(match sp.heal {
            Some(v) => v,
            None => raw_modifier_of(raw, 212),
        }),
        absorb: Some(match sp.absorb {
            Some(v) => v,
            None => 0,
        }),
        defense_ignore: Some(match sp.defense_ignore {
            Some(v) => v,
            None => 0,
        }),
        clutch: Some(match sp.clutch {
            Some(v) => v,
            None => raw_modifier_of(raw, 211),
        }),
        final_add_dmg: Some(match sp.final_add_dmg {
            Some(v) => v,
            None => 0,
        }),
        final_drop_dmg: Some(match sp.final_drop_dmg {
            Some(v) => v,
            None => 0,
        }),
        normal_skill_rate: Some(match sp.normal_skill_rate {
            Some(v) => v,
            None => raw_modifier_of(raw, 214),
        }),
        play_add_rate: Some(match sp.play_add_rate {
            Some(v) => v,
            None => 0,
        }),
        play_drop_rate: Some(match sp.play_drop_rate {
            Some(v) => v,
            None => 0,
        }),
        dizzy_resistances: Some(match sp.dizzy_resistances {
            Some(v) => v,
            None => 0,
        }),
        sleep_resistances: Some(match sp.sleep_resistances {
            Some(v) => v,
            None => 0,
        }),
        petrified_resistances: Some(match sp.petrified_resistances {
            Some(v) => v,
            None => 0,
        }),
        frozen_resistances: Some(match sp.frozen_resistances {
            Some(v) => v,
            None => 0,
        }),
        disarm_resistances: Some(match sp.disarm_resistances {
            Some(v) => v,
            None => 0,
        }),
        forbid_resistances: Some(match sp.forbid_resistances {
            Some(v) => v,
            None => 0,
        }),
        seal_resistances: Some(match sp.seal_resistances {
            Some(v) => v,
            None => 0,
        }),
        cant_get_exskill_resistances: Some(match sp.cant_get_exskill_resistances {
            Some(v) => v,
            None => 0,
        }),
        del_ex_point_resistances: Some(match sp.del_ex_point_resistances {
            Some(v) => v,
            None => 0,
        }),
        stress_up_resistances: Some(match sp.stress_up_resistances {
            Some(v) => v,
            None => 0,
        }),
        control_resilience: Some(match sp.control_resilience {
            Some(v) => v,
            None => 0,
        }),
        del_ex_point_resilience: Some(match sp.del_ex_point_resilience {
            Some(v) => v,
            None => 0,
        }),
        stress_up_resilience: Some(match sp.stress_up_resilience {
            Some(v) => v,
            None => 0,
        }),
        charm_resistances: Some(match sp.charm_resistances {
            Some(v) => v,
            None => 0,
        }),
        rebound_dmg: Some(match sp.rebound_dmg {
            Some(v) => v,
            None => raw_modifier_of(raw, 218),
        }),
        extra_dmg: Some(match sp.extra_dmg {
            Some(v) => v,
            None => raw_modifier_of(raw, 219),
        }),
        reuse_dmg: Some(match sp.reuse_dmg {
            Some(v) => v,
            None => raw_modifier_of(raw, 220),
        }),
        big_skill_rate: Some(match sp.big_skill_rate {
            Some(v) => v,
            None => 0,
        }),
        clutch_dmg: Some(match sp.clutch_dmg {
            Some(v) => v,
            None => 0,
        }),
    }
}

/// The modifiers a fight applies for an owned hero: its Destiny modifiers
/// with its own critical-hit and special attributes added field by field.
pub fn merge_hero_combat_attributes(
    resolved: ResolvedDestinyAttributes,
    base_ex: HeroExAttribute,
    base_sp: HeroSpAttribute,
) -> (r: ResolvedDestinyAttributes)
    requires
        ex_sums_fit(base_ex, resolved.ex_attr),
        sp_sums_fit(base_sp, resolved.sp_attr),
    ensures
        r.ex_attr == added_ex(base_ex, resolved.ex_attr),
        r.sp_attr == added_sp(base_sp, resolved.sp_attr),
        r.hp == resolved.hp && r.attack == resolved.attack && r.defense == resolved.defense
            && r.mdefense == resolved.mdefense,
        r.raw_tenths@ == resolved.raw_tenths@,
        r.real_hurt_rate == resolved.real_hurt_rate && r.poison_add_rate == resolved.poison_add_rate,
        r.trace@ == resolved.trace@,
{
    let mut r = resolved;
    r.ex_attr = base_ex.added(&r.ex_attr);
    r.sp_attr = base_sp.added(&r.sp_attr);
    r
}

} // verus!
