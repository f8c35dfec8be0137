//! What a battle hero entity is built from: its build context, the Destiny
//! facet that applies, its kit with the compatibility and equipment passives,
//! and the per-hero constants of the entity.
use crate::battle::attributes::{
    destiny_attributes_result, resolve_destiny_attributes, ResolvedDestinyAttributes,
};
use crate::battle::kit::{
    hero_kit, negative_destiny_message, negative_ex_message, resolve_hero_kit, KitView,
    ResolvedHeroKit,
};
use crate::battle::types::{
    DestinyResolveError, DestinyState, HeroBaseAttributes, HeroBuildContext, HeroSource,
};
use crate::config::{
    fault_text, game_db_indexable, index_fault, DestinyConfigIndex, EquipSkill, GameDB, SkillExLevel,
};
use crate::table::contains_id;
use crate::text::{int_text, push_int, push_str};
use vstd::prelude::*;

verus! {

/// The stored fields of an owned hero that a battle reads.
#[derive(Clone, Copy, Debug, PartialEq, Eq)]
pub struct HeroRecord {
    pub hero_id: i32,
    pub skin: i32,
    pub rank: i32,
    pub ex_skill_level: i32,
    pub destiny_rank: i32,
    pub destiny_level: i32,
    pub destiny_stone: i32,
}

/// The build context of a stored hero: its own fields, with the hero type
/// of its character (1 for an unknown character).
pub open spec fn record_context(
    game: &GameDB,
    record: HeroRecord,
    is_substitute: bool,
    source: HeroSource,
) -> HeroBuildContext {
    HeroBuildContext {
        hero_id: record.hero_id,
        skin: record.skin,
        rank: record.rank,
        ex_skill_level: record.ex_skill_level,
        destiny: DestinyState {
            rank: record.destiny_rank,
            level: record.destiny_level,
            facet_id: record.destiny_stone,
        },
        is_substitute,
        hero_type: match game.spec_character(record.hero_id) {
            Some(ch) => ch.hero_type,
            None => 1,
        },
        source,
    }
}

/// The build context of a stored hero; an unknown character has hero type 1.
pub fn hero_build_context(
    game: &GameDB,
    record: &HeroRecord,
    is_substitute: bool,
    source: HeroSource,
) -> (c: HeroBuildContext)
    ensures
        c == record_context(game, *record, is_substitute, source),
{
    let hero_type = match game.character_row(record.hero_id) {
        Some(ch) => ch.hero_type,
        None => 1,
    };
    HeroBuildContext {
        hero_id: record.hero_id,
        skin: record.skin,
        rank: record.rank,
        ex_skill_level: record.ex_skill_level,
        destiny: DestinyState {
            rank: record.destiny_rank,
            level: record.destiny_level,
            facet_id: record.destiny_stone,
        },
        is_substitute,
        hero_type,
        source,
    }
}

/// Whether a requested facet applies: a positive facet at a positive rank,
/// owned by the hero, with a row at that rank.
pub open spec fn facet_active(index: &DestinyConfigIndex, ctx: HeroBuildContext) -> bool {
    let f = ctx.destiny.facet_id;
    let rank = ctx.destiny.rank;
    &&& f > 0 && rank > 0
    &&& match index.spec_hero(ctx.hero_id) {
        Some(h) => h.facet_ids.contains(f),
        None => false,
    }
    &&& index.spec_facet(f, rank) is Some
}

/// The context a hero's kit and attributes are resolved in: a requested
/// facet that does not apply is dropped with all Destiny progress.
pub open spec fn effective_context(index: &DestinyConfigIndex, ctx: HeroBuildContext) -> HeroBuildContext {
    if ctx.destiny.facet_id > 0 && ctx.destiny.rank > 0 && !facet_active(index, ctx) {
        HeroBuildContext { destiny: DestinyState { rank: 0, level: 0, facet_id: 0 }, ..ctx }
    } else {
        ctx
    }
}

/// The effective context of a hero and whether its facet applies.
pub fn effective_destiny_context(index: &DestinyConfigIndex, context: &HeroBuildContext) -> (r: (
    HeroBuildContext,
    bool,
))
    ensures
        r.0 == effective_context(index, *context),
        r.1 == facet_active(index, *context),
{
    let facet_id = context.destiny.facet_id;
    let facet_rank = context.destiny.rank;
    let facet_requested = facet_id > 0 && facet_rank > 0;
    let facet_owned = match index.hero(context.hero_id) {
        Some(hero) => contains_id(hero.facet_ids.as_slice(), facet_id),
        None => false,
    };
    let facet_rank_exists = index.facet(facet_id, facet_rank).is_some();
    let active = facet_requested && facet_owned && facet_rank_exists;
    let mut effective = *context;
    if facet_requested && !active {
        effective.destiny = DestinyState { rank: 0, level: 0, facet_id: 0 };
    }
    (effective, active)
}

/// The highest ex skill level configured for a hero, or 0.
pub open spec fn max_ex_level(rows: Seq<SkillExLevel>, hero_id: i32) -> int
    decreases rows.len(),
{
    if rows.len() == 0 {
        0
    } else {
        let prev = max_ex_level(rows.drop_last(), hero_id);
        let r = rows.last();
        if r.hero_id == hero_id && r.skill_level > prev {
            r.skill_level as int
        } else {
            prev
        }
    }
}

proof fn lemma_max_ex_level_bounds(rows: Seq<SkillExLevel>, hero_id: i32)
    ensures
        0 <= max_ex_level(rows, hero_id) <= i32::MAX,
    decreases rows.len(),
{
    if rows.len() > 0 {
        lemma_max_ex_level_bounds(rows.drop_last(), hero_id);
    }
}

/// The message of an ex skill level above the configured maximum.
pub open spec fn ex_level_message(ctx: HeroBuildContext, max_level: int) -> Seq<char> {
    "ex skill level "@ + int_text(ctx.ex_skill_level as int) + " exceeds configured maximum "@
        + int_text(max_level) + " for hero "@ + int_text(ctx.hero_id as int)
}

/// Refuses an ex skill level above the hero's configured maximum (level 0
/// is always accepted).
pub fn validate_ex_skill_level(game: &GameDB, context: &HeroBuildContext) -> (r: Result<
    (),
    DestinyResolveError,
>)
    ensures
        context.ex_skill_level == 0 || context.ex_skill_level <= max_ex_level(
            game.skill_ex_level@,
            context.hero_id,
        ) ==> r is Ok,
        context.ex_skill_level != 0 && context.ex_skill_level > max_ex_level(
            game.skill_ex_level@,
            context.hero_id,
        ) ==> (r matches Err(DestinyResolveError::InvalidState(m)) && m@ == ex_level_message(
            *context,
            max_ex_level(game.skill_ex_level@, context.hero_id),
        )),
{
    if context.ex_skill_level == 0 {
        return Ok(());
    }
    let rows = &game.skill_ex_level;
    let mut max_level: i32 = 0;
    let mut i: usize = 0;
    while i < rows.len()
        invariant
            i <= rows@.len(),
            rows == &game.skill_ex_level,
            max_level == max_ex_level(rows@.take(i as int), context.hero_id),
        decreases rows@.len() - i,
    {
        assert(rows@.take(i as int + 1).drop_last() =~= rows@.take(i as int));
        proof {
            lemma_max_ex_level_bounds(rows@.take(i as int), context.hero_id);
        }
        let row = &rows[i];
        if row.hero_id == context.hero_id && row.skill_level > max_level {
            max_level = row.skill_level;
        }
        i = i + 1;
    }
    assert(rows@.take(rows@.len() as int) =~= rows@);
    if context.ex_skill_level > max_level {
        let mut m = String::from_str("ex skill level ");
        push_int(&mut m, context.ex_skill_level as i64);
        push_str(&mut m, " exceeds configured maximum ");
        push_int(&mut m, max_level as i64);
        push_str(&mut m, " for hero ");
        push_int(&mut m, context.hero_id as i64);
        return Err(DestinyResolveError::InvalidState(m));
    }
    Ok(())
}

/// The position of the first value equal to `a` or `b`, or `-1`.
pub open spec fn first_of_two(p: Seq<i32>, a: i32, b: i32) -> int
    decreases p.len(),
{
    if p.len() == 0 {
        -1
    } else {
        let i = first_of_two(p.drop_last(), a, b);
        if i >= 0 {
            i
        } else if p.last() == a || p.last() == b {
            p.len() - 1
        } else {
            -1
        }
    }
}

proof fn lemma_first_of_two(p: Seq<i32>, a: i32, b: i32)
    ensures
        -1 <= first_of_two(p, a, b) < p.len(),
        first_of_two(p, a, b) >= 0 ==> (p[first_of_two(p, a, b)] == a || p[first_of_two(p, a, b)]
            == b),
        forall|j: int|
            0 <= j < p.len() && (first_of_two(p, a, b) < 0 || j < first_of_two(p, a, b)) ==> p[j]
                != a && p[j] != b,
    decreases p.len(),
{
    if p.len() > 0 {
        lemma_first_of_two(p.drop_last(), a, b);
        assert forall|j: int| 0 <= j < p.drop_last().len() implies p.drop_last()[j] == p[j] by {}
    }
}

/// `p` with `x` appended unless it is already there.
pub open spec fn push_missing(p: Seq<i32>, x: i32) -> Seq<i32> {
    if p.contains(x) {
        p
    } else {
        p.push(x)
    }
}

/// The passives after the compatibility rules: hero 3088 with an active
/// facet swaps its first 30880164 (or 308801641) for 308801611 and gains
/// 308801911, 308801921 and 308802111; hero 3126 gains 31260191. A passive
/// already present is not added twice.
pub open spec fn compatibility_passives(hero_id: i32, facet_active: bool, p: Seq<i32>) -> Seq<i32> {
    let p1 = if hero_id == 3088 && facet_active {
        let i = first_of_two(p, 30880164, 308801641);
        let q = if i >= 0 {
            p.update(i, 308801611)
        } else {
            p
        };
        push_missing(push_missing(push_missing(q, 308801911), 308801921), 308802111)
    } else {
        p
    };
    if hero_id == 3126 {
        push_missing(p1, 31260191)
    } else {
        p1
    }
}

fn push_if_missing(passives: &mut Vec<i32>, x: i32)
    ensures
        final(passives)@ == push_missing(old(passives)@, x),
{
    if !contains_id(passives.as_slice(), x) {
        passives.push(x);
    }
}

/// Applies the compatibility passive rules to a kit.
pub fn apply_compatibility_passives(
    context: &HeroBuildContext,
    destiny_facet_active: bool,
    kit: &mut ResolvedHeroKit,
)
    ensures
        final(kit)@.passives == compatibility_passives(
            context.hero_id,
            destiny_facet_active,
            old(kit)@.passives,
        ),
        final(kit)@.skill_group_1 == old(kit)@.skill_group_1,
        final(kit)@.skill_group_2 == old(kit)@.skill_group_2,
        final(kit)@.ultimate == old(kit)@.ultimate,
        final(kit)@.power_infos == old(kit)@.power_infos,
        final(kit)@.trace == old(kit)@.trace,
{
    if context.hero_id == 3088 && destiny_facet_active {
        proof {
            lemma_first_of_two(kit.passives@, 30880164, 308801641);
        }
        let mut i: usize = 0;
        while i < kit.passives.len() && kit.passives[i] != 30880164 && kit.passives[i] != 308801641
            invariant
                i <= kit.passives@.len(),
                forall|j: int| 0 <= j < i ==> kit.passives@[j] != 30880164 && kit.passives@[j]
                    != 308801641,
            decreases kit.passives@.len() - i,
        {
            i = i + 1;
        }
        if i < kit.passives.len() {
            assert(first_of_two(kit.passives@, 30880164, 308801641) == i);
            kit.passives.set(i, 308801611);
        } else {
            assert(first_of_two(kit.passives@, 30880164, 308801641) < 0) by {
                let k = first_of_two(kit.passives@, 30880164, 308801641);
                if k >= 0 {
                    assert(kit.passives@[k] == 30880164 || kit.passives@[k] == 308801641);
                }
            }
        }
        push_if_missing(&mut kit.passives, 308801911);
        push_if_missing(&mut kit.passives, 308801921);
        push_if_missing(&mut kit.passives, 308802111);
    }
    if context.hero_id == 3126 {
        push_if_missing(&mut kit.passives, 31260191);
    }
}

/// The passives an equipment grants: its non-zero skills of the first
/// `equip_skill` row with its id.
pub open spec fn equipment_passives(rows: Seq<EquipSkill>, equip_id: Option<i32>) -> Seq<i32> {
    match equip_id {
        None => Seq::empty(),
        Some(eid) => if exists|i: int| 0 <= i < rows.len() && (#[trigger] rows[i]).id == eid {
            let i = choose|i: int|
                0 <= i < rows.len() && (#[trigger] rows[i]).id == eid && forall|j: int|
                    0 <= j < i ==> (#[trigger] rows[j]).id != eid;
            let e = rows[i];
            (if e.skill != 0 {
                seq![e.skill]
            } else {
                Seq::empty()
            }) + (if e.skill2 != 0 {
                seq![e.skill2]
            } else {
                Seq::empty()
            })
        } else {
            Seq::empty()
        },
    }
}

/// Appends the passives of the hero's equipment.
pub fn append_equipment_passives(game: &GameDB, equip_id: Option<i32>, passives: &mut Vec<i32>)
    ensures
        final(passives)@ == old(passives)@ + equipment_passives(game.equip_skill@, equip_id),
{
    let eid = match equip_id {
        Some(e) => e,
        None => {
            assert(old(passives)@ + Seq::<i32>::empty() =~= old(passives)@);
            return;
        },
    };
    let rows = &game.equip_skill;
    let mut i: usize = 0;
    while i < rows.len() && rows[i].id != eid
        invariant
            i <= rows@.len(),
            rows == &game.equip_skill,
            forall|j: int| 0 <= j < i ==> (#[trigger] rows@[j]).id != eid,
        decreases rows@.len() - i,
    {
        i = i + 1;
    }
    if i == rows.len() {
        assert(old(passives)@ + Seq::<i32>::empty() =~= old(passives)@);
        return;
    }
    let e = rows[i];
    proof {
        let k = choose|k: int|
            0 <= k < rows@.len() && (#[trigger] rows@[k]).id == eid && forall|j: int|
                0 <= j < k ==> (#[trigger] rows@[j]).id != eid;
        assert(rows@[i as int].id == eid);
        if k < i {
            assert(rows@[k].id != eid);
        }
        if i < k {
            assert(rows@[i as int].id != eid);
        }
    }
    let ghost before = passives@;
    if e.skill != 0 {
        passives.push(e.skill);
    }
    if e.skill2 != 0 {
        passives.push(e.skill2);
    }
    assert(passives@ =~= before + equipment_passives(game.equip_skill@, equip_id));
}

/// The ex point a hero enters battle with.
pub fn calculate_initial_ex_point(hero_id: i32, passives: &[i32]) -> (p: i32)
    ensures
        p == 0,
{
    0
}

/// The ex point type of a hero: 1 for hero 3120, 2 for 3123, 3 for 3122 and
/// 3124, 0 for the others.
pub open spec fn ex_point_type_of(hero_id: i32) -> i32 {
    if hero_id == 3120 {
        1i32
    } else if hero_id == 3123 {
        2i32
    } else if hero_id == 3124 || hero_id == 3122 {
        3i32
    } else {
        0i32
    }
}

/// The ex point type of a hero: 1 for hero 3120, 2 for 3123, 3 for 3122 and
/// 3124, 0 for the others.
pub fn detect_ex_point_type(hero_id: i32) -> (t: i32)
    ensures
        t == ex_point_type_of(hero_id),
{
    match hero_id {
        3120 => 1,
        3123 => 2,
        3124 | 3122 => 3,
        _ => 0,
    }
}

/// A hero's career from its `character` row, or 0.
pub open spec fn career_of(game: &GameDB, hero_id: i32) -> i32 {
    match game.spec_character(hero_id) {
        Some(ch) => ch.career,
        None => 0,
    }
}

/// A hero's career from its `character` row, or 0.
pub fn get_hero_career(game: &GameDB, hero_id: i32) -> (c: i32)
    ensures
        c == career_of(game, hero_id),
{
    match game.character_row(hero_id) {
        Some(ch) => ch.career,
        None => 0,
    }
}

/// What resolving a hero's kit in its effective context gives under an
/// index: a refused state, the kit of `hero_kit` with the compatibility
/// passives applied, or a configuration error.
pub open spec fn entity_kit_result(
    index: &DestinyConfigIndex,
    game: &GameDB,
    ctx: HeroBuildContext,
    r: &Result<ResolvedHeroKit, DestinyResolveError>,
) -> bool {
    let eff = effective_context(index, ctx);
    if eff.ex_skill_level < 0 {
        *r matches Err(DestinyResolveError::InvalidState(m)) && m@ == negative_ex_message(eff)
    } else if eff.destiny.rank < 0 || eff.destiny.facet_id < 0 {
        *r matches Err(DestinyResolveError::InvalidState(m)) && m@ == negative_destiny_message(eff)
    } else {
        match hero_kit(index, game, eff) {
            Ok(k) => r matches Ok(kit) && kit@ == KitView {
                passives: compatibility_passives(ctx.hero_id, facet_active(index, ctx), k.passives),
                ..k
            },
            Err(t) => *r matches Err(DestinyResolveError::InvalidConfig(m)) && m@ == t,
        }
    }
}

/// What resolving a battle hero's kit gives: the configuration index must
/// build and the ex skill level must be configured; then the kit is that of
/// the effective context under the index.
pub open spec fn entity_kit_outcome(
    game: &GameDB,
    context: HeroBuildContext,
    r: &Result<ResolvedHeroKit, DestinyResolveError>,
) -> bool {
    &&& !game_db_indexable(game) ==> (*r matches Err(DestinyResolveError::InvalidConfig(m))
        && index_fault(game) matches Some(f) && m@ == fault_text(f))
    &&& game_db_indexable(game) && context.ex_skill_level != 0 && context.ex_skill_level
        > max_ex_level(game.skill_ex_level@, context.hero_id) ==> (*r matches Err(
        DestinyResolveError::InvalidState(m),
    ) && m@ == ex_level_message(context, max_ex_level(game.skill_ex_level@, context.hero_id)))
    &&& game_db_indexable(game) && (context.ex_skill_level == 0 || context.ex_skill_level
        <= max_ex_level(game.skill_ex_level@, context.hero_id)) ==> exists|
        index: DestinyConfigIndex,
    | #[trigger] index.built_from(game) && entity_kit_result(&index, game, context, r)
}

/// The kit a battle hero enters with: the configuration index must build,
/// the ex skill level must be configured, the kit is resolved in the
/// effective context, then the compatibility passives apply.
pub fn resolve_entity_kit(game: &GameDB, context: &HeroBuildContext) -> (r: Result<
    ResolvedHeroKit,
    DestinyResolveError,
>)
    ensures
        entity_kit_outcome(game, *context, &r),
{
    let index = match DestinyConfigIndex::try_from_game_db(game) {
        Ok(index) => index,
        Err(error) => return Err(DestinyResolveError::InvalidConfig(error.message())),
    };
    match validate_ex_skill_level(game, context) {
        Ok(()) => {},
        Err(e) => return Err(e),
    }
    let (effective, active) = effective_destiny_context(&index, context);
    let mut kit = match resolve_hero_kit(&index, game, &effective) {
        Ok(kit) => kit,
        Err(e) => {
            let r = Err(e);
            assert(entity_kit_result(&index, game, *context, &r));
            return r;
        },
    };
    apply_compatibility_passives(context, active, &mut kit);
    let r = Ok(kit);
    assert(entity_kit_result(&index, game, *context, &r));
    r
}

/// What resolving a battle hero's Destiny attributes gives: the
/// configuration index must build and the ex skill level must be
/// configured; then the attributes are those of the effective context.
pub open spec fn entity_attributes_result(
    game: &GameDB,
    context: HeroBuildContext,
    base: HeroBaseAttributes,
    r: &Result<ResolvedDestinyAttributes, DestinyResolveError>,
) -> bool {
    &&& !game_db_indexable(game) ==> (r matches Err(DestinyResolveError::InvalidConfig(m))
        && index_fault(game) matches Some(f) && m@ == fault_text(f))
    &&& game_db_indexable(game) && context.ex_skill_level != 0 && context.ex_skill_level
        > max_ex_level(game.skill_ex_level@, context.hero_id) ==> (r matches Err(
        DestinyResolveError::InvalidState(m),
    ) && m@ == ex_level_message(context, max_ex_level(game.skill_ex_level@, context.hero_id)))
    &&& game_db_indexable(game) && (context.ex_skill_level == 0 || context.ex_skill_level
        <= max_ex_level(game.skill_ex_level@, context.hero_id)) ==> exists|
        index: DestinyConfigIndex,
    | #[trigger] index.built_from(game) && destiny_attributes_result(
        &index,
        context.hero_id,
        effective_context(&index, context).destiny,
        base,
        r,
    )
}

/// The Destiny attributes of a battle hero, resolved in its effective
/// context.
pub fn resolve_entity_destiny_attributes(
    game: &GameDB,
    context: &HeroBuildContext,
    base: HeroBaseAttributes,
) -> (r: Result<ResolvedDestinyAttributes, DestinyResolveError>)
    ensures
        entity_attributes_result(game, *context, base, &r),
{
    let index = match DestinyConfigIndex::try_from_game_db(game) {
        Ok(index) => index,
        Err(error) => return Err(DestinyResolveError::InvalidConfig(error.message())),
    };
    match validate_ex_skill_level(game, context) {
        Ok(()) => {},
        Err(e) => return Err(e),
    }
    let (effective, _) = effective_destiny_context(&index, context);
    let r = resolve_destiny_attributes(&index, effective.hero_id, effective.destiny, base);
    assert(index.built_from(game));
    r
}

} // verus!
