//! What the battle entities of trial heroes and monsters are built from, and
//! the defender team of an episode.
use crate::battle::attributes::{destiny_attributes_result, ResolvedDestinyAttributes};
use crate::battle::entity::{
    append_equipment_passives, calculate_initial_ex_point, career_of, detect_ex_point_type,
    entity_attributes_result, entity_kit_outcome, entity_kit_result, equipment_passives,
    ex_point_type_of, get_hero_career, hero_build_context, max_ex_level, record_context,
    resolve_entity_destiny_attributes, resolve_entity_kit, HeroRecord,
};
use crate::battle::fight::{enemy_entity_uid, monster_group, parse_monster_skill_group, parsed_ids};
use crate::battle::kit::ResolvedHeroKit;
use crate::battle::types::{
    resolve_error_text, DestinyResolveError, DestinyState, HeroBaseAttributes, HeroBuildContext,
    HeroSource,
};
use crate::battle_tables::{
    Battle, BattleView, CharacterLevel, Episode, HeroTrial, Monster, MonsterSkillTemplate,
    MonsterSkillTemplateView, MonsterTemplate,
};
use crate::config::{game_db_indexable, CharacterView, DestinyConfigIndex, GameDB};
use crate::table::{find_row, lookup, rows_view};
use crate::text::{
    int_text, parse_i32, parse_i32_spec, pieces_view, push_int, push_str, split, split_chars,
    str_chars,
};
use vstd::prelude::*;

verus! {

/// The five stats of a battle entity.
#[derive(Clone, Copy, Debug, PartialEq, Eq)]
pub struct EntityStats {
    pub hp: i32,
    pub attack: i32,
    pub defense: i32,
    pub mdefense: i32,
    pub technic: i32,
}

/// Why a battle entity could not be built.
#[derive(Debug)]
pub enum BuildError {
    TrialNotFound { trial_id: i32 },
    HeroNotFound { hero_id: i32 },
    NoLevelData { hero_id: i32, level: i32 },
    Kit { trial_id: i32, hero_id: i32, error: DestinyResolveError },
    Attributes { trial_id: i32, hero_id: i32, error: DestinyResolveError },
    MonsterNotFound { monster_id: i32 },
    TemplateNotFound { template: i32, monster_id: i32 },
    SkillTemplateNotFound { skill_template: i32, monster_id: i32 },
    EpisodeNotFound { episode_id: i32 },
    BattleNotFound { battle_id: i32 },
}

/// The message of a build error.
pub open spec fn build_error_text(e: BuildError) -> Seq<char> {
    match e {
        BuildError::TrialNotFound { trial_id } => "Trial data not found for ID "@ + int_text(
            trial_id as int,
        ),
        BuildError::HeroNotFound { hero_id } => "Hero config not found for hero_id "@ + int_text(
            hero_id as int,
        ),
        BuildError::NoLevelData { hero_id, level } => "No level data found for hero_id "@
            + int_text(hero_id as int) + " (tried level "@ + int_text(level as int)
            + " and level 1)"@,
        BuildError::Kit { trial_id, hero_id, error } => "failed to resolve trial "@ + int_text(
            trial_id as int,
        ) + " hero "@ + int_text(hero_id as int) + " kit: "@ + resolve_error_text(error),
        BuildError::Attributes { trial_id, hero_id, error } => "failed to resolve trial "@
            + int_text(trial_id as int) + " hero "@ + int_text(hero_id as int) + " attributes: "@
            + resolve_error_text(error),
        BuildError::MonsterNotFound { monster_id } => "Monster "@ + int_text(monster_id as int)
            + " not found"@,
        BuildError::TemplateNotFound { template, monster_id } => "Monster template "@ + int_text(
            template as int,
        ) + " not found (monster "@ + int_text(monster_id as int) + ")"@,
        BuildError::SkillTemplateNotFound { skill_template, monster_id } => "Monster skill template "@
            + int_text(skill_template as int) + " not found (monster "@ + int_text(
            monster_id as int,
        ) + ")"@,
        BuildError::EpisodeNotFound { episode_id } => "Episode "@ + int_text(episode_id as int)
            + " not found"@,
        BuildError::BattleNotFound { battle_id } => "Battle "@ + int_text(battle_id as int)
            + " not found"@,
    }
}

impl BuildError {
    /// The error's message.
    pub fn message(&self) -> (m: String)
        ensures
            m@ == build_error_text(*self),
    {
        match self {
            BuildError::TrialNotFound { trial_id } => {
                let mut m = String::from_str("Trial data not found for ID ");
                push_int(&mut m, *trial_id as i64);
                m
            },
            BuildError::HeroNotFound { hero_id } => {
                let mut m = String::from_str("Hero config not found for hero_id ");
                push_int(&mut m, *hero_id as i64);
                m
            },
            BuildError::NoLevelData { hero_id, level } => {
                let mut m = String::from_str("No level data found for hero_id ");
                push_int(&mut m, *hero_id as i64);
                push_str(&mut m, " (tried level ");
                push_int(&mut m, *level as i64);
                push_str(&mut m, " and level 1)");
                m
            },
            BuildError::Kit { trial_id, hero_id, error } => {
                let mut m = String::from_str("failed to resolve trial ");
                push_int(&mut m, *trial_id as i64);
                push_str(&mut m, " hero ");
                push_int(&mut m, *hero_id as i64);
                push_str(&mut m, " kit: ");
                let e = error.message();
                push_str(&mut m, e.as_str());
                m
            },
            BuildError::Attributes { trial_id, hero_id, error } => {
                let mut m = String::from_str("failed to resolve trial ");
                push_int(&mut m, *trial_id as i64);
                push_str(&mut m, " hero ");
                push_int(&mut m, *hero_id as i64);
                push_str(&mut m, " attributes: ");
                let e = error.message();
                push_str(&mut m, e.as_str());
                m
            },
            BuildError::MonsterNotFound { monster_id } => {
                let mut m = String::from_str("Monster ");
                push_int(&mut m, *monster_id as i64);
                push_str(&mut m, " not found");
                m
            },
            BuildError::TemplateNotFound { template, monster_id } => {
                let mut m = String::from_str("Monster template ");
                push_int(&mut m, *template as i64);
                push_str(&mut m, " not found (monster ");
                push_int(&mut m, *monster_id as i64);
                push_str(&mut m, ")");
                m
            },
            BuildError::SkillTemplateNotFound { skill_template, monster_id } => {
                let mut m = String::from_str("Monster skill template ");
                push_int(&mut m, *skill_template as i64);
                push_str(&mut m, " not found (monster ");
                push_int(&mut m, *monster_id as i64);
                push_str(&mut m, ")");
                m
            },
            BuildError::EpisodeNotFound { episode_id } => {
                let mut m = String::from_str("Episode ");
                push_int(&mut m, *episode_id as i64);
                push_str(&mut m, " not found");
                m
            },
            BuildError::BattleNotFound { battle_id } => {
                let mut m = String::from_str("Battle ");
                push_int(&mut m, *battle_id as i64);
                push_str(&mut m, " not found");
                m
            },
        }
    }
}

// ---------------------------------------------------------------------------
// Trial heroes
// ---------------------------------------------------------------------------

/// A built trial hero: the context its kit and attributes were resolved in,
/// its base stats, its kit, its Destiny modifier and its final stats.
pub struct TrialHeroBuild {
    pub trial: HeroTrial,
    pub career: i32,
    pub context: HeroBuildContext,
    pub base: EntityStats,
    pub kit: ResolvedHeroKit,
    pub modifier: ResolvedDestinyAttributes,
    pub attr: EntityStats,
}

/// The build context of a trial: the trial's hero, skin, ex skill level and
/// Destiny (rank and facet, at node 1 when both are set), the character's
/// rank and hero type.
pub open spec fn trial_context(trial: HeroTrial, hero: CharacterView, is_substitute: bool) -> HeroBuildContext {
    let has_destiny = trial.facetslevel > 0 && trial.facets_id > 0;
    HeroBuildContext {
        hero_id: trial.hero_id,
        skin: trial.skin,
        rank: hero.rank,
        ex_skill_level: trial.ex_skill_lv,
        destiny: DestinyState {
            rank: trial.facetslevel,
            level: if has_destiny {
                1
            } else {
                0
            },
            facet_id: trial.facets_id,
        },
        is_substitute,
        hero_type: hero.hero_type,
        source: HeroSource::Trial,
    }
}

/// The four attributes of stats that Destiny percentages are taken of.
pub open spec fn base_attributes(s: EntityStats) -> HeroBaseAttributes {
    HeroBaseAttributes { hp: s.hp, attack: s.attack, defense: s.defense, mdefense: s.mdefense }
}

/// A hero's stats at `level`, falling back to level 1.
pub open spec fn level_stats(game: &GameDB, hero_id: i32, level: i32) -> Option<EntityStats> {
    let rows = game.character_level@;
    let row = match find_row::<CharacterLevel>(rows, seq![hero_id, level]) {
        Some(r) => Some(r),
        None => find_row::<CharacterLevel>(rows, seq![hero_id, 1]),
    };
    match row {
        Some(r) => Some(
            EntityStats { hp: r.hp, attack: r.atk, defense: r.def, mdefense: r.mdef, technic: r.technic },
        ),
        None => None,
    }
}

/// `a + b` saturated to the `i32` range.
pub open spec fn sat_add(a: i32, b: i32) -> i32 {
    if a + b > i32::MAX {
        i32::MAX
    } else if a + b < i32::MIN {
        i32::MIN
    } else {
        (a + b) as i32
    }
}

fn saturating_add(a: i32, b: i32) -> (r: i32)
    ensures
        r == sat_add(a, b),
{
    let s = a as i64 + b as i64;
    if s > i32::MAX as i64 {
        i32::MAX
    } else if s < i32::MIN as i64 {
        i32::MIN
    } else {
        s as i32
    }
}

proof fn lemma_copy_rows_view<T: Copy + View<V = T>>(rows: Seq<T>)
    requires
        forall|x: T| #[trigger] x@ == x,
    ensures
        rows_view(rows) == rows,
{
    assert(rows_view(rows) =~= rows);
}

/// Builds the battle entity data of trial `trial_id`: the trial row, the
/// hero's character and level stats, the kit and Destiny modifier resolved
/// in the trial's context, and the stats with the modifier added
/// (saturating).
pub fn build_trial_hero(game: &GameDB, trial_id: i32, is_substitute: bool) -> (r: Result<
    TrialHeroBuild,
    BuildError,
>)
    ensures
        match find_row::<HeroTrial>(game.hero_trial@, seq![trial_id]) {
            None => r matches Err(BuildError::TrialNotFound { trial_id: t }) && t == trial_id,
            Some(trial) => match game.spec_character(trial.hero_id) {
                None => r matches Err(BuildError::HeroNotFound { hero_id: h }) && h == trial.hero_id,
                Some(hero) => match level_stats(game, trial.hero_id, trial.level) {
                    None => r matches Err(BuildError::NoLevelData { hero_id: h, level: l }) && h
                        == trial.hero_id && l == trial.level,
                    Some(base) => {
                        let ctx = trial_context(trial, hero, is_substitute);
                        match r {
                            Ok(b) => {
                                &&& b.trial == trial && b.career == hero.career && b.context == ctx
                                    && b.base == base
                                &&& entity_kit_outcome(
                                    game,
                                    ctx,
                                    &Ok::<ResolvedHeroKit, DestinyResolveError>(b.kit),
                                )
                                &&& entity_attributes_result(
                                    game,
                                    ctx,
                                    base_attributes(base),
                                    &Ok::<ResolvedDestinyAttributes, DestinyResolveError>(b.modifier),
                                )
                                &&& b.attr == EntityStats {
                                    hp: sat_add(base.hp, b.modifier.hp),
                                    attack: sat_add(base.attack, b.modifier.attack),
                                    defense: sat_add(base.defense, b.modifier.defense),
                                    mdefense: sat_add(base.mdefense, b.modifier.mdefense),
                                    technic: base.technic,
                                }
                            },
                            Err(BuildError::Kit { trial_id: t, hero_id: h, error }) => t == trial_id
                                && h == trial.hero_id && entity_kit_outcome(
                                game,
                                ctx,
                                &Err::<ResolvedHeroKit, DestinyResolveError>(error),
                            ),
                            Err(BuildError::Attributes { trial_id: t, hero_id: h, error }) => t
                                == trial_id && h == trial.hero_id && (exists|k: ResolvedHeroKit|
                                #[trigger] entity_kit_outcome(
                                    game,
                                    ctx,
                                    &Ok::<ResolvedHeroKit, DestinyResolveError>(k),
                                )) && entity_attributes_result(
                                game,
                                ctx,
                                base_attributes(base),
                                &Err::<ResolvedDestinyAttributes, DestinyResolveError>(error),
                            ),
                            Err(_) => false,
                        }
                    },
                },
            },
        },
{
    proof {
        lemma_copy_rows_view(game.hero_trial@);
        lemma_copy_rows_view(game.character_level@);
    }
    let key = [trial_id];
    assert(key@ =~= seq![trial_id]);
    let trial = match lookup(&game.hero_trial, &key) {
        Some(t) => *t,
        None => return Err(BuildError::TrialNotFound { trial_id }),
    };
    let hero = match game.character_row(trial.hero_id) {
        Some(h) => h,
        None => return Err(BuildError::HeroNotFound { hero_id: trial.hero_id }),
    };
    let exact = [trial.hero_id, trial.level];
    assert(exact@ =~= seq![trial.hero_id, trial.level]);
    let first = [trial.hero_id, 1];
    assert(first@ =~= seq![trial.hero_id, 1]);
    let level_row = match lookup(&game.character_level, &exact) {
        Some(row) => row,
        None => match lookup(&game.character_level, &first) {
            Some(row) => row,
            None => {
                return Err(BuildError::NoLevelData { hero_id: trial.hero_id, level: trial.level });
            },
        },
    };
    let base = EntityStats {
        hp: level_row.hp,
        attack: level_row.atk,
        defense: level_row.def,
        mdefense: level_row.mdef,
        technic: level_row.technic,
    };
    let has_destiny = trial.facetslevel > 0 && trial.facets_id > 0;
    let context = HeroBuildContext {
        hero_id: trial.hero_id,
        skin: trial.skin,
        rank: hero.rank,
        ex_skill_level: trial.ex_skill_lv,
        destiny: DestinyState {
            rank: trial.facetslevel,
            level: if has_destiny {
                1
            } else {
                0
            },
            facet_id: trial.facets_id,
        },
        is_substitute,
        hero_type: hero.hero_type,
        source: HeroSource::Trial,
    };
    let kit = match resolve_entity_kit(game, &context) {
        Ok(kit) => kit,
        Err(error) => {
            return Err(BuildError::Kit { trial_id, hero_id: trial.hero_id, error });
        },
    };
    let attrs = HeroBaseAttributes {
        hp: base.hp,
        attack: base.attack,
        defense: base.defense,
        mdefense: base.mdefense,
    };
    let modifier = match resolve_entity_destiny_attributes(game, &context, attrs) {
        Ok(m) => m,
        Err(error) => {
            return Err(BuildError::Attributes { trial_id, hero_id: trial.hero_id, error });
        },
    };
    let attr = EntityStats {
        hp: saturating_add(base.hp, modifier.hp),
        attack: saturating_add(base.attack, modifier.attack),
        defense: saturating_add(base.defense, modifier.defense),
        mdefense: saturating_add(base.mdefense, modifier.mdefense),
        technic: base.technic,
    };
    proof {
        assert(game_db_indexable(game));
    }
    Ok(TrialHeroBuild { trial, career: hero.career, context, base, kit, modifier, attr })
}

/// The stats with the Destiny attributes `m` added, saturating (technic
/// unchanged).
pub open spec fn with_destiny(attr: EntityStats, m: ResolvedDestinyAttributes) -> EntityStats {
    EntityStats {
        hp: sat_add(attr.hp, m.hp),
        attack: sat_add(attr.attack, m.attack),
        defense: sat_add(attr.defense, m.defense),
        mdefense: sat_add(attr.mdefense, m.mdefense),
        technic: attr.technic,
    }
}

/// Adds an owned hero's Destiny attributes to its stats. A hero without an
/// active Destiny (rank or level 0) keeps its stats and nothing is resolved;
/// otherwise the attributes are resolved from `base`, and stats stay as they
/// are when that fails. Returns the resolution, if one was made.
pub fn apply_destiny_entity_attributes(
    game: &GameDB,
    context: &HeroBuildContext,
    attr: &mut EntityStats,
    base: HeroBaseAttributes,
) -> (r: Option<Result<ResolvedDestinyAttributes, DestinyResolveError>>)
    ensures
        (context.destiny.rank == 0 || context.destiny.level == 0) ==> r is None && *final(attr)
            == *old(attr),
        !(context.destiny.rank == 0 || context.destiny.level == 0) ==> (r matches Some(res)
            && entity_attributes_result(game, *context, base, &res)),
        r matches Some(Ok(m)) ==> *final(attr) == with_destiny(*old(attr), m),
        r matches Some(Err(_)) ==> *final(attr) == *old(attr),
{
    if context.destiny.rank == 0 || context.destiny.level == 0 {
        return None;
    }
    let res = resolve_entity_destiny_attributes(game, context, base);
    match &res {
        Ok(m) => {
            *attr = EntityStats {
                hp: saturating_add(attr.hp, m.hp),
                attack: saturating_add(attr.attack, m.attack),
                defense: saturating_add(attr.defense, m.defense),
                mdefense: saturating_add(attr.mdefense, m.mdefense),
                technic: attr.technic,
            };
        },
        Err(_) => {},
    }
    Some(res)
}

// ---------------------------------------------------------------------------
// Owned heroes
// ---------------------------------------------------------------------------

/// A built owned hero: the context its kit and attributes were resolved in,
/// its kit, the passives it fights with (the kit's, then its equipment's), its
/// stats, the Destiny resolution made for them, and its per-hero constants.
pub struct OwnedHeroBuild {
    pub context: HeroBuildContext,
    pub kit: ResolvedHeroKit,
    pub passive_skill: Vec<i32>,
    pub attr: EntityStats,
    pub destiny: Option<Result<ResolvedDestinyAttributes, DestinyResolveError>>,
    pub ex_point: i32,
    pub ex_point_type: i32,
    pub career: i32,
}

/// Builds the battle entity data of a stored hero: its context, its kit
/// (a failure to resolve it is the build's error), its equipment's passives
/// after the kit's, its stats `attr` (those with equipment) with the Destiny
/// attributes resolved against `base` (those before equipment) added, and its
/// ex point, ex point type and career.
pub fn build_owned_hero(
    game: &GameDB,
    record: &HeroRecord,
    is_substitute: bool,
    equip_id: Option<i32>,
    attr: EntityStats,
    base: HeroBaseAttributes,
) -> (r: Result<OwnedHeroBuild, DestinyResolveError>)
    ensures
        ({
            let ctx = record_context(game, *record, is_substitute, HeroSource::Owned);
            match r {
                Err(e) => entity_kit_outcome(game, ctx, &Err::<ResolvedHeroKit, DestinyResolveError>(e)),
                Ok(b) => {
                    &&& b.context == ctx
                    &&& entity_kit_outcome(game, ctx, &Ok::<ResolvedHeroKit, DestinyResolveError>(b.kit))
                    &&& b.passive_skill@ == b.kit.passives@ + equipment_passives(game.equip_skill@, equip_id)
                    &&& (ctx.destiny.rank == 0 || ctx.destiny.level == 0) ==> b.destiny is None
                        && b.attr == attr
                    &&& !(ctx.destiny.rank == 0 || ctx.destiny.level == 0) ==> (b.destiny matches Some(
                        res,
                    ) && entity_attributes_result(game, ctx, base, &res))
                    &&& b.destiny matches Some(Ok(m)) ==> b.attr == with_destiny(attr, m)
                    &&& b.destiny matches Some(Err(_)) ==> b.attr == attr
                    &&& b.ex_point == 0
                    &&& b.ex_point_type == ex_point_type_of(record.hero_id)
                    &&& b.career == career_of(game, record.hero_id)
                },
            }
        }),
{
    let context = hero_build_context(game, record, is_substitute, HeroSource::Owned);
    let kit = match resolve_entity_kit(game, &context) {
        Ok(kit) => kit,
        Err(e) => return Err(e),
    };
    let mut passive_skill = kit.passives.clone();
    append_equipment_passives(game, equip_id, &mut passive_skill);
    let mut stats = attr;
    let destiny = apply_destiny_entity_attributes(game, &context, &mut stats, base);
    let ex_point = calculate_initial_ex_point(record.hero_id, passive_skill.as_slice());
    let ex_point_type = detect_ex_point_type(record.hero_id);
    let career = get_hero_career(game, record.hero_id);
    Ok(OwnedHeroBuild { context, kit, passive_skill, attr: stats, destiny, ex_point, ex_point_type, career })
}

// ---------------------------------------------------------------------------
// Monsters and the defender team
// ---------------------------------------------------------------------------

/// A built monster: its row, UID, level, stats and skills.
pub struct EnemyBuild {
    pub monster: Monster,
    pub uid: i64,
    pub position: i32,
    pub level: i32,
    pub stats: EntityStats,
    pub skill_group1: Vec<i32>,
    pub skill_group2: Vec<i32>,
    pub passives: Vec<i32>,
    pub ex_skill: i32,
    pub career: i32,
}

/// The template a monster's stats come from: its own, or its skill template
/// when it names none.
pub open spec fn stat_template_id(m: Monster) -> i32 {
    if m.template != 0 {
        m.template
    } else {
        m.skill_template
    }
}

/// The level a monster fights at: its true level when set.
pub open spec fn monster_level(m: Monster) -> i32 {
    if m.level_true != 0 {
        m.level_true
    } else {
        m.level
    }
}

/// `base + grow * level` fits `i32`, the product too.
pub open spec fn grows_in_range(base: i32, grow: i32, level: i32) -> bool {
    i32::MIN <= grow * level <= i32::MAX && i32::MIN <= base + grow * level <= i32::MAX
}

/// Every stat of the template at the level fits `i32`.
pub open spec fn template_fits(t: MonsterTemplate, level: i32) -> bool {
    &&& grows_in_range(t.life, t.life_grow, level)
    &&& grows_in_range(t.attack, t.attack_grow, level)
    &&& grows_in_range(t.defense, t.defense_grow, level)
    &&& grows_in_range(t.mdefense, t.mdefense_grow, level)
    &&& grows_in_range(t.technic, t.technic_grow, level)
}

/// A monster whose rows exist has stats that fit `i32` at its level.
pub open spec fn enemy_stats_fit(game: &GameDB, monster_id: i32) -> bool {
    match find_row::<Monster>(game.monster@, seq![monster_id]) {
        None => true,
        Some(m) => match find_row::<MonsterTemplate>(game.monster_template@, seq![stat_template_id(m)]) {
            None => true,
            Some(t) => template_fits(t, monster_level(m)),
        },
    }
}

/// The stats of the template at the level.
pub open spec fn template_stats(t: MonsterTemplate, level: i32) -> EntityStats {
    EntityStats {
        hp: (t.life + t.life_grow * level) as i32,
        attack: (t.attack + t.attack_grow * level) as i32,
        defense: (t.defense + t.defense_grow * level) as i32,
        mdefense: (t.mdefense + t.mdefense_grow * level) as i32,
        technic: (t.technic + t.technic_grow * level) as i32,
    }
}

/// The ultimate of a skill template: the first `#` piece of its unique
/// skill, or 0 when that does not parse.
pub open spec fn unique_skill_of(v: Seq<char>) -> i32 {
    match parse_i32_spec(split(v, '#')[0]) {
        Some(id) => id,
        None => 0,
    }
}

fn grow_stat(base: i32, grow: i32, level: i32) -> (v: i32)
    requires
        grows_in_range(base, grow, level),
    ensures
        v == base + grow * level,
{
    base + grow * level
}

fn checked_grow(base: i32, grow: i32, level: i32) -> (b: bool)
    ensures
        b == grows_in_range(base, grow, level),
{
    assert(-4611686018427387904 <= (grow as int) * (level as int) <= 4611686018427387904) by (nonlinear_arith)
        requires
            i32::MIN <= grow <= i32::MAX,
            i32::MIN <= level <= i32::MAX,
    ;
    let p = grow as i64 * level as i64;
    i32::MIN as i64 <= p && p <= i32::MAX as i64 && i32::MIN as i64 <= base as i64 + p && base as i64
        + p <= i32::MAX as i64
}

/// Whether a monster's stats fit `i32` at its level (trivially so when its
/// rows are missing).
pub fn monster_stats_fit(game: &GameDB, monster_id: i32) -> (b: bool)
    ensures
        b == enemy_stats_fit(game, monster_id),
{
    proof {
        lemma_copy_rows_view(game.monster@);
        lemma_copy_rows_view(game.monster_template@);
    }
    let key = [monster_id];
    assert(key@ =~= seq![monster_id]);
    let m = match lookup(&game.monster, &key) {
        Some(m) => *m,
        None => return true,
    };
    let template_id = if m.template != 0 {
        m.template
    } else {
        m.skill_template
    };
    let tkey = [template_id];
    assert(tkey@ =~= seq![template_id]);
    let t = match lookup(&game.monster_template, &tkey) {
        Some(t) => *t,
        None => return true,
    };
    let level = if m.level_true != 0 {
        m.level_true
    } else {
        m.level
    };
    checked_grow(t.life, t.life_grow, level) && checked_grow(t.attack, t.attack_grow, level)
        && checked_grow(t.defense, t.defense_grow, level) && checked_grow(
        t.mdefense,
        t.mdefense_grow,
        level,
    ) && checked_grow(t.technic, t.technic_grow, level)
}

/// Reads the `#`-separated ids of a value that parse.
fn parse_passive_ids(value: &str) -> (ids: Vec<i32>)
    ensures
        ids@ == parsed_ids(split(value@, '#')),
{
    let chars = str_chars(value);
    let parts = split_chars(chars.as_slice(), '#');
    let ghost pv = pieces_view(parts@);
    let mut ids: Vec<i32> = Vec::new();
    let mut i: usize = 0;
    while i < parts.len()
        invariant
            i <= parts@.len(),
            pv == pieces_view(parts@),
            pv == split(value@, '#'),
            ids@ == parsed_ids(pv.take(i as int)),
        decreases parts@.len() - i,
    {
        assert(pv.take(i as int + 1).drop_last() =~= pv.take(i as int));
        assert(pv.take(i as int + 1).last() == parts@[i as int]@);
        match parse_i32(parts[i].as_slice()) {
            Some(id) => {
                ids.push(id);
                assert(ids@ =~= parsed_ids(pv.take(i as int)) + seq![id]);
            },
            None => {
                assert(ids@ =~= parsed_ids(pv.take(i as int)) + Seq::<i32>::empty());
            },
        }
        i = i + 1;
    }
    assert(pv.take(parts@.len() as int) =~= pv);
    ids
}

/// Reads the ultimate of a skill template.
fn parse_unique_skill(value: &str) -> (id: i32)
    ensures
        id == unique_skill_of(value@),
{
    let chars = str_chars(value);
    let parts = split_chars(chars.as_slice(), '#');
    proof {
        crate::text::lemma_split_nonempty(value@, '#');
    }
    assert(parts@[0]@ == pieces_view(parts@)[0]);
    match parse_i32(parts[0].as_slice()) {
        Some(id) => id,
        None => 0,
    }
}

/// What building defender `idx` from monster `monster_id` gives: the
/// missing row, or its stats at its level from its template, its skill
/// groups, passives and ultimate from its skill template, and the defender
/// UID of `idx`.
#[verifier::opaque]
pub open spec fn enemy_result(
    game: &GameDB,
    monster_id: i32,
    idx: usize,
    position: i32,
    r: &Result<EnemyBuild, BuildError>,
) -> bool {
    match find_row::<Monster>(game.monster@, seq![monster_id]) {
        None => r matches Err(BuildError::MonsterNotFound { monster_id: m }) && m == monster_id,
        Some(m) => match find_row::<MonsterTemplate>(game.monster_template@, seq![stat_template_id(m)]) {
            None => r matches Err(BuildError::TemplateNotFound { template: t, monster_id: x }) && t
                == stat_template_id(m) && x == monster_id,
            Some(t) => match find_row::<MonsterSkillTemplate>(
                rows_view(game.monster_skill_template@),
                seq![m.skill_template],
            ) {
                None => r matches Err(BuildError::SkillTemplateNotFound { skill_template: s, monster_id: x })
                    && s == m.skill_template && x == monster_id,
                Some(st) => r matches Ok(b) && b.monster == m && b.uid == -1001 - idx && b.position
                    == position && b.level == monster_level(m) && b.stats == template_stats(
                    t,
                    monster_level(m),
                ) && b.skill_group1@ == monster_group(st.active_skill, 1) && b.skill_group2@
                    == monster_group(st.active_skill, 2) && b.passives@ == parsed_ids(
                    split(st.passive_skill, '#'),
                ) && b.ex_skill == unique_skill_of(st.unique_skill) && b.career == st.career,
            },
        },
    }
}

/// Builds defender `idx` from monster `monster_id`: its stats at its level
/// from its template, its skill groups, passives and ultimate from its skill
/// template, and the defender UID of `idx`.
#[verifier::rlimit(60)]
pub fn build_enemy(game: &GameDB, monster_id: i32, idx: usize, position: i32) -> (r: Result<
    EnemyBuild,
    BuildError,
>)
    requires
        enemy_stats_fit(game, monster_id),
        idx <= i64::MAX - 1000,
    ensures
        enemy_result(game, monster_id, idx, position, &r),
        r matches Ok(b) ==> b.monster.id == monster_id && b.uid == -1001 - idx && b.position
            == position,
        r matches Err(e) ==> match e {
            BuildError::MonsterNotFound { monster_id: m } => m == monster_id,
            BuildError::TemplateNotFound { monster_id: m, .. } => m == monster_id,
            BuildError::SkillTemplateNotFound { monster_id: m, .. } => m == monster_id,
            _ => false,
        },
{
    proof {
        reveal(enemy_result);
        lemma_copy_rows_view(game.monster@);
        lemma_copy_rows_view(game.monster_template@);
    }
    let key = [monster_id];
    assert(key@ =~= seq![monster_id]);
    let monster = match lookup(&game.monster, &key) {
        Some(m) => *m,
        None => return Err(BuildError::MonsterNotFound { monster_id }),
    };
    let template_id = if monster.template != 0 {
        monster.template
    } else {
        monster.skill_template
    };
    let tkey = [template_id];
    assert(tkey@ =~= seq![template_id]);
    let template = match lookup(&game.monster_template, &tkey) {
        Some(t) => *t,
        None => return Err(BuildError::TemplateNotFound { template: template_id, monster_id }),
    };
    let skey = [monster.skill_template];
    assert(skey@ =~= seq![monster.skill_template]);
    let skill_template = match lookup(&game.monster_skill_template, &skey) {
        Some(s) => s,
        None => {
            return Err(
                BuildError::SkillTemplateNotFound {
                    skill_template: monster.skill_template,
                    monster_id,
                },
            );
        },
    };
    let level = if monster.level_true != 0 {
        monster.level_true
    } else {
        monster.level
    };
    let stats = EntityStats {
        hp: grow_stat(template.life, template.life_grow, level),
        attack: grow_stat(template.attack, template.attack_grow, level),
        defense: grow_stat(template.defense, template.defense_grow, level),
        mdefense: grow_stat(template.mdefense, template.mdefense_grow, level),
        technic: grow_stat(template.technic, template.technic_grow, level),
    };
    let skill_group1 = parse_monster_skill_group(skill_template.active_skill.as_str(), 1);
    let skill_group2 = parse_monster_skill_group(skill_template.active_skill.as_str(), 2);
    let passives = parse_passive_ids(skill_template.passive_skill.as_str());
    let ex_skill = parse_unique_skill(skill_template.unique_skill.as_str());
    let uid = enemy_entity_uid(idx);
    Ok(
        EnemyBuild {
            monster,
            uid,
            position,
            level,
            stats,
            skill_group1,
            skill_group2,
            passives,
            ex_skill,
            career: skill_template.career,
        },
    )
}

/// Defender `i` of `monsters` is built from monster `monsters[i]` at
/// position `i + 1` with the defender UID of `i`, as `r` says.
pub open spec fn defender_built(
    game: &GameDB,
    monsters: Seq<i32>,
    i: int,
    r: &Result<EnemyBuild, BuildError>,
) -> bool {
    enemy_result(game, monsters[i], i as usize, (i + 1) as i32, r)
}

/// Whether monster `monster_id` has its row, its stat template and its skill
/// template.
pub open spec fn enemy_builds(game: &GameDB, monster_id: i32) -> bool {
    match find_row::<Monster>(game.monster@, seq![monster_id]) {
        None => false,
        Some(m) => find_row::<MonsterTemplate>(game.monster_template@, seq![stat_template_id(m)])
            is Some && find_row::<MonsterSkillTemplate>(
            rows_view(game.monster_skill_template@),
            seq![m.skill_template],
        ) is Some,
    }
}

/// A monster that builds has its row and both templates.
proof fn lemma_built_enemy(game: &GameDB, monster_id: i32, idx: usize, position: i32, b: EnemyBuild)
    requires
        enemy_result(game, monster_id, idx, position, &Ok::<EnemyBuild, BuildError>(b)),
    ensures
        enemy_builds(game, monster_id),
{
    reveal(enemy_result);
}

/// The monsters a battle fields: the `#`-separated ids of its monster group
/// that parse.
pub open spec fn battle_monsters(b: BattleView) -> Seq<i32> {
    parsed_ids(split(b.monster_group_ids, '#'))
}

/// The battle an episode fights.
pub open spec fn episode_battle(game: &GameDB, episode_id: i32) -> Option<BattleView> {
    match find_row::<Episode>(game.episode@, seq![episode_id]) {
        None => None,
        Some(e) => find_row::<Battle>(rows_view(game.battle@), seq![e.battle_id]),
    }
}

/// The defender team of an episode: its battle's round limit and one enemy
/// per monster of its group, at positions 1, 2, … with defender UIDs.
pub struct DefenderTeam {
    pub max_round: i32,
    pub enemies: Vec<EnemyBuild>,
}

/// Builds the defender team of episode `episode_id`.
#[verifier::rlimit(60)]
#[verifier::spinoff_prover]
pub fn build_defender_team(game: &GameDB, episode_id: i32) -> (r: Result<DefenderTeam, BuildError>)
    requires
        episode_battle(game, episode_id) matches Some(b) ==> (forall|i: int|
            0 <= i < battle_monsters(b).len() ==> enemy_stats_fit(game, #[trigger] battle_monsters(b)[i]))
            && battle_monsters(b).len() <= i64::MAX - 1000,
    ensures
        match find_row::<Episode>(game.episode@, seq![episode_id]) {
            None => r matches Err(BuildError::EpisodeNotFound { episode_id: e }) && e == episode_id,
            Some(e) => match find_row::<Battle>(rows_view(game.battle@), seq![e.battle_id]) {
                None => r matches Err(BuildError::BattleNotFound { battle_id: b }) && b == e.battle_id,
                Some(b) => match r {
                    Ok(team) => team.max_round == b.max_round && team.enemies@.len()
                        == battle_monsters(b).len() && forall|i: int|
                        0 <= i < team.enemies@.len() ==> defender_built(
                            game,
                            battle_monsters(b),
                            i,
                            &Ok::<EnemyBuild, BuildError>(#[trigger] team.enemies@[i]),
                        ),
                    Err(e) => exists|i: int|
                        0 <= i < battle_monsters(b).len() && (forall|j: int|
                            0 <= j < i ==> enemy_builds(game, #[trigger] battle_monsters(b)[j]))
                            && #[trigger] defender_built(
                            game,
                            battle_monsters(b),
                            i,
                            &Err::<EnemyBuild, BuildError>(e),
                        ),
                },
            },
        },
{
    proof {
        lemma_copy_rows_view(game.episode@);
    }
    let key = [episode_id];
    assert(key@ =~= seq![episode_id]);
    let episode = match lookup(&game.episode, &key) {
        Some(e) => *e,
        None => return Err(BuildError::EpisodeNotFound { episode_id }),
    };
    let bkey = [episode.battle_id];
    assert(bkey@ =~= seq![episode.battle_id]);
    let battle = match lookup(&game.battle, &bkey) {
        Some(b) => b,
        None => return Err(BuildError::BattleNotFound { battle_id: episode.battle_id }),
    };
    let monster_ids = parse_passive_ids(battle.monster_group_ids.as_str());
    let ghost ms = battle_monsters(battle@);
    let mut enemies: Vec<EnemyBuild> = Vec::new();
    let mut idx: usize = 0;
    while idx < monster_ids.len()
        invariant
            idx <= monster_ids@.len(),
            find_row::<Episode>(game.episode@, seq![episode_id]) == Some(episode),
            find_row::<Battle>(rows_view(game.battle@), seq![episode.battle_id]) == Some(battle@),
            monster_ids@ == ms,
            ms == battle_monsters(battle@),
            ms.len() <= i64::MAX - 1000,
            forall|i: int| 0 <= i < ms.len() ==> enemy_stats_fit(game, #[trigger] ms[i]),
            enemies@.len() == idx,
            forall|i: int|
                0 <= i < idx ==> defender_built(
                    game,
                    ms,
                    i,
                    &Ok::<EnemyBuild, BuildError>(#[trigger] enemies@[i]),
                ),
            forall|j: int| 0 <= j < idx ==> enemy_builds(game, #[trigger] ms[j]),
        decreases monster_ids@.len() - idx,
    {
        let monster_id = monster_ids[idx];
        assert(enemy_stats_fit(game, ms[idx as int]));
        let position = (idx + 1) as i32;
        let built = build_enemy(game, monster_id, idx, position);
        assert(enemy_result(game, monster_id, idx, position, &built));
        let enemy = match built {
            Ok(e) => e,
            Err(e) => {
                proof {
                    let i = idx as int;
                    assert(ms[i] == monster_id);
                    assert(i as usize == idx);
                    assert((i + 1) as i32 == position);
                    assert(enemy_result(game, ms[i], i as usize, (i + 1) as i32, &Err::<EnemyBuild, BuildError>(e)));
                    assert(defender_built(game, battle_monsters(battle@), i, &Err::<EnemyBuild, BuildError>(e)));
                    assert(forall|j: int| 0 <= j < i ==> enemy_builds(game, #[trigger] ms[j]));
                    let b = find_row::<Battle>(rows_view(game.battle@), seq![episode.battle_id])->0;
                    assert(b == battle@);
                    assert(forall|j: int| 0 <= j < i ==> enemy_builds(game, #[trigger] battle_monsters(b)[j]));
                    assert(defender_built(game, battle_monsters(b), i, &Err::<EnemyBuild, BuildError>(e)));
                    assert(exists|x: int|
                        0 <= x < battle_monsters(b).len() && (forall|j: int|
                            0 <= j < x ==> enemy_builds(game, #[trigger] battle_monsters(b)[j]))
                            && #[trigger] defender_built(
                            game,
                            battle_monsters(b),
                            x,
                            &Err::<EnemyBuild, BuildError>(e),
                        ));
                }
                return Err(e);
            },
        };
        proof {
            lemma_built_enemy(game, monster_id, idx, position, enemy);
        }
        proof {
            lemma_copy_rows_view(game.monster@);
        }
        let ghost before = enemies@;
        enemies.push(enemy);
        proof {
            assert forall|i: int| 0 <= i < idx + 1 implies defender_built(
                game,
                ms,
                i,
                &Ok::<EnemyBuild, BuildError>(#[trigger] enemies@[i]),
            ) by {
                if i == idx {
                    assert(enemies@[i] == enemy);
                    assert(ms[i] == monster_id);
                } else {
                    assert(enemies@[i] == before[i]);
                }
            }
        }
        idx = idx + 1;
    }
    Ok(DefenderTeam { max_round: battle.max_round, enemies })
}

/// Whether every monster of an episode's battle has stats that fit `i32`
/// (trivially so when the episode or battle is missing): what building its
/// defender team needs.
pub fn defender_stats_fit(game: &GameDB, episode_id: i32) -> (b: bool)
    ensures
        b == (episode_battle(game, episode_id) matches Some(bt) ==> (forall|i: int|
            0 <= i < battle_monsters(bt).len() ==> enemy_stats_fit(game, #[trigger] battle_monsters(bt)[i]))
            && battle_monsters(bt).len() <= i64::MAX - 1000),
{
    proof {
        lemma_copy_rows_view(game.episode@);
    }
    let key = [episode_id];
    assert(key@ =~= seq![episode_id]);
    let episode = match lookup(&game.episode, &key) {
        Some(e) => *e,
        None => return true,
    };
    let bkey = [episode.battle_id];
    assert(bkey@ =~= seq![episode.battle_id]);
    let battle = match lookup(&game.battle, &bkey) {
        Some(b) => b,
        None => return true,
    };
    let monster_ids = parse_passive_ids(battle.monster_group_ids.as_str());
    assert(episode_battle(game, episode_id) == Some(battle@));
    if monster_ids.len() as u64 > (i64::MAX - 1000) as u64 {
        return false;
    }
    let mut i: usize = 0;
    while i < monster_ids.len()
        invariant
            i <= monster_ids@.len(),
            episode_battle(game, episode_id) == Some(battle@),
            monster_ids@ == battle_monsters(battle@),
            forall|k: int| 0 <= k < i ==> enemy_stats_fit(game, #[trigger] monster_ids@[k]),
        decreases monster_ids@.len() - i,
    {
        if !monster_stats_fit(game, monster_ids[i]) {
            return false;
        }
        i = i + 1;
    }
    true
}

} // verus!
