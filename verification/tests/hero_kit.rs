use sonetto::battle::kit::{resolve_hero_kit, ResolvedHeroKit};
use sonetto::battle::types::{DestinyResolveError, DestinyState, HeroBuildContext, HeroSource};
use sonetto::config::{
    Character, CharacterDestiny, CharacterDestinyFacets, DestinyConfigIndex, GameDB, SkillExLevel,
};

fn character(skill: &str) -> Character {
    Character {
        id: 3001,
        skill: skill.to_string(),
        ex_skill: 30013,
        skin_id: 300101,
        mvskin_id: 0,
        hero_type: 1,
        career: 2,
        rank: 1,
    }
}

fn game(skill: &str) -> GameDB {
    GameDB {
        character: vec![character(skill)],
        character_destiny: vec![CharacterDestiny {
            hero_id: 3001,
            slots_id: 30011,
            facets_id: "300111".to_string(),
        }],
        ..Default::default()
    }
}

fn ex_row(level: i32, group1: &str, passive: &str) -> SkillExLevel {
    SkillExLevel {
        hero_id: 3001,
        skill_level: level,
        skill_group1: group1.to_string(),
        skill_group2: String::new(),
        skill_ex: 0,
        passive_skill: passive.to_string(),
    }
}

fn context(hero_id: i32, ex_skill_level: i32, rank: i32, facet_id: i32) -> HeroBuildContext {
    HeroBuildContext {
        hero_id,
        skin: 300101,
        rank: 1,
        ex_skill_level,
        destiny: DestinyState {
            rank,
            level: 1,
            facet_id,
        },
        is_substitute: false,
        hero_type: 1,
        source: HeroSource::Owned,
    }
}

fn resolve(game: &GameDB, ctx: &HeroBuildContext) -> Result<ResolvedHeroKit, DestinyResolveError> {
    let index = match DestinyConfigIndex::try_from_game_db(game) {
        Ok(i) => i,
        Err(e) => panic!("{}", e.message()),
    };
    resolve_hero_kit(&index, game, ctx)
}

fn config_text(r: Result<ResolvedHeroKit, DestinyResolveError>) -> String {
    match r {
        Err(DestinyResolveError::InvalidConfig(m)) => m,
        _ => panic!("expected an invalid configuration"),
    }
}

#[test]
fn character_groups_and_ultimate_start_the_kit() {
    let g = game("1#30011#30012|2#30021");
    let kit = resolve(&g, &context(3001, 0, 0, 0)).unwrap();
    assert_eq!(kit.skill_group_1, vec![30011, 30012]);
    assert_eq!(kit.skill_group_2, vec![30021]);
    assert_eq!(kit.ultimate, 30013);
    assert_eq!(kit.trace.len(), 1);
    assert_eq!(kit.trace[0].source_key, "character_destiny_facets:0:0");
    assert_eq!(kit.trace[0].detail, "facet 0 inactive");
}

#[test]
fn ex_levels_replace_groups_in_order() {
    let mut g = game("1#30011#30012|2#30021");
    g.skill_ex_level = vec![ex_row(1, "30014|30012", "")];
    let kit = resolve(&g, &context(3001, 1, 0, 0)).unwrap();
    assert_eq!(kit.skill_group_1, vec![30014, 30012]);
    assert_eq!(kit.trace[1].source_key, "skill_ex_level:3001:1");
    assert_eq!(kit.trace[1].detail, "skill_group_1 30011 -> 30014");
}

#[test]
fn negative_ex_levels_are_refused_with_their_hero() {
    let g = game("1#30011");
    match resolve(&g, &context(3001, -1, 0, 0)) {
        Err(DestinyResolveError::InvalidState(m)) => {
            assert_eq!(m, "negative ex skill level -1 for hero 3001")
        }
        _ => panic!("expected an invalid state"),
    }
}

#[test]
fn missing_characters_are_named() {
    let g = game("1#30011");
    assert_eq!(config_text(resolve(&g, &context(9, 0, 0, 0))), "missing character 9");
}

#[test]
fn unreadable_group_numbers_quote_the_skill_value() {
    let g = game("x#30011|1#30012");
    assert_eq!(
        config_text(resolve(&g, &context(3001, 0, 0, 0))),
        "invalid skill group in \"x#30011|1#30012\""
    );
}

#[test]
fn unreadable_skill_ids_quote_the_skill_value() {
    let g = game("1#abc");
    assert_eq!(
        config_text(resolve(&g, &context(3001, 0, 0, 0))),
        "invalid skill id in \"1#abc\""
    );
}

#[test]
fn unreadable_ex_level_groups_quote_the_group_value() {
    let mut g = game("1#30011");
    g.skill_ex_level = vec![ex_row(1, "30014|oops", "")];
    assert_eq!(
        config_text(resolve(&g, &context(3001, 1, 0, 0))),
        "invalid skill id in \"30014|oops\""
    );
}

#[test]
fn unreadable_passive_exchanges_report_the_exchange_fault() {
    let mut g = game("1#30011");
    g.skill_ex_level = vec![ex_row(1, "", "0#1")];
    assert_eq!(
        config_text(resolve(&g, &context(3001, 1, 0, 0))),
        "skill exchange ids must be positive in \"0#1\" from \"0#1\""
    );
}

#[test]
fn owned_facets_without_a_row_are_named() {
    let g = game("1#30011");
    assert_eq!(
        config_text(resolve(&g, &context(3001, 0, 1, 300111))),
        "missing character_destiny_facets (300111, 1)"
    );
}

#[test]
fn reshaping_facets_need_a_row_at_the_ex_level() {
    let mut g = game("1#30011");
    g.character_destiny_facets = vec![CharacterDestinyFacets {
        facets_id: 300111,
        level: 1,
        exchange_skills: String::new(),
        power_add: String::new(),
        ex_level_exchange: true,
        desc: String::new(),
    }];
    assert_eq!(
        config_text(resolve(&g, &context(3001, 2, 1, 300111))),
        "missing destiny_facets_ex_level (300111, 2)"
    );
}

#[test]
fn a_foreign_facet_leaves_the_kit_as_at_facet_zero() {
    let mut g = game("1#30011#30012|2#30021");
    g.skill_ex_level = vec![ex_row(1, "30014|30012", "")];
    let foreign = resolve(&g, &context(3001, 1, 2, 999)).unwrap();
    let none = resolve(&g, &context(3001, 1, 2, 0)).unwrap();
    assert_eq!(foreign.skill_group_1, none.skill_group_1);
    assert_eq!(foreign.skill_group_2, none.skill_group_2);
    assert_eq!(foreign.ultimate, none.ultimate);
    assert_eq!(foreign.passives, none.passives);
    assert_eq!(foreign.power_infos, none.power_infos);
    assert_eq!(foreign.trace[0].source_key, "character_destiny:3001");
    assert_eq!(foreign.trace[0].detail, "foreign facet 999 inactive");
}
