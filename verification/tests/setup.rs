use sonetto::battle::setup::{
    apply_destiny_entity_attributes, build_defender_team, build_enemy, build_trial_hero,
    defender_stats_fit, monster_stats_fit, BuildError, EntityStats,
};
use sonetto::battle::types::{
    DestinyResolveError, DestinyState, HeroBaseAttributes, HeroBuildContext, HeroSource,
};
use sonetto::battle_tables::{
    Battle, CharacterLevel, Episode, HeroTrial, Monster, MonsterSkillTemplate, MonsterTemplate,
};
use sonetto::config::{
    Character, CharacterAttribute, CharacterDestiny, CharacterDestinySlots, GameDB,
};

fn trial(id: i32, hero_id: i32, level: i32, ex_skill_lv: i32) -> HeroTrial {
    HeroTrial {
        id,
        hero_id,
        level,
        skin: 300101,
        ex_skill_lv,
        facetslevel: 0,
        facets_id: 0,
        equip_id: 0,
        equip_lv: 0,
        equip_refine: 0,
    }
}

fn character(id: i32) -> Character {
    Character {
        id,
        skill: "1#30011|2#30012".to_string(),
        ex_skill: 30013,
        skin_id: 300101,
        mvskin_id: 0,
        hero_type: 1,
        career: 2,
        rank: 1,
    }
}

fn level_row(hero_id: i32, level: i32, hp: i32) -> CharacterLevel {
    CharacterLevel {
        hero_id,
        level,
        hp,
        atk: 100,
        def: 50,
        mdef: 40,
        technic: 30,
    }
}

fn trial_db() -> GameDB {
    GameDB {
        hero_trial: vec![trial(1, 3001, 10, 0), trial(2, 3001, 20, 0), trial(3, 9999, 10, 0), trial(4, 3001, 10, 3)],
        character: vec![character(3001)],
        character_level: vec![level_row(3001, 1, 500), level_row(3001, 10, 1000)],
        ..Default::default()
    }
}

#[test]
fn trial_hero_takes_level_stats_and_character_kit() {
    let game = trial_db();
    let build = match build_trial_hero(&game, 1, false) {
        Ok(b) => b,
        Err(e) => panic!("unexpected error {e:?}"),
    };
    let expected = EntityStats {
        hp: 1000,
        attack: 100,
        defense: 50,
        mdefense: 40,
        technic: 30,
    };
    assert_eq!(build.base, expected);
    assert_eq!(build.attr, expected);
    assert_eq!(build.career, 2);
    assert_eq!(build.context.hero_id, 3001);
    assert_eq!(build.context.skin, 300101);
    assert_eq!(build.context.destiny.level, 0);
    assert_eq!(build.kit.skill_group_1, vec![30011]);
    assert_eq!(build.kit.skill_group_2, vec![30012]);
    assert_eq!(build.kit.ultimate, 30013);
}

#[test]
fn trial_hero_falls_back_to_level_one_stats() {
    let game = trial_db();
    let build = match build_trial_hero(&game, 2, true) {
        Ok(b) => b,
        Err(e) => panic!("unexpected error {e:?}"),
    };
    assert_eq!(build.base.hp, 500);
    assert!(build.context.is_substitute);
}

#[test]
fn trial_hero_reports_each_missing_row() {
    let game = trial_db();
    assert!(matches!(
        build_trial_hero(&game, 77, false),
        Err(BuildError::TrialNotFound { trial_id: 77 })
    ));
    assert!(matches!(
        build_trial_hero(&game, 3, false),
        Err(BuildError::HeroNotFound { hero_id: 9999 })
    ));
    let mut no_levels = trial_db();
    no_levels.character_level.clear();
    assert!(matches!(
        build_trial_hero(&no_levels, 1, false),
        Err(BuildError::NoLevelData {
            hero_id: 3001,
            level: 10
        })
    ));
}

#[test]
fn trial_hero_with_unconfigured_ex_level_is_refused() {
    let game = trial_db();
    assert!(matches!(
        build_trial_hero(&game, 4, false),
        Err(BuildError::Kit {
            trial_id: 4,
            hero_id: 3001,
            error: DestinyResolveError::InvalidState(_)
        })
    ));
}

fn monster_db(life_grow: i32) -> GameDB {
    GameDB {
        monster: vec![
            Monster {
                id: 100,
                template: 0,
                skill_template: 200,
                level: 5,
                level_true: 0,
                skin_id: 0,
            },
            Monster {
                id: 101,
                template: 300,
                skill_template: 200,
                level: 5,
                level_true: 7,
                skin_id: 0,
            },
        ],
        monster_template: vec![MonsterTemplate {
            template: 200,
            life: 1000,
            life_grow,
            attack: 100,
            attack_grow: 2,
            defense: 50,
            defense_grow: 1,
            mdefense: 40,
            mdefense_grow: 1,
            technic: 30,
            technic_grow: 0,
        }],
        monster_skill_template: vec![MonsterSkillTemplate {
            id: 200,
            active_skill: "1#501#502|2#601".to_string(),
            passive_skill: "701#702".to_string(),
            unique_skill: "801#1".to_string(),
            career: 3,
        }],
        episode: vec![
            Episode { id: 1, battle_id: 10 },
            Episode { id: 2, battle_id: 11 },
            Episode { id: 3, battle_id: 12 },
        ],
        battle: vec![
            Battle {
                id: 10,
                max_round: 20,
                monster_group_ids: "100#100".to_string(),
            },
            Battle {
                id: 12,
                max_round: 20,
                monster_group_ids: "100#999".to_string(),
            },
        ],
        ..Default::default()
    }
}

#[test]
fn enemy_stats_grow_with_level_and_skills_come_from_the_skill_template() {
    let game = monster_db(10);
    assert!(monster_stats_fit(&game, 100));
    let enemy = match build_enemy(&game, 100, 2, 3) {
        Ok(e) => e,
        Err(e) => panic!("unexpected error {e:?}"),
    };
    assert_eq!(enemy.uid, -1003);
    assert_eq!(enemy.position, 3);
    assert_eq!(enemy.level, 5);
    assert_eq!(
        enemy.stats,
        EntityStats {
            hp: 1050,
            attack: 110,
            defense: 55,
            mdefense: 45,
            technic: 30,
        }
    );
    assert_eq!(enemy.skill_group1, vec![501, 502]);
    assert_eq!(enemy.skill_group2, vec![601]);
    assert_eq!(enemy.passives, vec![701, 702]);
    assert_eq!(enemy.ex_skill, 801);
    assert_eq!(enemy.career, 3);
}

#[test]
fn enemy_without_its_template_is_refused() {
    let game = monster_db(10);
    assert!(matches!(
        build_enemy(&game, 101, 0, 1),
        Err(BuildError::TemplateNotFound {
            template: 300,
            monster_id: 101
        })
    ));
    assert!(matches!(
        build_enemy(&game, 555, 0, 1),
        Err(BuildError::MonsterNotFound { monster_id: 555 })
    ));
}

#[test]
fn enemy_stats_that_overflow_are_detected() {
    let game = monster_db(i32::MAX);
    assert!(!monster_stats_fit(&game, 100));
    assert!(!defender_stats_fit(&game, 1));
}

#[test]
fn defender_team_places_each_monster_in_order() {
    let game = monster_db(10);
    assert!(defender_stats_fit(&game, 1));
    let team = match build_defender_team(&game, 1) {
        Ok(t) => t,
        Err(e) => panic!("unexpected error {e:?}"),
    };
    assert_eq!(team.max_round, 20);
    assert_eq!(team.enemies.len(), 2);
    assert_eq!(team.enemies[0].uid, -1001);
    assert_eq!(team.enemies[1].uid, -1002);
    assert_eq!(team.enemies[0].position, 1);
    assert_eq!(team.enemies[1].position, 2);
}

#[test]
fn defender_team_reports_missing_rows() {
    let game = monster_db(10);
    assert!(matches!(
        build_defender_team(&game, 9),
        Err(BuildError::EpisodeNotFound { episode_id: 9 })
    ));
    assert!(matches!(
        build_defender_team(&game, 2),
        Err(BuildError::BattleNotFound { battle_id: 11 })
    ));
    assert!(matches!(
        build_defender_team(&game, 3),
        Err(BuildError::MonsterNotFound { monster_id: 999 })
    ));
}

fn destiny_db() -> GameDB {
    GameDB {
        character: vec![character(3001)],
        character_destiny: vec![CharacterDestiny {
            hero_id: 3001,
            slots_id: 30011,
            facets_id: "300111".to_string(),
        }],
        character_destiny_slots: vec![CharacterDestinySlots {
            slots_id: 30011,
            stage: 1,
            node: 1,
            consume: String::new(),
            effect: "601#100|605#50".to_string(),
        }],
        character_attribute: vec![
            CharacterAttribute {
                id: 601,
                attr_type: "hp".to_string(),
                show_type: 0,
            },
            CharacterAttribute {
                id: 605,
                attr_type: "hpRate".to_string(),
                show_type: 1,
            },
        ],
        ..Default::default()
    }
}

fn owned_context(rank: i32, level: i32) -> HeroBuildContext {
    HeroBuildContext {
        hero_id: 3001,
        skin: 300101,
        rank: 1,
        ex_skill_level: 0,
        destiny: DestinyState {
            rank,
            level,
            facet_id: 0,
        },
        is_substitute: false,
        hero_type: 1,
        source: HeroSource::Owned,
    }
}

fn stats() -> EntityStats {
    EntityStats {
        hp: 1000,
        attack: 100,
        defense: 50,
        mdefense: 40,
        technic: 30,
    }
}

fn base() -> HeroBaseAttributes {
    HeroBaseAttributes {
        hp: 1000,
        attack: 100,
        defense: 50,
        mdefense: 40,
    }
}

#[test]
fn inactive_destiny_leaves_owned_stats_alone() {
    let game = destiny_db();
    let mut attr = stats();
    assert!(apply_destiny_entity_attributes(&game, &owned_context(0, 0), &mut attr, base()).is_none());
    assert_eq!(attr, stats());
}

#[test]
fn active_destiny_adds_direct_and_percent_attributes() {
    let game = destiny_db();
    let mut attr = stats();
    let r = apply_destiny_entity_attributes(&game, &owned_context(1, 1), &mut attr, base());
    assert!(matches!(r, Some(Ok(_))));
    assert_eq!(attr.hp, 1150);
    assert_eq!(attr.attack, 100);
    assert_eq!(attr.technic, 30);
}

#[test]
fn unresolvable_destiny_keeps_owned_stats() {
    let game = destiny_db();
    let mut attr = stats();
    let r = apply_destiny_entity_attributes(&game, &owned_context(1, 3), &mut attr, base());
    assert!(matches!(r, Some(Err(DestinyResolveError::InvalidState(_)))));
    assert_eq!(attr, stats());
}

#[test]
fn build_errors_have_the_messages_they_are_logged_with() {
    assert_eq!(
        BuildError::TrialNotFound { trial_id: 77 }.message(),
        "Trial data not found for ID 77"
    );
    assert_eq!(
        BuildError::NoLevelData {
            hero_id: 3001,
            level: 10
        }
        .message(),
        "No level data found for hero_id 3001 (tried level 10 and level 1)"
    );
    assert_eq!(
        BuildError::Kit {
            trial_id: 4,
            hero_id: 3001,
            error: DestinyResolveError::InvalidState("ex skill level 3".to_string()),
        }
        .message(),
        "failed to resolve trial 4 hero 3001 kit: invalid Destiny state: ex skill level 3"
    );
    assert_eq!(
        BuildError::TemplateNotFound {
            template: 300,
            monster_id: 101
        }
        .message(),
        "Monster template 300 not found (monster 101)"
    );
    assert_eq!(
        BuildError::BattleNotFound { battle_id: 11 }.message(),
        "Battle 11 not found"
    );
    assert_eq!(
        DestinyResolveError::Overflow.message(),
        "Destiny arithmetic overflow"
    );
}

use sonetto::battle::entity::HeroRecord;
use sonetto::battle::setup::build_owned_hero;
use sonetto::config::EquipSkill;

fn record(destiny_rank: i32, destiny_level: i32) -> HeroRecord {
    HeroRecord {
        hero_id: 3001,
        skin: 300101,
        rank: 1,
        ex_skill_level: 0,
        destiny_rank,
        destiny_level,
        destiny_stone: 0,
    }
}

#[test]
fn owned_heroes_fight_with_kit_equipment_and_destiny() {
    let mut game = destiny_db();
    game.equip_skill = vec![EquipSkill {
        id: 1501,
        skill: 15011,
        skill2: 0,
    }];
    let built = match build_owned_hero(&game, &record(1, 1), false, Some(1501), stats(), base()) {
        Ok(b) => b,
        Err(_) => panic!("expected a built hero"),
    };
    assert_eq!(built.kit.skill_group_1, vec![30011]);
    assert_eq!(built.kit.skill_group_2, vec![30012]);
    assert_eq!(built.passive_skill, vec![15011]);
    assert_eq!(built.attr.hp, 1150);
    assert_eq!(built.attr.technic, 30);
    assert!(matches!(built.destiny, Some(Ok(_))));
    assert_eq!(built.ex_point, 0);
    assert_eq!(built.ex_point_type, 0);
    assert_eq!(built.career, 2);
    assert_eq!(built.context.hero_type, 1);
}

#[test]
fn owned_heroes_without_destiny_keep_their_stats() {
    let game = destiny_db();
    let built = match build_owned_hero(&game, &record(0, 0), true, None, stats(), base()) {
        Ok(b) => b,
        Err(_) => panic!("expected a built hero"),
    };
    assert!(built.destiny.is_none());
    assert_eq!(built.attr, stats());
    assert!(built.passive_skill.is_empty());
    assert!(built.context.is_substitute);
}

#[test]
fn owned_heroes_with_an_unconfigured_ex_level_are_refused() {
    let game = destiny_db();
    let mut r = record(0, 0);
    r.ex_skill_level = 2;
    assert!(matches!(
        build_owned_hero(&game, &r, false, None, stats(), base()),
        Err(DestinyResolveError::InvalidState(_))
    ));
}
