use sonetto::battle::attributes::resolve_destiny_attributes;
use sonetto::battle::types::{DestinyResolveError, DestinyState, HeroBaseAttributes};
use sonetto::config::{
    Character, CharacterAttribute, CharacterDestiny, CharacterDestinySlots, DestinyConfigIndex,
    GameDB,
};

fn slot(stage: i32, node: i32, effect: &str) -> CharacterDestinySlots {
    CharacterDestinySlots {
        slots_id: 30011,
        stage,
        node,
        consume: String::new(),
        effect: effect.to_string(),
    }
}

fn attribute(id: i32, show_type: i32) -> CharacterAttribute {
    CharacterAttribute {
        id,
        attr_type: "attr".to_string(),
        show_type,
    }
}

fn index(slots: Vec<CharacterDestinySlots>, attributes: Vec<CharacterAttribute>) -> DestinyConfigIndex {
    let game = GameDB {
        character: vec![Character {
            id: 3001,
            skill: "1#30011".to_string(),
            ex_skill: 30013,
            skin_id: 300101,
            mvskin_id: 0,
            hero_type: 1,
            career: 2,
            rank: 1,
        }],
        character_destiny: vec![CharacterDestiny {
            hero_id: 3001,
            slots_id: 30011,
            facets_id: "300111".to_string(),
        }],
        character_destiny_slots: slots,
        character_attribute: attributes,
        ..Default::default()
    };
    match DestinyConfigIndex::try_from_game_db(&game) {
        Ok(i) => i,
        Err(e) => panic!("{}", e.message()),
    }
}

fn base() -> HeroBaseAttributes {
    HeroBaseAttributes {
        hp: 1000,
        attack: 100,
        defense: 50,
        mdefense: 40,
    }
}

fn state(rank: i32, level: i32) -> DestinyState {
    DestinyState {
        rank,
        level,
        facet_id: 0,
    }
}

fn config_message(r: Result<sonetto::battle::attributes::ResolvedDestinyAttributes, DestinyResolveError>) -> String {
    match r {
        Err(DestinyResolveError::InvalidConfig(m)) => m,
        _ => panic!("expected an invalid configuration"),
    }
}

fn state_message(r: Result<sonetto::battle::attributes::ResolvedDestinyAttributes, DestinyResolveError>) -> String {
    match r {
        Err(DestinyResolveError::InvalidState(m)) => m,
        _ => panic!("expected an invalid state"),
    }
}

fn standard() -> DestinyConfigIndex {
    index(
        vec![slot(1, 1, "601#100|605#50"), slot(2, 1, "602#7")],
        vec![attribute(601, 0), attribute(602, 0), attribute(605, 1)],
    )
}

#[test]
fn earlier_stages_count_in_full_and_the_current_one_up_to_its_level() {
    let r = resolve_destiny_attributes(&standard(), 3001, state(2, 1), base()).unwrap();
    assert_eq!(r.hp, 150);
    assert_eq!(r.attack, 7);
    assert_eq!(r.trace.len(), 2);
    assert_eq!(r.trace[0].source_key, "character_destiny_slots:30011:1:1");
    assert_eq!(r.trace[1].source_key, "character_destiny_slots:30011:2:1");
    assert_eq!(r.trace[1].detail, "602#7");
}

#[test]
fn partial_states_name_the_rank_and_level() {
    let r = resolve_destiny_attributes(&standard(), 3001, state(-1, 1), base());
    assert_eq!(state_message(r), "rank -1 level 1");
}

#[test]
fn unconfigured_heroes_are_named() {
    let r = resolve_destiny_attributes(&standard(), 9, state(1, 1), base());
    assert_eq!(config_message(r), "missing hero 9");
}

#[test]
fn missing_current_nodes_are_named() {
    let r = resolve_destiny_attributes(&standard(), 3001, state(1, 2), base());
    assert_eq!(state_message(r), "missing Destiny slot (30011, 1, 2)");
}

#[test]
fn empty_completed_stages_are_named() {
    let i = index(vec![slot(2, 1, "601#1")], vec![attribute(601, 0)]);
    let r = resolve_destiny_attributes(&i, 3001, state(2, 1), base());
    assert_eq!(state_message(r), "missing completed Destiny stage 1 for slot group 30011");
}

#[test]
fn malformed_effects_are_quoted() {
    let i = index(vec![slot(1, 1, "601#1|601x")], vec![attribute(601, 0)]);
    let r = resolve_destiny_attributes(&i, 3001, state(1, 1), base());
    assert_eq!(config_message(r), "invalid effect \"601x\"");
}

#[test]
fn unsupported_attributes_name_their_node() {
    let i = index(vec![slot(1, 1, "999#1")], vec![attribute(999, 0)]);
    let r = resolve_destiny_attributes(&i, 3001, state(1, 1), base());
    assert_eq!(
        config_message(r),
        "unsupported Destiny attribute 999 at character_destiny_slots:30011:1:1"
    );
}

#[test]
fn unconfigured_attributes_name_their_node() {
    let i = index(vec![slot(1, 1, "603#1")], vec![attribute(601, 0)]);
    let r = resolve_destiny_attributes(&i, 3001, state(1, 1), base());
    assert_eq!(
        config_message(r),
        "missing character_attribute 603 for character_destiny_slots:30011:1:1"
    );
}

#[test]
fn mismatched_show_types_are_reported() {
    let i = index(vec![slot(1, 1, "605#1")], vec![attribute(605, 0)]);
    let r = resolve_destiny_attributes(&i, 3001, state(1, 1), base());
    assert_eq!(config_message(r), "attribute 605 has show_type 0, expected 1");
}

#[test]
fn raw_totals_that_leave_i64_overflow() {
    let i = index(
        vec![slot(1, 1, "601#9223372036854775807|601#1")],
        vec![attribute(601, 0)],
    );
    let r = resolve_destiny_attributes(&i, 3001, state(1, 1), base());
    assert!(matches!(r, Err(DestinyResolveError::Overflow)));
}
