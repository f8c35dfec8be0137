use sonetto::progression::{parse_material_costs, MaterialCost, MaterialKind};

fn item(id: i32, amount: i32) -> MaterialCost {
    MaterialCost {
        kind: MaterialKind::Item,
        id,
        amount,
    }
}

fn currency(id: i32, amount: i32) -> MaterialCost {
    MaterialCost {
        kind: MaterialKind::Currency,
        id,
        amount,
    }
}

#[test]
fn parse_costs_aggregates_duplicate_item_and_currency_entries() {
    let costs = parse_material_costs(&["1#620101#2|2#5#7", "1#620101#3|2#5#11", ""]).unwrap();

    assert_eq!(costs, vec![item(620101, 5), currency(5, 18)]);
}

#[test]
fn parse_costs_rejects_malformed_zero_negative_overflow_and_unknown_type() {
    for raw in [
        "1#620101",
        "1#620101#1#extra",
        "1#620101#0",
        "1#620101#-1",
        "1#620101#2147483648",
        "3#620101#1",
    ] {
        assert!(
            parse_material_costs(&[raw]).is_err(),
            "unexpectedly accepted {raw:?}"
        );
    }

    assert!(
        parse_material_costs(&["1#620101#2147483647", "1#620101#1"]).is_err(),
        "aggregate amounts must also fit in i32"
    );
}

#[test]
fn parse_costs_orders_items_before_currencies_by_id() {
    let costs = parse_material_costs(&["2#9#1|1#7#2|1#3#4|2#1#5"]).unwrap();
    assert_eq!(
        costs,
        vec![item(3, 4), item(7, 2), currency(1, 5), currency(9, 1)]
    );
    assert_eq!(parse_material_costs(&[]).unwrap(), vec![]);
}

use sonetto::config::{CharacterDestiny, CharacterDestinySlots, DestinyConfigIndex, GameDB};
use sonetto::progression::{
    plan_transition, DestinyCommand, DestinyState, MutationPlan, OwnedDestinyHero,
    ProgressionError,
};

fn cost_error(raws: &[&str]) -> String {
    match parse_material_costs(raws) {
        Err(ProgressionError::Invalid(m)) => m,
        _ => panic!("expected an invalid cost"),
    }
}

#[test]
fn cost_errors_name_the_first_failed_field() {
    assert_eq!(
        cost_error(&["3#620101#1"]),
        "unknown material type in \"3#620101#1\""
    );
    assert_eq!(cost_error(&["1"]), "invalid material id in \"1\"");
    assert_eq!(cost_error(&["1#x#1"]), "invalid material id in \"1#x#1\"");
    assert_eq!(
        cost_error(&["1#0#1"]),
        "material id must be positive in \"1#0#1\""
    );
    assert_eq!(
        cost_error(&["1#620101"]),
        "invalid material amount in \"1#620101\""
    );
    assert_eq!(
        cost_error(&["1#620101#0"]),
        "material amount is out of range in \"1#620101#0\""
    );
    assert_eq!(
        cost_error(&["1#620101#1#extra"]),
        "malformed material cost \"1#620101#1#extra\""
    );
}

#[test]
fn an_entry_fault_comes_before_an_excess_total() {
    assert_eq!(
        cost_error(&["1#620101#2147483647|1#620101#1", "2#5#x"]),
        "invalid material amount in \"2#5#x\""
    );
}

#[test]
fn excess_totals_name_the_first_material_in_order() {
    assert_eq!(
        cost_error(&["2#5#2147483647|2#5#1|1#9#2147483647|1#9#1"]),
        "material total for Item 9 exceeds i32"
    );
    assert_eq!(
        cost_error(&["2#5#2147483647", "2#5#1"]),
        "material total for Currency 5 exceeds i32"
    );
}

fn node(stage: i32, node: i32, consume: &str) -> CharacterDestinySlots {
    CharacterDestinySlots {
        slots_id: 30011,
        stage,
        node,
        consume: consume.to_string(),
        effect: String::new(),
    }
}

fn catalog(with_hero: bool) -> DestinyConfigIndex {
    let game = GameDB {
        character_destiny: if with_hero {
            vec![CharacterDestiny {
                hero_id: 3001,
                slots_id: 30011,
                facets_id: "300111".to_string(),
            }]
        } else {
            Vec::new()
        },
        character_destiny_slots: vec![node(1, 1, ""), node(1, 2, "1#7#1"), node(1, 3, "1#7#2")],
        ..Default::default()
    };
    match DestinyConfigIndex::try_from_game_db(&game) {
        Ok(i) => i,
        Err(e) => panic!("{}", e.message()),
    }
}

fn owned(rank: i32, level: i32, stone: i32, unlocked: Vec<i32>) -> OwnedDestinyHero {
    OwnedDestinyHero {
        hero_uid: 11,
        user_id: 7,
        hero_id: 3001,
        state: DestinyState { rank, level, stone },
        unlocked_stones: unlocked,
    }
}

fn refusal(r: Result<MutationPlan, ProgressionError>) -> String {
    match r {
        Err(ProgressionError::Invalid(m)) => m,
        _ => panic!("expected a refusal"),
    }
}

#[test]
fn refused_commands_report_why() {
    let c = catalog(true);
    let level_up = |target_level| DestinyCommand::LevelUp {
        hero_id: 3001,
        target_level,
    };
    assert_eq!(
        refusal(plan_transition(&catalog(false), &owned(1, 1, 0, vec![]), level_up(2))),
        "hero 3001 has no Destiny configuration"
    );
    assert_eq!(
        refusal(plan_transition(
            &c,
            &owned(1, 1, 0, vec![]),
            DestinyCommand::RankUp { hero_id: 3002 }
        )),
        "command hero 3002 does not match owned hero 3001"
    );
    assert_eq!(
        refusal(plan_transition(&c, &owned(0, 1, 0, vec![]), level_up(2))),
        "invalid Destiny state (0, 1)"
    );
    assert_eq!(
        refusal(plan_transition(&c, &owned(1, 9, 0, vec![]), level_up(10))),
        "Destiny state (1, 9) is not configured for slot group 30011"
    );
    assert_eq!(
        refusal(plan_transition(&c, &owned(1, 2, 0, vec![]), level_up(1))),
        "target level 1 is below current level 2"
    );
    assert_eq!(
        refusal(plan_transition(&c, &owned(1, 1, 0, vec![]), level_up(5))),
        "missing Destiny slot (30011, 1, 4)"
    );
    assert_eq!(
        refusal(plan_transition(
            &c,
            &owned(1, 1, 0, vec![]),
            DestinyCommand::RankUp { hero_id: 3001 }
        )),
        "current Destiny stage is not complete"
    );
    assert_eq!(
        refusal(plan_transition(
            &c,
            &owned(1, 3, 0, vec![]),
            DestinyCommand::RankUp { hero_id: 3001 }
        )),
        "missing Destiny slot (30011, 2, 1)"
    );
}

#[test]
fn refused_stone_commands_report_why() {
    let c = catalog(true);
    let unlock = |stone_id| DestinyCommand::UnlockStone {
        hero_id: 3001,
        stone_id,
    };
    let equip = |stone_id| DestinyCommand::UseStone {
        hero_id: 3001,
        stone_id,
    };
    assert_eq!(
        refusal(plan_transition(&c, &owned(0, 0, 0, vec![]), unlock(300111))),
        "a Destiny rank is required before unlocking a stone"
    );
    assert_eq!(
        refusal(plan_transition(&c, &owned(1, 1, 0, vec![]), unlock(999))),
        "stone 999 is not owned by hero 3001"
    );
    assert_eq!(
        refusal(plan_transition(&c, &owned(1, 1, 0, vec![]), unlock(300111))),
        "missing consume configuration for stone 300111"
    );
    assert_eq!(
        refusal(plan_transition(&c, &owned(1, 1, 0, vec![]), equip(999))),
        "stone 999 is not owned by hero 3001"
    );
    assert_eq!(
        refusal(plan_transition(&c, &owned(1, 1, 0, vec![]), equip(300111))),
        "stone 300111 is locked"
    );
}
