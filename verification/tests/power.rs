use sonetto::battle::entities::{
    build_player_entity,
    apply_power_info_change_to, EntityLocation, FightEntity, FightEntityDataMgr, FightRoster,
};
use sonetto::battle::kit::PowerInfo;
use sonetto::battle::power::apply_power_info_change;

fn power(id: Option<i32>, num: Option<i32>, max: Option<i32>) -> PowerInfo {
    PowerInfo {
        power_id: id,
        num,
        max,
    }
}

#[test]
fn power_info_change_is_absolute_upsert_and_clamped() {
    let mut power_infos = vec![power(Some(1), Some(2), Some(5))];

    apply_power_info_change(&mut power_infos, &power(Some(1), Some(99), Some(5)))
        .expect("existing power should update");
    assert_eq!(power_infos[0].num, Some(5));

    apply_power_info_change(&mut power_infos, &power(Some(2), Some(-4), Some(3)))
        .expect("new power should upsert");
    assert_eq!(
        power_infos,
        vec![
            power(Some(1), Some(5), Some(5)),
            power(Some(2), Some(0), Some(3)),
        ]
    );

    apply_power_info_change(&mut power_infos, &power(Some(1), Some(3), Some(5)))
        .expect("ordinary absolute power update should preserve the incoming value");
    assert_eq!(power_infos[0].num, Some(3));
}

#[test]
fn power_info_change_rejects_missing_absolute_num() {
    let mut power_infos = vec![power(Some(1), Some(2), Some(5))];
    assert!(apply_power_info_change(&mut power_infos, &power(Some(1), None, Some(5))).is_err());
    assert_eq!(power_infos[0].num, Some(2));
}

#[test]
fn power_info_change_rejects_missing_absolute_max() {
    let mut power_infos = vec![power(Some(1), Some(2), Some(5))];
    assert!(apply_power_info_change(&mut power_infos, &power(Some(1), Some(3), None)).is_err());
    assert_eq!(power_infos[0].num, Some(2));
}

#[test]
fn power_info_change_refuses_a_negative_maximum_or_missing_id() {
    let mut power_infos = vec![];
    assert!(apply_power_info_change(&mut power_infos, &power(Some(1), Some(3), Some(-1))).is_err());
    assert!(apply_power_info_change(&mut power_infos, &power(None, Some(3), Some(1))).is_err());
    assert!(power_infos.is_empty());
}

fn entity(uid: i64, model_id: i32, team_type: i32, power_infos: Vec<PowerInfo>) -> FightEntity {
    FightEntity {
        uid: Some(uid),
        model_id: Some(model_id),
        user_id: None,
        team_type: Some(team_type),
        power_infos,
    }
}

fn roster() -> FightRoster {
    FightRoster {
        attacker_entities: vec![entity(-1, 3003, 1, vec![])],
        attacker_sub_entities: vec![entity(-7, 3004, 1, vec![power(Some(1), Some(0), Some(5))])],
        defender_entities: vec![entity(-1001, 9001, 2, vec![])],
    }
}

#[test]
fn substitute_and_defender_entities_are_globally_addressable() {
    let mgr = FightEntityDataMgr::new(roster());
    assert!(mgr.get_by_id(-7).is_some());
    assert_eq!(
        mgr.get_location(-7),
        Some(EntityLocation {
            is_attacker: true,
            is_sub_entity: true,
            index: 0,
        })
    );
    assert_eq!(mgr.get_by_id(-1001).unwrap().model_id, Some(9001));
    assert!(mgr.get_by_id(-2).is_none());
    assert_eq!(mgr.find_by_model_id(3004).unwrap().uid, Some(-7));
    assert_eq!(mgr.get_team_entities(1).len(), 2);
    assert_eq!(mgr.get_team_entities(2).len(), 1);
}

#[test]
fn power_info_change_updates_a_substitute_located_by_uid() {
    let mut fight = roster();
    let mgr = FightEntityDataMgr::new(roster());
    apply_power_info_change_to(&mut fight, &mgr, -7, &power(Some(1), Some(99), Some(5)))
        .expect("substitute power update should resolve");
    assert_eq!(fight.attacker_sub_entities[0].power_infos[0].num, Some(5));
    assert!(apply_power_info_change_to(&mut fight, &mgr, -8, &power(Some(1), Some(1), Some(5))).is_err());
}

#[test]
fn player_entities_take_the_team_player_uid() {
    let attacker = build_player_entity(42, 1);
    assert_eq!(attacker.uid, Some(0));
    assert_eq!(attacker.user_id, Some(42));
    assert_eq!(attacker.model_id, Some(0));
    assert_eq!(attacker.team_type, Some(1));
    assert!(attacker.power_infos.is_empty());
    assert_eq!(build_player_entity(42, 2).uid, Some(-99999));
}

fn power_entity(uid: i64, power_infos: Vec<PowerInfo>) -> FightEntity {
    FightEntity {
        uid: Some(uid),
        model_id: None,
        user_id: None,
        team_type: None,
        power_infos,
    }
}

#[test]
fn substitute_entity_is_globally_addressable() {
    let fight = FightRoster {
        attacker_entities: vec![],
        attacker_sub_entities: vec![power_entity(-7, vec![])],
        defender_entities: vec![],
    };
    let mgr = FightEntityDataMgr::new(fight);
    assert!(mgr.get_by_id(-7).is_some());
    assert!(mgr.get_location(-7).is_some());
}
