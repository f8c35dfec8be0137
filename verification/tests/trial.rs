use sonetto::battle::trial::{
    active_hero_count, card_source_hero_count, normalize_trial_requests,
    reserved_attacker_uid_ordinal, FightGroup, NormalizedTrial, TrialError, TrialHero,
};

fn group(hero_list: Vec<i64>, sub_hero_list: Vec<i64>, trial_hero_list: Vec<TrialHero>) -> FightGroup {
    FightGroup {
        hero_list,
        sub_hero_list,
        trial_hero_list,
    }
}

fn trial(trial_id: Option<i32>, pos: Option<i32>) -> TrialHero {
    TrialHero { trial_id, pos }
}

#[test]
fn legacy_trial_id_is_not_treated_as_an_ordinal() {
    let group = group(vec![-2_241_001], vec![], vec![]);
    assert_eq!(
        normalize_trial_requests(&group).unwrap(),
        vec![NormalizedTrial {
            trial_id: 2_241_001,
            uid: -1,
            position: Some(1),
            is_substitute: false,
        }]
    );
}

#[test]
fn battle_aid_placeholders_are_not_legacy_trials() {
    let group = group(vec![-1, -4], vec![], vec![]);

    assert!(normalize_trial_requests(&group).unwrap().is_empty());
}

#[test]
fn negative_uid_namespace_boundaries_are_exact() {
    for aid_uid in -4..=-1 {
        let group = group(vec![aid_uid], vec![], vec![]);
        assert!(normalize_trial_requests(&group).unwrap().is_empty());
    }

    for unsupported_uid in [-5, -1_000] {
        let group = group(vec![unsupported_uid], vec![], vec![]);
        assert!(normalize_trial_requests(&group).is_err());
    }

    let group = group(vec![-1_001], vec![], vec![]);
    assert_eq!(
        normalize_trial_requests(&group).unwrap(),
        vec![NormalizedTrial {
            trial_id: 1_001,
            uid: -1,
            position: Some(1),
            is_substitute: false,
        }]
    );
}

#[test]
fn explicit_trial_can_coexist_with_battle_aid_placeholder() {
    let group = group(vec![-1], vec![], vec![trial(Some(2_241_001), Some(2))]);

    assert_eq!(
        normalize_trial_requests(&group).unwrap(),
        vec![NormalizedTrial {
            trial_id: 2_241_001,
            uid: -2,
            position: Some(2),
            is_substitute: false,
        }]
    );
}

#[test]
fn negative_uid_below_the_3_6_trial_id_namespace_is_rejected() {
    let group = group(vec![-1_000], vec![], vec![]);

    let error = normalize_trial_requests(&group).unwrap_err();
    assert!(error
        .message()
        .contains("unsupported negative hero UID -1000"));
}

#[test]
fn minimum_legacy_uid_is_rejected_without_overflowing() {
    let group = group(vec![i64::MIN], vec![], vec![]);

    let error = normalize_trial_requests(&group).unwrap_err();
    assert!(error.message().contains("overflows"));
}

#[test]
fn explicit_negative_position_is_a_substitute_without_initial_card() {
    let group = group(vec![], vec![], vec![trial(Some(2_241_001), Some(-1))]);
    let trial = normalize_trial_requests(&group).unwrap()[0];
    assert!(trial.is_substitute);
    assert!(!trial.has_initial_card());
    assert_eq!(trial.uid, -1);
}

#[test]
fn negative_substitute_trial_id_is_normalized_into_sub_entity_uid() {
    let group = group(vec![], vec![-2_241_001], vec![]);
    let trial = normalize_trial_requests(&group).unwrap()[0];
    assert!(trial.is_substitute);
    assert_eq!(trial.uid, -1);
}

#[test]
fn explicit_and_legacy_trial_encodings_cannot_be_mixed() {
    let group = group(vec![-2_241_001], vec![], vec![trial(Some(2_241_001), Some(1))]);

    let error = normalize_trial_requests(&group).unwrap_err();
    assert!(error.message().contains("cannot be mixed"));
}

#[test]
fn explicit_zero_position_is_rejected() {
    let group = group(vec![], vec![], vec![trial(Some(2_241_001), Some(0))]);

    assert!(normalize_trial_requests(&group).is_err());
}

#[test]
fn explicit_missing_position_is_rejected() {
    let group = group(vec![], vec![], vec![trial(Some(2_241_001), None)]);

    assert!(normalize_trial_requests(&group).is_err());
}

#[test]
fn active_count_includes_main_aids_and_excludes_substitutes() {
    let group = group(
        vec![42, -1],
        vec![43, -2],
        vec![
            trial(Some(101), Some(1)),
            trial(Some(102), Some(2)),
            trial(Some(103), Some(-1)),
        ],
    );
    let trials = normalize_trial_requests(&group).unwrap();

    assert_eq!(active_hero_count(&group, &trials), 4);
}

#[test]
fn explicit_substitute_uids_use_one_ordinal_per_trial() {
    let group = group(
        vec![],
        vec![],
        (1..=501).map(|index| trial(Some(index), Some(-index))).collect(),
    );

    let trials = normalize_trial_requests(&group).unwrap();
    assert_eq!(trials.len(), 501);
    assert_eq!(trials.last().unwrap().uid, -501);
    assert!(trials.iter().all(|trial| trial.is_substitute));
}

#[test]
fn explicit_trial_capacity_stops_before_defender_namespace() {
    let make_group = |count: i32| {
        group(
            vec![],
            vec![],
            (1..=count).map(|index| trial(Some(index), Some(-index))).collect(),
        )
    };

    let at_limit = normalize_trial_requests(&make_group(1_000)).unwrap();
    assert_eq!(at_limit.last().unwrap().uid, -1_000);
    assert!(normalize_trial_requests(&make_group(1_001)).is_err());
}

#[test]
fn aid_uid_prefix_reduces_available_trial_uid_capacity() {
    let make_group = |count: i32| {
        group(
            vec![-4],
            vec![],
            (1..=count).map(|index| trial(Some(index), Some(index))).collect(),
        )
    };

    let at_limit = normalize_trial_requests(&make_group(996)).unwrap();
    assert_eq!(at_limit.first().unwrap().uid, -5);
    assert_eq!(at_limit.last().unwrap().uid, -1_000);
    assert!(normalize_trial_requests(&make_group(997)).is_err());
}

#[test]
fn explicit_trial_refusals_name_the_offending_entry() {
    let dup_id = group(vec![], vec![], vec![trial(Some(7), Some(1)), trial(Some(7), Some(2))]);
    assert_eq!(
        normalize_trial_requests(&dup_id),
        Err(TrialError::DuplicateTrialId { trial_id: 7 })
    );
    let dup_pos = group(vec![], vec![], vec![trial(Some(7), Some(1)), trial(Some(8), Some(1))]);
    assert_eq!(
        normalize_trial_requests(&dup_pos),
        Err(TrialError::DuplicatePosition { position: 1 })
    );
    let missing = group(vec![], vec![], vec![trial(None, Some(1))]);
    assert_eq!(
        normalize_trial_requests(&missing),
        Err(TrialError::MissingTrialId { index: 0 })
    );
    let invalid = group(vec![], vec![], vec![trial(Some(0), Some(1))]);
    assert_eq!(
        normalize_trial_requests(&invalid),
        Err(TrialError::InvalidTrialId { index: 0, trial_id: 0 })
    );
    let min_pos = group(vec![], vec![], vec![trial(Some(3), Some(i32::MIN))]);
    assert_eq!(
        normalize_trial_requests(&min_pos),
        Err(TrialError::UnrepresentablePosition { index: 0, position: i32::MIN })
    );
}

#[test]
fn legacy_trials_number_main_heroes_before_substitutes() {
    let group = group(vec![5, -3_000_001, -2], vec![-3_000_002], vec![]);
    let trials = normalize_trial_requests(&group).unwrap();
    assert_eq!(
        trials,
        vec![
            NormalizedTrial {
                trial_id: 3_000_001,
                uid: -3,
                position: Some(2),
                is_substitute: false,
            },
            NormalizedTrial {
                trial_id: 3_000_002,
                uid: -4,
                position: Some(-1),
                is_substitute: true,
            },
        ]
    );
    assert_eq!(reserved_attacker_uid_ordinal(&group, &trials), 4);
    assert_eq!(card_source_hero_count(&group, &trials), 2);
    assert_eq!(active_hero_count(&group, &trials), 3);
    let dup = group_dup();
    assert_eq!(
        normalize_trial_requests(&dup),
        Err(TrialError::DuplicateLegacyTrialId { trial_id: 3_000_001 })
    );
    let out_of_range = group_with(vec![-3_000_000_000]);
    assert_eq!(
        normalize_trial_requests(&out_of_range),
        Err(TrialError::LegacyUidOutOfRange { uid: -3_000_000_000 })
    );
}

fn group_dup() -> FightGroup {
    group(vec![-3_000_001], vec![-3_000_001], vec![])
}

fn group_with(hero_list: Vec<i64>) -> FightGroup {
    group(hero_list, vec![], vec![])
}
