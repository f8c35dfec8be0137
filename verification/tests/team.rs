use sonetto::battle::fight::UidError;
use sonetto::battle::team::{
    plan_attacker_team, sort_by_position, TeamMember, TeamPlanError, TeamSlot,
};
use sonetto::battle::trial::{FightGroup, NormalizedTrial, TrialHero};

fn group(heroes: &[i64], subs: &[i64], explicit: bool) -> FightGroup {
    FightGroup {
        hero_list: heroes.to_vec(),
        sub_hero_list: subs.to_vec(),
        trial_hero_list: if explicit {
            vec![TrialHero {
                trial_id: Some(1),
                pos: Some(1),
            }]
        } else {
            vec![]
        },
    }
}

fn trial(trial_id: i32, uid: i64, position: Option<i32>, is_substitute: bool) -> NormalizedTrial {
    NormalizedTrial {
        trial_id,
        uid,
        position,
        is_substitute,
    }
}

fn owned(position: i32, hero_uid: i64) -> TeamSlot {
    TeamSlot {
        position,
        member: TeamMember::Owned {
            hero_uid,
            substitute_uid: None,
        },
    }
}

#[test]
fn owned_heroes_stand_at_their_wire_positions() {
    let plan = plan_attacker_team(&group(&[11, -1, 0, 13], &[], false), &[], 0).unwrap();
    assert_eq!(plan.mains, vec![owned(1, 11), owned(4, 13)]);
    assert!(plan.subs.is_empty());
}

#[test]
fn explicit_trials_compact_owned_heroes_around_them() {
    let trials = [trial(101, -1, Some(1), false)];
    let plan = plan_attacker_team(&group(&[11, 12], &[], true), &trials, 1).unwrap();
    assert_eq!(
        plan.mains,
        vec![
            TeamSlot {
                position: 1,
                member: TeamMember::Trial {
                    trial_id: 101,
                    uid: -1
                }
            },
            owned(2, 11),
            owned(3, 12),
        ]
    );
}

#[test]
fn trial_position_taken_by_an_owned_hero_is_refused() {
    let trials = [trial(101, -1, Some(2), false)];
    let error = plan_attacker_team(&group(&[11, 12], &[], false), &trials, 1).unwrap_err();
    assert_eq!(error, TeamPlanError::DuplicateAttackerPosition(2));
    assert_eq!(error.message(), "duplicate attacker position 2");
}

#[test]
fn owned_substitutes_fight_under_uids_after_the_trials() {
    let plan = plan_attacker_team(&group(&[11], &[21, 0, 22], false), &[], 2).unwrap();
    assert_eq!(
        plan.subs,
        vec![
            TeamSlot {
                position: 1,
                member: TeamMember::Owned {
                    hero_uid: 21,
                    substitute_uid: Some(-3)
                }
            },
            TeamSlot {
                position: 3,
                member: TeamMember::Owned {
                    hero_uid: 22,
                    substitute_uid: Some(-4)
                }
            },
        ]
    );
}

#[test]
fn substitute_trials_take_negated_positions() {
    let trials = [trial(102, -1, Some(-2), true)];
    let plan = plan_attacker_team(&group(&[11], &[21], true), &trials, 1).unwrap();
    assert_eq!(plan.subs.len(), 2);
    assert_eq!(plan.subs[0].position, 1);
    assert_eq!(plan.subs[1].position, 2);
    assert_eq!(
        plan.subs[1].member,
        TeamMember::Trial {
            trial_id: 102,
            uid: -1
        }
    );
    assert_eq!(
        plan.subs[0].member,
        TeamMember::Owned {
            hero_uid: 21,
            substitute_uid: Some(-2)
        }
    );
}

#[test]
fn substitute_position_conflicts_are_refused() {
    let trials = [trial(102, -1, Some(-1), true)];
    assert_eq!(
        plan_attacker_team(&group(&[], &[21], false), &trials, 1).unwrap_err(),
        TeamPlanError::DuplicateSubstitutePosition(1)
    );
    let doubled = [trial(102, -1, Some(-1), true), trial(103, -2, Some(-1), true)];
    assert_eq!(
        plan_attacker_team(&group(&[], &[], false), &doubled, 2).unwrap_err(),
        TeamPlanError::DuplicateSubstitutePosition(1)
    );
    let unnegatable = [trial(102, -1, Some(i32::MIN), true)];
    let error = plan_attacker_team(&group(&[], &[], false), &unnegatable, 1).unwrap_err();
    assert_eq!(error, TeamPlanError::InvalidSubstituteTrialPosition(i32::MIN));
    assert_eq!(error.message(), "invalid substitute trial position -2147483648");
}

#[test]
fn trials_without_positions_are_refused() {
    let active = [trial(101, -1, None, false)];
    let error = plan_attacker_team(&group(&[], &[], false), &active, 1).unwrap_err();
    assert_eq!(
        error,
        TeamPlanError::MissingTrialPosition {
            trial_id: 101,
            substitute: false
        }
    );
    assert_eq!(error.message(), "active trial 101 has no normalized position");
    let sub = [trial(102, -1, None, true)];
    assert_eq!(
        plan_attacker_team(&group(&[], &[], false), &sub, 1)
            .unwrap_err()
            .message(),
        "substitute trial 102 has no normalized position"
    );
}

#[test]
fn substitute_uids_may_not_cross_into_defenders() {
    let error = plan_attacker_team(&group(&[], &[21], false), &[], 1000).unwrap_err();
    assert_eq!(
        error,
        TeamPlanError::SubstituteUid(UidError::CrossesDefenders { ordinal: 1001 })
    );
    assert_eq!(
        error.message(),
        "attacker substitute UID ordinal 1001 crosses the defender UID namespace"
    );
}

#[test]
fn sorting_by_position_is_stable() {
    let a = owned(2, 1);
    let b = owned(1, 2);
    let c = owned(2, 3);
    let d = owned(1, 4);
    assert_eq!(sort_by_position(vec![a, b, c, d]), vec![b, d, a, c]);
    assert_eq!(sort_by_position(vec![]), vec![]);
}
