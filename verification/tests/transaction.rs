use sonetto::progression::ProgressionError;
use sonetto::transaction::{
    attempts_exhausted, decide_after_attempt, exactly_one_owned_hero, is_sqlite_lock_code,
    retry_backoff_ms, AttemptOutcome, TxDecision, MAX_TRANSACTION_ATTEMPTS,
};

#[test]
fn lock_codes_are_busy_and_locked_with_any_extended_code() {
    assert!(is_sqlite_lock_code("5"));
    assert!(is_sqlite_lock_code("6"));
    assert!(is_sqlite_lock_code("261"));
    assert!(is_sqlite_lock_code("262"));
    assert!(!is_sqlite_lock_code("2067"));
    assert!(!is_sqlite_lock_code("1"));
    assert!(!is_sqlite_lock_code("busy"));
    assert!(!is_sqlite_lock_code(""));
}

#[test]
fn backoff_grows_by_ten_ms_and_stops_after_the_last_attempt() {
    assert_eq!(retry_backoff_ms(0), Some(10));
    assert_eq!(retry_backoff_ms(1), Some(20));
    assert_eq!(retry_backoff_ms(3), Some(40));
    assert_eq!(retry_backoff_ms(MAX_TRANSACTION_ATTEMPTS - 1), None);
}

#[test]
fn locks_timeouts_and_conflicts_are_retried() {
    assert_eq!(
        decide_after_attempt(0, AttemptOutcome::BeginFailed { retryable: true }),
        TxDecision::Retry { backoff_ms: Some(10) }
    );
    assert_eq!(
        decide_after_attempt(1, AttemptOutcome::Conflict),
        TxDecision::Retry { backoff_ms: Some(20) }
    );
    assert_eq!(
        decide_after_attempt(2, AttemptOutcome::CommitFailed { lock: true }),
        TxDecision::Retry { backoff_ms: Some(30) }
    );
    assert_eq!(
        decide_after_attempt(4, AttemptOutcome::Refused { lock: true }),
        TxDecision::Retry { backoff_ms: None }
    );
}

#[test]
fn other_failures_are_returned_and_commits_succeed() {
    assert_eq!(
        decide_after_attempt(0, AttemptOutcome::BeginFailed { retryable: false }),
        TxDecision::Fail
    );
    assert_eq!(
        decide_after_attempt(0, AttemptOutcome::CommitFailed { lock: false }),
        TxDecision::Fail
    );
    assert_eq!(
        decide_after_attempt(0, AttemptOutcome::Refused { lock: false }),
        TxDecision::Fail
    );
    assert_eq!(decide_after_attempt(0, AttemptOutcome::RollbackFailed), TxDecision::Fail);
    assert_eq!(decide_after_attempt(3, AttemptOutcome::Committed), TxDecision::Succeed);
    assert!(matches!(attempts_exhausted(), ProgressionError::Conflict));
}

#[test]
fn a_command_needs_exactly_one_owned_hero() {
    assert!(exactly_one_owned_hero(3001, 1).is_ok());
    match exactly_one_owned_hero(3001, 2) {
        Err(ProgressionError::Invalid(m)) => {
            assert_eq!(m, "expected exactly one owned hero 3001, found 2")
        }
        _ => panic!("expected an invalid-state error"),
    }
    match exactly_one_owned_hero(-7, 0) {
        Err(ProgressionError::Invalid(m)) => {
            assert_eq!(m, "expected exactly one owned hero -7, found 0")
        }
        _ => panic!("expected an invalid-state error"),
    }
}

use sonetto::config::{CharacterDestiny, CharacterDestinySlots, DestinyConfigIndex, GameDB};
use sonetto::progression::{DestinyCommand, DestinyState, MaterialCost, MaterialKind, MutationKind};
use sonetto::transaction::{AttemptAction, DestinyAttempt, OwnedHeroRow};

fn node(node: i32, consume: &str) -> CharacterDestinySlots {
    CharacterDestinySlots {
        slots_id: 30011,
        stage: 1,
        node,
        consume: consume.to_string(),
        effect: String::new(),
    }
}

fn catalog() -> DestinyConfigIndex {
    let game = GameDB {
        character_destiny: vec![CharacterDestiny {
            hero_id: 3001,
            slots_id: 30011,
            facets_id: "300111".to_string(),
        }],
        character_destiny_slots: vec![
            node(1, ""),
            node(2, "1#620101#2|2#5#7"),
            node(3, "1#620101#3"),
        ],
        ..Default::default()
    };
    match DestinyConfigIndex::try_from_game_db(&game) {
        Ok(i) => i,
        Err(e) => panic!("{}", e.message()),
    }
}

fn stored_row() -> OwnedHeroRow {
    OwnedHeroRow {
        hero_uid: 11,
        user_id: 7,
        hero_id: 3001,
        state: DestinyState {
            rank: 1,
            level: 1,
            stone: 0,
        },
    }
}

fn planned_attempt(target_level: i32) -> (DestinyAttempt, AttemptAction) {
    let (mut attempt, first) = DestinyAttempt::start(
        7,
        DestinyCommand::LevelUp {
            hero_id: 3001,
            target_level,
        },
    );
    assert!(matches!(
        first,
        AttemptAction::ReadHeroes {
            user_id: 7,
            hero_id: 3001
        }
    ));
    let next = attempt.on_heroes(&[stored_row()]);
    assert!(matches!(next, AttemptAction::ReadUnlockedStones { hero_uid: 11 }));
    let action = attempt.on_stones(&catalog(), Vec::new());
    (attempt, action)
}

#[test]
fn a_level_up_deducts_each_cost_then_writes_and_reads_back() {
    let (mut attempt, action) = planned_attempt(3);
    let item = MaterialCost {
        kind: MaterialKind::Item,
        id: 620101,
        amount: 5,
    };
    let currency = MaterialCost {
        kind: MaterialKind::Currency,
        id: 5,
        amount: 7,
    };
    assert!(matches!(action, AttemptAction::Deduct { cost } if cost == item));
    assert!(matches!(attempt.on_deducted(true), AttemptAction::Deduct { cost } if cost == currency));
    match attempt.on_deducted(true) {
        AttemptAction::Write {
            hero_uid,
            kind,
            expected,
        } => {
            assert_eq!(hero_uid, 11);
            assert_eq!(
                kind,
                MutationKind::Progress {
                    target_rank: 1,
                    target_level: 3
                }
            );
            assert_eq!(expected, stored_row().state);
        }
        other => panic!("expected a write, got {other:?}"),
    }
    assert!(matches!(attempt.on_written(1), AttemptAction::ReadBack { hero_uid: 11 }));
    let written = DestinyState {
        rank: 1,
        level: 3,
        stone: 0,
    };
    match attempt.on_read_back(written, vec![300111]) {
        AttemptAction::Commit(change) => {
            assert_eq!(change.hero_id, 3001);
            assert_eq!(change.state, written);
            assert_eq!(change.unlocked_stones, vec![300111]);
            assert!(change.changed);
        }
        other => panic!("expected a commit, got {other:?}"),
    }
}

#[test]
fn a_shortfall_refuses_with_the_missing_cost() {
    let (mut attempt, _) = planned_attempt(3);
    match attempt.on_deducted(false) {
        AttemptAction::Refuse(ProgressionError::Insufficient(cost)) => {
            assert_eq!(cost.id, 620101);
            assert_eq!(cost.amount, 5);
        }
        other => panic!("expected a shortfall, got {other:?}"),
    }
}

#[test]
fn a_write_that_matches_no_row_is_a_conflict() {
    let (mut attempt, _) = planned_attempt(2);
    attempt.on_deducted(true);
    assert!(matches!(attempt.on_deducted(true), AttemptAction::Write { .. }));
    assert!(matches!(attempt.on_written(0), AttemptAction::Conflict));
}

#[test]
fn an_unchanged_level_commits_the_stored_progress() {
    let (_, action) = planned_attempt(1);
    match action {
        AttemptAction::Commit(change) => {
            assert_eq!(change.state, stored_row().state);
            assert!(change.unlocked_stones.is_empty());
            assert!(!change.changed);
        }
        other => panic!("expected an unchanged commit, got {other:?}"),
    }
}

#[test]
fn a_lower_level_is_refused_before_anything_is_deducted() {
    let (_, action) = planned_attempt(0);
    assert!(matches!(
        action,
        AttemptAction::Refuse(ProgressionError::Invalid(_))
    ));
}

#[test]
fn a_missing_or_repeated_hero_is_refused() {
    let (mut attempt, _) = DestinyAttempt::start(7, DestinyCommand::RankUp { hero_id: 3001 });
    match attempt.on_heroes(&[]) {
        AttemptAction::Refuse(ProgressionError::Invalid(m)) => {
            assert_eq!(m, "expected exactly one owned hero 3001, found 0")
        }
        other => panic!("expected a refusal, got {other:?}"),
    }
}
