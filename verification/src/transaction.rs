//! The decisions of a Destiny command's store transaction: the steps of one
//! attempt, which store failures are worth another attempt, how long to wait
//! before it, and when to give up.
use crate::config::DestinyConfigIndex;
use crate::progression::{
    aggregated_costs, command_hero_id, entry_costs, plan_outcome, plan_refused, plan_transition,
    raw_entries, refused_with, DestinyCommand, DestinyState, MaterialCost, MutationKind, OwnedDestinyHero,
    PlanOutcome, ProgressionError,
};
use crate::protocol::CommittedDestinyChange;
use crate::text::{parse_i32, parse_i32_spec, push_int, push_str, push_uint, str_chars};
use vstd::prelude::*;

verus! {

/// How many times a Destiny command's transaction is attempted.
pub const MAX_TRANSACTION_ATTEMPTS: usize = 5;

/// Whether a SQLite result code is a lock (`SQLITE_BUSY` or `SQLITE_LOCKED`):
/// its primary code, the low byte, is 5 or 6.
pub open spec fn lock_code(code: Seq<char>) -> bool {
    match parse_i32_spec(code) {
        Some(v) => (v & 0xffi32) == 5i32 || (v & 0xffi32) == 6i32,
        None => false,
    }
}

/// Whether a database error code names a SQLite lock.
pub fn is_sqlite_lock_code(code: &str) -> (b: bool)
    ensures
        b == lock_code(code@),
{
    let chars = str_chars(code);
    match parse_i32(chars.as_slice()) {
        Some(v) => (v & 0xff) == 5 || (v & 0xff) == 6,
        None => false,
    }
}

/// The pause before the attempt after `attempt` (counted from 0): 10 ms
/// more for each attempt made, and none after the last attempt.
pub open spec fn backoff_ms(attempt: int) -> Option<u64> {
    if attempt + 1 < MAX_TRANSACTION_ATTEMPTS {
        Some((10 * (attempt + 1)) as u64)
    } else {
        None
    }
}

/// The pause before the next attempt.
pub fn retry_backoff_ms(attempt: usize) -> (r: Option<u64>)
    ensures
        r == backoff_ms(attempt as int),
{
    if attempt < MAX_TRANSACTION_ATTEMPTS - 1 {
        Some(10 * (attempt as u64 + 1))
    } else {
        None
    }
}

/// What one transaction attempt came to.
#[derive(Clone, Copy, Debug, PartialEq, Eq)]
pub enum AttemptOutcome {
    /// The transaction could not begin; `retryable` for a pool timeout or a lock.
    BeginFailed { retryable: bool },
    /// The attempt succeeded and committed.
    Committed,
    /// The attempt succeeded but the commit failed; `lock` for a SQLite lock.
    CommitFailed { lock: bool },
    /// Another writer changed the hero first.
    Conflict,
    /// The command was refused; `lock` when the refusal is a SQLite lock.
    Refused { lock: bool },
    /// Rolling back the failed attempt failed.
    RollbackFailed,
}

/// What to do after an attempt.
#[derive(Clone, Copy, Debug, PartialEq, Eq)]
pub enum TxDecision {
    /// Return the committed change.
    Succeed,
    /// Return the attempt's error.
    Fail,
    /// Wait (when a pause is given) and attempt again.
    Retry { backoff_ms: Option<u64> },
}

/// The decision after attempt `attempt`: locks, timeouts and conflicts are
/// retried, every other failure is returned.
pub open spec fn decision(attempt: int, outcome: AttemptOutcome) -> TxDecision {
    match outcome {
        AttemptOutcome::Committed => TxDecision::Succeed,
        AttemptOutcome::BeginFailed { retryable } => if retryable {
            TxDecision::Retry { backoff_ms: backoff_ms(attempt) }
        } else {
            TxDecision::Fail
        },
        AttemptOutcome::CommitFailed { lock } => if lock {
            TxDecision::Retry { backoff_ms: backoff_ms(attempt) }
        } else {
            TxDecision::Fail
        },
        AttemptOutcome::Conflict => TxDecision::Retry { backoff_ms: backoff_ms(attempt) },
        AttemptOutcome::Refused { lock } => if lock {
            TxDecision::Retry { backoff_ms: backoff_ms(attempt) }
        } else {
            TxDecision::Fail
        },
        AttemptOutcome::RollbackFailed => TxDecision::Fail,
    }
}

/// Decides what follows an attempt.
pub fn decide_after_attempt(attempt: usize, outcome: AttemptOutcome) -> (d: TxDecision)
    ensures
        d == decision(attempt as int, outcome),
{
    match outcome {
        AttemptOutcome::Committed => TxDecision::Succeed,
        AttemptOutcome::BeginFailed { retryable } => if retryable {
            TxDecision::Retry { backoff_ms: retry_backoff_ms(attempt) }
        } else {
            TxDecision::Fail
        },
        AttemptOutcome::CommitFailed { lock } => if lock {
            TxDecision::Retry { backoff_ms: retry_backoff_ms(attempt) }
        } else {
            TxDecision::Fail
        },
        AttemptOutcome::Conflict => TxDecision::Retry { backoff_ms: retry_backoff_ms(attempt) },
        AttemptOutcome::Refused { lock } => if lock {
            TxDecision::Retry { backoff_ms: retry_backoff_ms(attempt) }
        } else {
            TxDecision::Fail
        },
        AttemptOutcome::RollbackFailed => TxDecision::Fail,
    }
}

/// The error returned when every attempt ended in a retry.
pub fn attempts_exhausted() -> (e: ProgressionError)
    ensures
        e is Conflict,
{
    ProgressionError::Conflict
}

/// The message of a hero lookup that did not find exactly one owned hero.
pub open spec fn owned_hero_message(hero_id: i32, found: nat) -> Seq<char> {
    "expected exactly one owned hero "@ + crate::text::int_text(hero_id as int) + ", found "@
        + crate::text::nat_text(found)
}

/// A Destiny command applies only to a hero the player owns exactly once.
pub fn exactly_one_owned_hero(hero_id: i32, found: usize) -> (r: Result<(), ProgressionError>)
    ensures
        found == 1 ==> r is Ok,
        found != 1 ==> (r matches Err(ProgressionError::Invalid(m)) && m@ == owned_hero_message(
            hero_id,
            found as nat,
        )),
{
    if found != 1 {
        let mut m = String::from_str("expected exactly one owned hero ");
        push_int(&mut m, hero_id as i64);
        push_str(&mut m, ", found ");
        push_uint(&mut m, found as u64);
        return Err(ProgressionError::Invalid(m));
    }
    Ok(())
}

/// A retried attempt waits 10 ms for each attempt made so far, except the
/// last attempt, after which no pause is taken and the transaction gives up.
pub proof fn retry_pause_grows_until_the_last_attempt(attempt: int, outcome: AttemptOutcome)
    requires
        0 <= attempt < MAX_TRANSACTION_ATTEMPTS,
    ensures
        decision(attempt, outcome) matches TxDecision::Retry { backoff_ms } ==> (if attempt + 1
            < MAX_TRANSACTION_ATTEMPTS {
            backoff_ms == Some((10 * (attempt + 1)) as u64)
        } else {
            backoff_ms is None
        }),
{
}

// ---------------------------------------------------------------------------
// One attempt
// ---------------------------------------------------------------------------

/// A row of the owned-hero lookup: the hero's uid, owner, id and progress.
#[derive(Clone, Copy, Debug, PartialEq, Eq, Structural)]
pub struct OwnedHeroRow {
    pub hero_uid: i64,
    pub user_id: i64,
    pub hero_id: i32,
    pub state: DestinyState,
}

/// Where one attempt of a Destiny command stands.
#[derive(Debug)]
pub enum AttemptStage {
    /// The player's rows for the commanded hero are being read.
    LookingUp,
    /// The owned hero's unlocked stones are being read.
    ReadingStones { row: OwnedHeroRow },
    /// The plan's costs are being deducted; cost `next` was asked for.
    Deducting { row: OwnedHeroRow, kind: MutationKind, costs: Vec<MaterialCost>, next: usize },
    /// The change is being written, provided the hero still holds its progress.
    Writing { row: OwnedHeroRow, kind: MutationKind },
    /// The written progress is being read back.
    ReadingBack { row: OwnedHeroRow },
    /// The attempt is over.
    Finished,
}

/// What an attempt asks of the store next, or how it ended.
#[derive(Debug)]
pub enum AttemptAction {
    /// Read the player's rows for hero `hero_id` (at most two).
    ReadHeroes { user_id: i64, hero_id: i32 },
    /// Read the unlocked stones of hero `hero_uid`.
    ReadUnlockedStones { hero_uid: i64 },
    /// Deduct `cost` if the player holds enough of it.
    Deduct { cost: MaterialCost },
    /// Write `kind` to hero `hero_uid` if it still holds `expected`; an
    /// unlock also records the stone when the row matched.
    Write { hero_uid: i64, kind: MutationKind, expected: DestinyState },
    /// Read hero `hero_uid`'s progress and unlocked stones back.
    ReadBack { hero_uid: i64 },
    /// The attempt succeeded with this change.
    Commit(CommittedDestinyChange),
    /// The command was refused.
    Refuse(ProgressionError),
    /// Another writer changed the hero first.
    Conflict,
}

/// One attempt of a Destiny command against the store.
#[derive(Debug)]
pub struct DestinyAttempt {
    pub user_id: i64,
    pub command: DestinyCommand,
    pub stage: AttemptStage,
}

/// The hero a command names.
fn commanded_hero(command: DestinyCommand) -> (h: i32)
    ensures
        h == command_hero_id(command),
{
    match command {
        DestinyCommand::RankUp { hero_id } => hero_id,
        DestinyCommand::LevelUp { hero_id, .. } => hero_id,
        DestinyCommand::UnlockStone { hero_id, .. } => hero_id,
        DestinyCommand::UseStone { hero_id, .. } => hero_id,
    }
}

impl DestinyAttempt {
    /// Starts an attempt: its first step reads the player's rows for the
    /// commanded hero.
    pub fn start(user_id: i64, command: DestinyCommand) -> (r: (DestinyAttempt, AttemptAction))
        ensures
            r.0.user_id == user_id,
            r.0.command == command,
            r.0.stage is LookingUp,
            r.1 == (AttemptAction::ReadHeroes { user_id, hero_id: command_hero_id(command) }),
    {
        let hero_id = commanded_hero(command);
        (
            DestinyAttempt { user_id, command, stage: AttemptStage::LookingUp },
            AttemptAction::ReadHeroes { user_id, hero_id },
        )
    }

    /// The lookup came back: exactly one owned row goes on to its stones,
    /// anything else refuses the command.
    pub fn on_heroes(&mut self, rows: &[OwnedHeroRow]) -> (a: AttemptAction)
        requires
            old(self).stage is LookingUp,
        ensures
            final(self).user_id == old(self).user_id,
            final(self).command == old(self).command,
            rows@.len() == 1 ==> final(self).stage == (AttemptStage::ReadingStones {
                row: rows@[0],
            }) && a == (AttemptAction::ReadUnlockedStones { hero_uid: rows@[0].hero_uid }),
            rows@.len() != 1 ==> final(self).stage is Finished && (a matches AttemptAction::Refuse(
                ProgressionError::Invalid(m),
            ) && m@ == owned_hero_message(command_hero_id(old(self).command), rows@.len())),
    {
        let hero_id = commanded_hero(self.command);
        match exactly_one_owned_hero(hero_id, rows.len()) {
            Err(e) => {
                self.stage = AttemptStage::Finished;
                AttemptAction::Refuse(e)
            },
            Ok(()) => {
                let row = rows[0];
                self.stage = AttemptStage::ReadingStones { row };
                AttemptAction::ReadUnlockedStones { hero_uid: row.hero_uid }
            },
        }
    }

    /// The unlocked stones came back: the command is planned against the
    /// stored hero. A refused plan refuses the command; a plan that changes
    /// nothing commits the stored progress unchanged; otherwise its costs are
    /// deducted one by one, in the plan's order, before the change is written.
    pub fn on_stones(&mut self, catalog: &DestinyConfigIndex, stones: Vec<i32>) -> (a: AttemptAction)
        requires
            old(self).stage is ReadingStones,
        ensures
            final(self).user_id == old(self).user_id,
            final(self).command == old(self).command,
            old(self).stage matches AttemptStage::ReadingStones { row } && {
                let outcome = plan_outcome(catalog, row.hero_id, row.state, stones@, old(self).command);
                if plan_refused(outcome) {
                    final(self).stage is Finished && (a matches AttemptAction::Refuse(e) && refused_with(&e, outcome))
                } else {
                    outcome matches PlanOutcome::Planned { kind, consumes } && if kind is NoChange {
                        final(self).stage is Finished && (a matches AttemptAction::Commit(c)
                            && c.hero_id == command_hero_id(old(self).command) && c.state == row.state
                            && c.unlocked_stones@ == stones@ && !c.changed)
                    } else {
                        final(self).stage matches AttemptStage::Deducting { row: r, kind: k, costs, next }
                            && r == row && k == kind && next == 0 && aggregated_costs(
                            entry_costs(raw_entries(consumes)),
                            costs@,
                        ) && if costs@.len() == 0 {
                            a == (AttemptAction::Write { hero_uid: row.hero_uid, kind, expected: row.state })
                        } else {
                            a == (AttemptAction::Deduct { cost: costs@[0] })
                        }
                    }
                }
            },
    {
        let mut stage = AttemptStage::Finished;
        std::mem::swap(&mut stage, &mut self.stage);
        let row = match stage {
            AttemptStage::ReadingStones { row } => row,
            _ => {
                assert(false);
                return AttemptAction::Conflict;
            },
        };
        let owned = OwnedDestinyHero {
            hero_uid: row.hero_uid,
            user_id: row.user_id,
            hero_id: row.hero_id,
            state: row.state,
            unlocked_stones: stones,
        };
        let plan = match plan_transition(catalog, &owned, self.command) {
            Ok(p) => p,
            Err(e) => return AttemptAction::Refuse(e),
        };
        let hero_id = commanded_hero(self.command);
        if plan.kind == MutationKind::NoChange {
            return AttemptAction::Commit(
                CommittedDestinyChange {
                    hero_id,
                    state: owned.state,
                    unlocked_stones: owned.unlocked_stones,
                    changed: false,
                },
            );
        }
        let kind = plan.kind;
        let action = if plan.costs.len() == 0 {
            AttemptAction::Write { hero_uid: row.hero_uid, kind, expected: row.state }
        } else {
            AttemptAction::Deduct { cost: plan.costs[0] }
        };
        self.stage = AttemptStage::Deducting { row, kind, costs: plan.costs, next: 0 };
        action
    }

    /// A deduction came back: a shortfall refuses the command with the cost
    /// that fell short; otherwise the next cost is deducted, or, after the
    /// last, the change is written.
    pub fn on_deducted(&mut self, sufficient: bool) -> (a: AttemptAction)
        requires
            old(self).stage matches AttemptStage::Deducting { costs, next, .. } && next < costs@.len(),
        ensures
            final(self).user_id == old(self).user_id,
            final(self).command == old(self).command,
            old(self).stage matches AttemptStage::Deducting { row, kind, costs, next } && if !sufficient {
                final(self).stage is Finished && (a matches AttemptAction::Refuse(
                    ProgressionError::Insufficient(c),
                ) && c == costs@[next as int])
            } else if next + 1 < costs@.len() {
                (final(self).stage matches AttemptStage::Deducting { row: r, kind: k, costs: c, next: n }
                    && r == row && k == kind && c@ == costs@ && n == next + 1)
                    && a == (AttemptAction::Deduct { cost: costs@[next + 1] })
            } else {
                final(self).stage == (AttemptStage::Writing { row, kind }) && a == (
                AttemptAction::Write { hero_uid: row.hero_uid, kind, expected: row.state })
            },
    {
        let mut stage = AttemptStage::Finished;
        std::mem::swap(&mut stage, &mut self.stage);
        match stage {
            AttemptStage::Deducting { row, kind, costs, next } => {
                let count = costs.len();
                if !sufficient {
                    return AttemptAction::Refuse(ProgressionError::Insufficient(costs[next]));
                }
                if next + 1 < count {
                    let cost = costs[next + 1];
                    self.stage = AttemptStage::Deducting { row, kind, costs, next: next + 1 };
                    AttemptAction::Deduct { cost }
                } else {
                    self.stage = AttemptStage::Writing { row, kind };
                    AttemptAction::Write { hero_uid: row.hero_uid, kind, expected: row.state }
                }
            },
            _ => {
                assert(false);
                AttemptAction::Conflict
            },
        }
    }

    /// The guarded write came back: unless exactly one row matched, another
    /// writer changed the hero first; otherwise the progress is read back.
    pub fn on_written(&mut self, rows_affected: u64) -> (a: AttemptAction)
        requires
            old(self).stage is Writing,
        ensures
            final(self).user_id == old(self).user_id,
            final(self).command == old(self).command,
            old(self).stage matches AttemptStage::Writing { row, .. } && if rows_affected == 1 {
                final(self).stage == (AttemptStage::ReadingBack { row }) && a == (
                AttemptAction::ReadBack { hero_uid: row.hero_uid })
            } else {
                final(self).stage is Finished && a is Conflict
            },
    {
        let mut stage = AttemptStage::Finished;
        std::mem::swap(&mut stage, &mut self.stage);
        match stage {
            AttemptStage::Writing { row, .. } => {
                if rows_affected != 1 {
                    return AttemptAction::Conflict;
                }
                self.stage = AttemptStage::ReadingBack { row };
                AttemptAction::ReadBack { hero_uid: row.hero_uid }
            },
            _ => {
                assert(false);
                AttemptAction::Conflict
            },
        }
    }

    /// The progress was read back: the attempt commits it as changed.
    pub fn on_read_back(&mut self, state: DestinyState, stones: Vec<i32>) -> (a: AttemptAction)
        requires
            old(self).stage is ReadingBack,
        ensures
            final(self).user_id == old(self).user_id,
            final(self).command == old(self).command,
            final(self).stage is Finished,
            a matches AttemptAction::Commit(c) && c.hero_id == command_hero_id(old(self).command)
                && c.state == state && c.unlocked_stones@ == stones@ && c.changed,
    {
        self.stage = AttemptStage::Finished;
        let hero_id = commanded_hero(self.command);
        AttemptAction::Commit(
            CommittedDestinyChange { hero_id, state, unlocked_stones: stones, changed: true },
        )
    }
}

} // verus!
