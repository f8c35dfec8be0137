//! How a refused Destiny command is answered: the failure class of a
//! progression error and the result code the reply carries.
use crate::progression::{DestinyState, ProgressionError};
use vstd::prelude::*;

verus! {

/// The class of a refused Destiny command, as the client sees it.
#[derive(Clone, Copy, Debug, PartialEq, Eq)]
pub enum DestinyProtocolFailure {
    Invalid,
    Insufficient,
    Conflict,
    Internal,
}

/// The failure class of each progression error.
pub open spec fn failure_of(error: &ProgressionError) -> DestinyProtocolFailure {
    match error {
        ProgressionError::Invalid(_) => DestinyProtocolFailure::Invalid,
        ProgressionError::Insufficient(_) => DestinyProtocolFailure::Insufficient,
        ProgressionError::Conflict => DestinyProtocolFailure::Conflict,
        ProgressionError::Database(_) => DestinyProtocolFailure::Internal,
    }
}

/// The reply result code of each failure class.
pub open spec fn failure_code(f: DestinyProtocolFailure) -> u16 {
    match f {
        DestinyProtocolFailure::Invalid => 1,
        DestinyProtocolFailure::Insufficient => 2,
        DestinyProtocolFailure::Conflict => 3,
        DestinyProtocolFailure::Internal => 4,
    }
}

impl DestinyProtocolFailure {
    /// The result code of the failure reply: 1 invalid, 2 insufficient,
    /// 3 conflict, 4 internal.
    pub fn result_code(self) -> (code: u16)
        ensures
            code == failure_code(self),
    {
        match self {
            DestinyProtocolFailure::Invalid => 1,
            DestinyProtocolFailure::Insufficient => 2,
            DestinyProtocolFailure::Conflict => 3,
            DestinyProtocolFailure::Internal => 4,
        }
    }

    /// The failure class of a progression error.
    pub fn from_error(error: &ProgressionError) -> (f: Self)
        ensures
            f == failure_of(error),
    {
        match error {
            ProgressionError::Invalid(_) => DestinyProtocolFailure::Invalid,
            ProgressionError::Insufficient(_) => DestinyProtocolFailure::Insufficient,
            ProgressionError::Conflict => DestinyProtocolFailure::Conflict,
            ProgressionError::Database(_) => DestinyProtocolFailure::Internal,
        }
    }
}

impl<'a> From<&'a ProgressionError> for DestinyProtocolFailure {
    fn from(error: &'a ProgressionError) -> (f: Self) {
        DestinyProtocolFailure::from_error(error)
    }
}

impl<'a> vstd::std_specs::convert::FromSpecImpl<&'a ProgressionError> for DestinyProtocolFailure {
    open spec fn obeys_from_spec() -> bool {
        true
    }

    open spec fn from_spec(error: &'a ProgressionError) -> DestinyProtocolFailure {
        failure_of(error)
    }
}

/// Distinct failure classes answer with distinct result codes, and a refused
/// command is never answered with the success code 0.
pub proof fn result_codes_are_distinct_and_nonzero(a: DestinyProtocolFailure, b: DestinyProtocolFailure)
    ensures
        failure_code(a) != 0,
        a != b ==> failure_code(a) != failure_code(b),
{
}

// ---------------------------------------------------------------------------
// The hero a successful command reports
// ---------------------------------------------------------------------------

/// What a committed Destiny command left: the hero, its Destiny progress and
/// unlocked stones as stored after the commit, and whether anything changed.
#[derive(Debug)]
pub struct CommittedDestinyChange {
    pub hero_id: i32,
    pub state: DestinyState,
    pub unlocked_stones: Vec<i32>,
    pub changed: bool,
}

/// The Destiny fields of a hero as the client is sent them.
#[derive(Debug, PartialEq, Eq)]
pub struct HeroDestinyFields {
    pub uid: i64,
    pub hero_id: i32,
    pub destiny_rank: Option<i32>,
    pub destiny_level: Option<i32>,
    pub destiny_stone: Option<i32>,
    pub destiny_stone_unlock: Vec<i32>,
}

/// The hero read after the commit, with its Destiny fields replaced by the
/// committed snapshot: the stored hero may lag behind it.
pub fn apply_committed_destiny_snapshot(hero: HeroDestinyFields, change: &CommittedDestinyChange) -> (r:
    HeroDestinyFields)
    ensures
        r.uid == hero.uid && r.hero_id == hero.hero_id,
        r.destiny_rank == Some(change.state.rank),
        r.destiny_level == Some(change.state.level),
        r.destiny_stone == Some(change.state.stone),
        r.destiny_stone_unlock@ == change.unlocked_stones@,
{
    let mut hero = hero;
    hero.destiny_rank = Some(change.state.rank);
    hero.destiny_level = Some(change.state.level);
    hero.destiny_stone = Some(change.state.stone);
    hero.destiny_stone_unlock = change.unlocked_stones.clone();
    hero
}

} // verus!
