//! The attacker team's line-up: which position each owned hero, owned
//! substitute and trial hero takes, and in which order the team lists them.
use crate::battle::fight::{
    claim_next_attacker_position, try_attacker_substitute_result, try_attacker_substitute_uid,
    uid_error_text, UidError,
};
use crate::battle::trial::{FightGroup, FightGroupView, NormalizedTrial};
use crate::text::{int_text, push_int, push_str};
use std::collections::HashSet;
use vstd::prelude::*;

verus! {

broadcast use vstd::std_specs::hash::group_hash_axioms;

/// Who takes a place in the team.
#[derive(Clone, Copy, Debug, PartialEq, Eq)]
pub enum TeamMember {
    /// An owned hero; an owned substitute carries the UID it fights under.
    Owned { hero_uid: i64, substitute_uid: Option<i64> },
    /// A trial hero.
    Trial { trial_id: i32, uid: i64 },
}

/// A place in the team.
#[derive(Clone, Copy, Debug, PartialEq, Eq)]
pub struct TeamSlot {
    pub position: i32,
    pub member: TeamMember,
}

/// Why the attacker team could not be lined up.
#[derive(Clone, Copy, Debug, PartialEq, Eq)]
pub enum TeamPlanError {
    DuplicateAttackerPosition(i32),
    InvalidSubstituteTrialPosition(i32),
    DuplicateSubstitutePosition(i32),
    AttackerPositionOutOfRange,
    SubstitutePositionOutOfRange,
    Position(UidError),
    SubstituteUid(UidError),
    MissingTrialPosition { trial_id: i32, substitute: bool },
}

// ---------------------------------------------------------------------------
// Trial positions
// ---------------------------------------------------------------------------

/// The positions of the active trial heroes from `i` on, added to `occ`;
/// a position taken twice is refused.
pub open spec fn active_trial_positions(trials: Seq<NormalizedTrial>, i: int, occ: Set<i32>) -> Result<
    Set<i32>,
    TeamPlanError,
>
    decreases trials.len() - i,
{
    if i < 0 || i >= trials.len() {
        Ok(occ)
    } else {
        let t = trials[i];
        if !t.is_substitute && t.position is Some {
            let p = t.position.unwrap();
            if occ.contains(p) {
                Err(TeamPlanError::DuplicateAttackerPosition(p))
            } else {
                active_trial_positions(trials, i + 1, occ.insert(p))
            }
        } else {
            active_trial_positions(trials, i + 1, occ)
        }
    }
}

/// The substitute positions of the substitute trial heroes from `i` on
/// (their negated wire positions), added to `occ`; a position that cannot
/// be negated or is taken twice is refused.
pub open spec fn substitute_trial_positions(
    trials: Seq<NormalizedTrial>,
    i: int,
    occ: Set<i32>,
) -> Result<Set<i32>, TeamPlanError>
    decreases trials.len() - i,
{
    if i < 0 || i >= trials.len() {
        Ok(occ)
    } else {
        let t = trials[i];
        if t.is_substitute && t.position is Some {
            let p = t.position.unwrap();
            if p == i32::MIN {
                Err(TeamPlanError::InvalidSubstituteTrialPosition(p))
            } else if occ.contains((-p) as i32) {
                Err(TeamPlanError::DuplicateSubstitutePosition((-p) as i32))
            } else {
                substitute_trial_positions(trials, i + 1, occ.insert((-p) as i32))
            }
        } else {
            substitute_trial_positions(trials, i + 1, occ)
        }
    }
}

/// Collects the active trial positions, then the substitute ones.
fn collect_trial_positions(trials: &[NormalizedTrial]) -> (r: Result<
    (HashSet<i32>, HashSet<i32>),
    TeamPlanError,
>)
    ensures
        match active_trial_positions(trials@, 0, Set::empty()) {
            Err(e) => r == Err::<(HashSet<i32>, HashSet<i32>), TeamPlanError>(e),
            Ok(occ) => match substitute_trial_positions(trials@, 0, Set::empty()) {
                Err(e) => r == Err::<(HashSet<i32>, HashSet<i32>), TeamPlanError>(e),
                Ok(sub_occ) => r matches Ok((a, b)) && a@ == occ && b@ == sub_occ,
            },
        },
{
    let mut occupied: HashSet<i32> = HashSet::new();
    let mut i: usize = 0;
    while i < trials.len()
        invariant
            i <= trials@.len(),
            active_trial_positions(trials@, 0, Set::empty()) == active_trial_positions(
                trials@,
                i as int,
                occupied@,
            ),
        decreases trials@.len() - i,
    {
        let t = trials[i];
        if !t.is_substitute {
            if let Some(p) = t.position {
                if occupied.contains(&p) {
                    return Err(TeamPlanError::DuplicateAttackerPosition(p));
                }
                occupied.insert(p);
            }
        }
        i = i + 1;
    }
    let mut sub_occupied: HashSet<i32> = HashSet::new();
    let mut j: usize = 0;
    while j < trials.len()
        invariant
            j <= trials@.len(),
            active_trial_positions(trials@, 0, Set::empty()) == Ok::<Set<i32>, TeamPlanError>(
                occupied@,
            ),
            substitute_trial_positions(trials@, 0, Set::empty()) == substitute_trial_positions(
                trials@,
                j as int,
                sub_occupied@,
            ),
        decreases trials@.len() - j,
    {
        let t = trials[j];
        if t.is_substitute {
            if let Some(p) = t.position {
                if p == i32::MIN {
                    return Err(TeamPlanError::InvalidSubstituteTrialPosition(p));
                }
                let q = -p;
                if sub_occupied.contains(&q) {
                    return Err(TeamPlanError::DuplicateSubstitutePosition(q));
                }
                sub_occupied.insert(q);
            }
        }
        j = j + 1;
    }
    Ok((occupied, sub_occupied))
}

// ---------------------------------------------------------------------------
// Owned heroes
// ---------------------------------------------------------------------------

/// The first free position from `next` on; none is left once the search or
/// the step past the claimed position leaves `i32`.
pub open spec fn claim_position(occ: Set<i32>, next: i32) -> Result<i32, UidError>
    decreases i32::MAX - next,
{
    if !occ.contains(next) {
        if next < i32::MAX {
            Ok(next)
        } else {
            Err(UidError::PositionOverflow)
        }
    } else if next == i32::MAX {
        Err(UidError::PositionOverflow)
    } else {
        claim_position(occ, (next + 1) as i32)
    }
}

proof fn lemma_claim_found(occ: Set<i32>, next: i32, p: i32)
    requires
        next <= p < i32::MAX,
        !occ.contains(p),
        forall|q: i32| next <= q < p ==> occ.contains(q),
    ensures
        claim_position(occ, next) == Ok::<i32, UidError>(p),
    decreases p - next,
{
    if next < p {
        lemma_claim_found(occ, (next + 1) as i32, p);
    }
}

proof fn lemma_claim_exhausted(occ: Set<i32>, next: i32)
    requires
        forall|q: i32| next <= q < i32::MAX ==> occ.contains(q),
    ensures
        claim_position(occ, next) == Err::<i32, UidError>(UidError::PositionOverflow),
    decreases i32::MAX - next,
{
    if next < i32::MAX {
        lemma_claim_exhausted(occ, (next + 1) as i32);
    }
}

/// Claims the first free position from `next` on.
fn claim(occupied: &mut HashSet<i32>, next: &mut i32) -> (r: Result<i32, UidError>)
    ensures
        r == claim_position(old(occupied)@, *old(next)),
        r matches Ok(p) ==> final(occupied)@ == old(occupied)@.insert(p) && *final(next) == p + 1,
{
    let r = claim_next_attacker_position(occupied, next);
    proof {
        match r {
            Ok(p) => lemma_claim_found(old(occupied)@, *old(next), p),
            Err(_) => lemma_claim_exhausted(old(occupied)@, *old(next)),
        }
    }
    r
}

/// The error of a position taken twice, in the main or the substitute
/// line-up.
pub open spec fn duplicate_position(substitute: bool, p: i32) -> TeamPlanError {
    if substitute {
        TeamPlanError::DuplicateSubstitutePosition(p)
    } else {
        TeamPlanError::DuplicateAttackerPosition(p)
    }
}

/// The error of a wire position outside `i32`.
pub open spec fn position_out_of_range(substitute: bool) -> TeamPlanError {
    if substitute {
        TeamPlanError::SubstitutePositionOutOfRange
    } else {
        TeamPlanError::AttackerPositionOutOfRange
    }
}

/// Where the hero at wire index `w` of a line-up stands, the positions
/// taken being `occ`: with explicit trial heroes, the next free position;
/// otherwise its wire position, which must be free.
pub open spec fn place(w: int, occ: Set<i32>, next: i32, explicit: bool, substitute: bool) -> Result<
    i32,
    TeamPlanError,
> {
    if explicit {
        match claim_position(occ, next) {
            Ok(p) => Ok(p),
            Err(e) => Err(TeamPlanError::Position(e)),
        }
    } else if w + 1 > i32::MAX {
        Err(position_out_of_range(substitute))
    } else if occ.contains((w + 1) as i32) {
        Err(duplicate_position(substitute, (w + 1) as i32))
    } else {
        Ok((w + 1) as i32)
    }
}

/// Places the hero at wire index `w`.
fn place_at(w: usize, occupied: &mut HashSet<i32>, next: &mut i32, explicit: bool, substitute: bool) -> (r: Result<
    i32,
    TeamPlanError,
>)
    ensures
        r == place(w as int, old(occupied)@, *old(next), explicit, substitute),
        r matches Ok(p) ==> final(occupied)@ == old(occupied)@.insert(p) && *final(next)
            == next_after(*old(next), p, explicit),
{
    if explicit {
        match claim(occupied, next) {
            Ok(p) => Ok(p),
            Err(e) => Err(TeamPlanError::Position(e)),
        }
    } else {
        if w >= 2147483647 {
            return Err(
                if substitute {
                    TeamPlanError::SubstitutePositionOutOfRange
                } else {
                    TeamPlanError::AttackerPositionOutOfRange
                },
            );
        }
        let p = (w + 1) as i32;
        if occupied.contains(&p) {
            return Err(
                if substitute {
                    TeamPlanError::DuplicateSubstitutePosition(p)
                } else {
                    TeamPlanError::DuplicateAttackerPosition(p)
                },
            );
        }
        occupied.insert(p);
        Ok(p)
    }
}

/// The counter after placing at `p`.
pub open spec fn next_after(next: i32, p: i32, explicit: bool) -> i32 {
    if explicit {
        (p + 1) as i32
    } else {
        next
    }
}

/// The main slots of the owned heroes of `heroes` from wire index `w` on.
/// Without explicit trial heroes, negative entries (battle aids) are
/// skipped; every other entry takes a position, and those with a positive
/// UID become slots.
pub open spec fn owned_main_slots(
    heroes: Seq<i64>,
    w: int,
    occ: Set<i32>,
    next: i32,
    explicit: bool,
) -> Result<Seq<TeamSlot>, TeamPlanError>
    decreases heroes.len() - w,
{
    if w < 0 || w >= heroes.len() {
        Ok(Seq::empty())
    } else if heroes[w] < 0 && !explicit {
        owned_main_slots(heroes, w + 1, occ, next, explicit)
    } else {
        match place(w, occ, next, explicit, false) {
            Err(e) => Err(e),
            Ok(p) => match owned_main_slots(
                heroes,
                w + 1,
                occ.insert(p),
                next_after(next, p, explicit),
                explicit,
            ) {
                Err(e) => Err(e),
                Ok(rest) => Ok(
                    if heroes[w] > 0 {
                        seq![
                            TeamSlot {
                                position: p,
                                member: TeamMember::Owned { hero_uid: heroes[w], substitute_uid: None },
                            },
                        ] + rest
                    } else {
                        rest
                    },
                ),
            },
        }
    }
}

/// `acc` followed by the slots of `r`.
pub open spec fn after(acc: Seq<TeamSlot>, r: Result<Seq<TeamSlot>, TeamPlanError>) -> Result<
    Seq<TeamSlot>,
    TeamPlanError,
> {
    match r {
        Ok(rest) => Ok(acc + rest),
        Err(e) => Err(e),
    }
}

/// Places the owned heroes of the main line-up.
fn place_owned_mains(heroes: &[i64], taken: HashSet<i32>, explicit: bool) -> (r: Result<
    Vec<TeamSlot>,
    TeamPlanError,
>)
    ensures
        match owned_main_slots(heroes@, 0, taken@, 1, explicit) {
            Ok(s) => r matches Ok(v) && v@ == s,
            Err(e) => r == Err::<Vec<TeamSlot>, TeamPlanError>(e),
        },
{
    let ghost occ0 = taken@;
    let mut occupied = taken;
    let mut next: i32 = 1;
    let mut slots: Vec<TeamSlot> = Vec::new();
    let mut w: usize = 0;
    while w < heroes.len()
        invariant
            w <= heroes@.len(),
            occ0 == taken@,
            owned_main_slots(heroes@, 0, occ0, 1, explicit) == after(
                slots@,
                owned_main_slots(heroes@, w as int, occupied@, next, explicit),
            ),
        decreases heroes@.len() - w,
    {
        let h = heroes[w];
        if h < 0 && !explicit {
            w = w + 1;
            continue;
        }
        let ghost occ_w = occupied@;
        let ghost next_w = next;
        let position = match place_at(w, &mut occupied, &mut next, explicit, false) {
            Ok(p) => p,
            Err(e) => {
                assert(owned_main_slots(heroes@, w as int, occ_w, next_w, explicit) == Err::<Seq<TeamSlot>, TeamPlanError>(e));
                return Err(e);
            },
        };
        if h > 0 {
            let slot = TeamSlot { position, member: TeamMember::Owned { hero_uid: h, substitute_uid: None } };
            let ghost before = slots@;
            slots.push(slot);
            assert(slots@ == before + seq![slot]);
            proof {
                match owned_main_slots(heroes@, w + 1, occupied@, next, explicit) {
                    Ok(rest) => assert(before + (seq![slot] + rest) =~= slots@ + rest),
                    Err(_) => {},
                }
            }
        }
        w = w + 1;
    }
    assert(slots@ + Seq::<TeamSlot>::empty() =~= slots@);
    Ok(slots)
}

/// The substitute slots of the owned substitutes of `subs` from wire index
/// `w` on, `k` owned substitutes having come before: placed as the main
/// heroes are, each owned one fighting under the substitute UID after the
/// `count` trial UIDs.
pub open spec fn owned_sub_slots(
    subs: Seq<i64>,
    w: int,
    occ: Set<i32>,
    next: i32,
    explicit: bool,
    count: usize,
    k: int,
) -> Result<Seq<TeamSlot>, TeamPlanError>
    decreases subs.len() - w,
{
    if w < 0 || w >= subs.len() {
        Ok(Seq::empty())
    } else if subs[w] < 0 && !explicit {
        owned_sub_slots(subs, w + 1, occ, next, explicit, count, k)
    } else {
        match place(w, occ, next, explicit, true) {
            Err(e) => Err(e),
            Ok(p) => if subs[w] > 0 {
                match try_attacker_substitute_result(count, k as usize) {
                    Err(e) => Err(TeamPlanError::SubstituteUid(e)),
                    Ok(uid) => match owned_sub_slots(
                        subs,
                        w + 1,
                        occ.insert(p),
                        next_after(next, p, explicit),
                        explicit,
                        count,
                        k + 1,
                    ) {
                        Err(e) => Err(e),
                        Ok(rest) => Ok(
                            seq![
                                TeamSlot {
                                    position: p,
                                    member: TeamMember::Owned { hero_uid: subs[w], substitute_uid: Some(uid) },
                                },
                            ] + rest,
                        ),
                    },
                }
            } else {
                owned_sub_slots(
                    subs,
                    w + 1,
                    occ.insert(p),
                    next_after(next, p, explicit),
                    explicit,
                    count,
                    k,
                )
            },
        }
    }
}

/// Places the owned substitutes.
fn place_owned_subs(subs: &[i64], taken: HashSet<i32>, explicit: bool, count: usize) -> (r: Result<
    Vec<TeamSlot>,
    TeamPlanError,
>)
    ensures
        match owned_sub_slots(subs@, 0, taken@, 1, explicit, count, 0) {
            Ok(s) => r matches Ok(v) && v@ == s,
            Err(e) => r == Err::<Vec<TeamSlot>, TeamPlanError>(e),
        },
{
    let ghost occ0 = taken@;
    let mut occupied = taken;
    let mut next: i32 = 1;
    let mut slots: Vec<TeamSlot> = Vec::new();
    let mut owned: usize = 0;
    let mut w: usize = 0;
    while w < subs.len()
        invariant
            w <= subs@.len(),
            occ0 == taken@,
            owned <= w,
            owned_sub_slots(subs@, 0, occ0, 1, explicit, count, 0) == after(
                slots@,
                owned_sub_slots(subs@, w as int, occupied@, next, explicit, count, owned as int),
            ),
        decreases subs@.len() - w,
    {
        let h = subs[w];
        if h < 0 && !explicit {
            w = w + 1;
            continue;
        }
        let ghost occ_w = occupied@;
        let ghost next_w = next;
        let position = match place_at(w, &mut occupied, &mut next, explicit, true) {
            Ok(p) => p,
            Err(e) => {
                assert(owned_sub_slots(subs@, w as int, occ_w, next_w, explicit, count, owned as int) == Err::<Seq<TeamSlot>, TeamPlanError>(e));
                return Err(e);
            },
        };
        if h > 0 {
            let uid = match try_attacker_substitute_uid(count, owned) {
                Ok(uid) => uid,
                Err(e) => {
                    assert(owned_sub_slots(subs@, w as int, occ_w, next_w, explicit, count, owned as int)
                        == Err::<Seq<TeamSlot>, TeamPlanError>(TeamPlanError::SubstituteUid(e)));
                    return Err(TeamPlanError::SubstituteUid(e));
                },
            };
            let slot = TeamSlot {
                position,
                member: TeamMember::Owned { hero_uid: h, substitute_uid: Some(uid) },
            };
            let ghost before = slots@;
            slots.push(slot);
            owned = owned + 1;
            proof {
                match owned_sub_slots(subs@, w + 1, occupied@, next, explicit, count, owned as int) {
                    Ok(rest) => assert(before + (seq![slot] + rest) =~= slots@ + rest),
                    Err(_) => {},
                }
            }
        }
        w = w + 1;
    }
    assert(slots@ + Seq::<TeamSlot>::empty() =~= slots@);
    Ok(slots)
}

// ---------------------------------------------------------------------------
// Trial heroes
// ---------------------------------------------------------------------------

/// The main and substitute slots of the trial heroes from `i` on: an active
/// trial hero at its position, a substitute at its negated position; each
/// must have one.
pub open spec fn trial_slots(trials: Seq<NormalizedTrial>, i: int) -> Result<
    (Seq<TeamSlot>, Seq<TeamSlot>),
    TeamPlanError,
>
    decreases trials.len() - i,
{
    if i < 0 || i >= trials.len() {
        Ok((Seq::empty(), Seq::empty()))
    } else {
        let t = trials[i];
        let member = TeamMember::Trial { trial_id: t.trial_id, uid: t.uid };
        if t.is_substitute {
            if t.position is Some && t.position.unwrap() != i32::MIN {
                let slot = TeamSlot { position: (-t.position.unwrap()) as i32, member };
                match trial_slots(trials, i + 1) {
                    Err(e) => Err(e),
                    Ok((m, s)) => Ok((m, seq![slot] + s)),
                }
            } else {
                Err(TeamPlanError::MissingTrialPosition { trial_id: t.trial_id, substitute: true })
            }
        } else {
            match t.position {
                None => Err(
                    TeamPlanError::MissingTrialPosition { trial_id: t.trial_id, substitute: false },
                ),
                Some(p) => match trial_slots(trials, i + 1) {
                    Err(e) => Err(e),
                    Ok((m, s)) => Ok((seq![TeamSlot { position: p, member }] + m, s)),
                },
            }
        }
    }
}

/// `(m, s)` followed by the slots of `r`.
pub open spec fn after_both(
    m: Seq<TeamSlot>,
    s: Seq<TeamSlot>,
    r: Result<(Seq<TeamSlot>, Seq<TeamSlot>), TeamPlanError>,
) -> Result<(Seq<TeamSlot>, Seq<TeamSlot>), TeamPlanError> {
    match r {
        Ok((m2, s2)) => Ok((m + m2, s + s2)),
        Err(e) => Err(e),
    }
}

/// Places the trial heroes.
fn place_trials(trials: &[NormalizedTrial]) -> (r: Result<(Vec<TeamSlot>, Vec<TeamSlot>), TeamPlanError>)
    ensures
        match trial_slots(trials@, 0) {
            Ok((m, s)) => r matches Ok((a, b)) && a@ == m && b@ == s,
            Err(e) => r == Err::<(Vec<TeamSlot>, Vec<TeamSlot>), TeamPlanError>(e),
        },
{
    let mut mains: Vec<TeamSlot> = Vec::new();
    let mut subs: Vec<TeamSlot> = Vec::new();
    let mut i: usize = 0;
    while i < trials.len()
        invariant
            i <= trials@.len(),
            trial_slots(trials@, 0) == after_both(mains@, subs@, trial_slots(trials@, i as int)),
        decreases trials@.len() - i,
    {
        let t = trials[i];
        let member = TeamMember::Trial { trial_id: t.trial_id, uid: t.uid };
        let ghost m0 = mains@;
        let ghost s0 = subs@;
        if t.is_substitute {
            let p = match t.position {
                Some(p) => p,
                None => {
                    return Err(
                        TeamPlanError::MissingTrialPosition { trial_id: t.trial_id, substitute: true },
                    );
                },
            };
            if p == i32::MIN {
                return Err(
                    TeamPlanError::MissingTrialPosition { trial_id: t.trial_id, substitute: true },
                );
            }
            let slot = TeamSlot { position: -p, member };
            subs.push(slot);
            proof {
                match trial_slots(trials@, i + 1) {
                    Ok((m2, s2)) => {
                        assert(s0 + (seq![slot] + s2) =~= subs@ + s2);
                        assert(m0 == mains@);
                    },
                    Err(_) => {},
                }
            }
        } else {
            let p = match t.position {
                Some(p) => p,
                None => {
                    return Err(
                        TeamPlanError::MissingTrialPosition {
                            trial_id: t.trial_id,
                            substitute: false,
                        },
                    );
                },
            };
            let slot = TeamSlot { position: p, member };
            mains.push(slot);
            proof {
                match trial_slots(trials@, i + 1) {
                    Ok((m2, s2)) => {
                        assert(m0 + (seq![slot] + m2) =~= mains@ + m2);
                    },
                    Err(_) => {},
                }
            }
        }
        i = i + 1;
    }
    assert(mains@ + Seq::<TeamSlot>::empty() =~= mains@);
    assert(subs@ + Seq::<TeamSlot>::empty() =~= subs@);
    Ok((mains, subs))
}

// ---------------------------------------------------------------------------
// Ordering the line-up
// ---------------------------------------------------------------------------

/// Where a slot at `position` goes in an ordered line-up: after every slot
/// whose position is not above it.
pub open spec fn insertion_index(sorted: Seq<TeamSlot>, position: i32) -> int
    decreases sorted.len(),
{
    if sorted.len() == 0 {
        0
    } else if sorted[0].position > position {
        0
    } else {
        1 + insertion_index(sorted.drop_first(), position)
    }
}

/// The slots ordered by position, slots at one position keeping their
/// order (a stable sort by position).
pub open spec fn sort_slots(s: Seq<TeamSlot>) -> Seq<TeamSlot>
    decreases s.len(),
{
    if s.len() == 0 {
        s
    } else {
        let sorted = sort_slots(s.drop_last());
        sorted.insert(insertion_index(sorted, s.last().position), s.last())
    }
}

/// Positions never decrease along the line-up.
pub open spec fn ordered_by_position(s: Seq<TeamSlot>) -> bool {
    forall|i: int, j: int| 0 <= i < j < s.len() ==> (#[trigger] s[i]).position <= (#[trigger] s[j]).position
}

proof fn lemma_insertion_index(s: Seq<TeamSlot>, position: i32, i: int)
    requires
        0 <= i <= s.len(),
        forall|j: int| 0 <= j < i ==> (#[trigger] s[j]).position <= position,
        i == s.len() || s[i].position > position,
    ensures
        insertion_index(s, position) == i,
    decreases s.len(),
{
    if s.len() > 0 && i > 0 {
        assert forall|j: int| 0 <= j < i - 1 implies (#[trigger] s.drop_first()[j]).position
            <= position by {
            assert(s.drop_first()[j] == s[j + 1]);
        }
        lemma_insertion_index(s.drop_first(), position, i - 1);
    }
}

proof fn lemma_insertion_bounds(s: Seq<TeamSlot>, position: i32)
    ensures
        0 <= insertion_index(s, position) <= s.len(),
        forall|j: int| 0 <= j < insertion_index(s, position) ==> (#[trigger] s[j]).position <= position,
        insertion_index(s, position) < s.len() ==> s[insertion_index(s, position)].position > position,
    decreases s.len(),
{
    if s.len() > 0 && s[0].position <= position {
        lemma_insertion_bounds(s.drop_first(), position);
        assert forall|j: int| 0 <= j < insertion_index(s, position) implies (#[trigger] s[j]).position
            <= position by {
            if j > 0 {
                assert(s[j] == s.drop_first()[j - 1]);
            }
        }
    }
}

proof fn lemma_sort_ordered(s: Seq<TeamSlot>)
    ensures
        ordered_by_position(sort_slots(s)),
        sort_slots(s).len() == s.len(),
    decreases s.len(),
{
    if s.len() > 0 {
        let sorted = sort_slots(s.drop_last());
        lemma_sort_ordered(s.drop_last());
        let x = s.last();
        let k = insertion_index(sorted, x.position);
        lemma_insertion_bounds(sorted, x.position);
        let r = sorted.insert(k, x);
        assert forall|i: int, j: int| 0 <= i < j < r.len() implies (#[trigger] r[i]).position
            <= (#[trigger] r[j]).position by {
            if j < k {
                assert(r[i] == sorted[i] && r[j] == sorted[j]);
            } else if j == k {
                assert(r[i] == sorted[i]);
            } else if i < k {
                assert(r[i] == sorted[i] && r[j] == sorted[j - 1]);
            } else if i == k {
                assert(r[j] == sorted[j - 1]);
            } else {
                assert(r[i] == sorted[i - 1] && r[j] == sorted[j - 1]);
            }
        }
    }
}

/// Where a slot at `position` goes in an ordered line-up.
fn find_insertion(sorted: &Vec<TeamSlot>, position: i32) -> (idx: usize)
    ensures
        idx == insertion_index(sorted@, position),
{
    let mut i: usize = 0;
    while i < sorted.len() && sorted[i].position <= position
        invariant
            i <= sorted@.len(),
            forall|j: int| 0 <= j < i ==> (#[trigger] sorted@[j]).position <= position,
        decreases sorted@.len() - i,
    {
        i = i + 1;
    }
    proof {
        lemma_insertion_index(sorted@, position, i as int);
    }
    i
}

/// Orders slots by position, stably.
pub fn sort_by_position(slots: Vec<TeamSlot>) -> (sorted: Vec<TeamSlot>)
    ensures
        sorted@ == sort_slots(slots@),
        ordered_by_position(sorted@),
        sorted@.len() == slots@.len(),
{
    let mut sorted: Vec<TeamSlot> = Vec::new();
    let mut i: usize = 0;
    assert(slots@.take(0) =~= Seq::<TeamSlot>::empty());
    while i < slots.len()
        invariant
            i <= slots@.len(),
            sorted@ == sort_slots(slots@.take(i as int)),
        decreases slots@.len() - i,
    {
        let x = slots[i];
        assert(slots@.take(i as int + 1).drop_last() =~= slots@.take(i as int));
        assert(slots@.take(i as int + 1).last() == x);
        let k = find_insertion(&sorted, x.position);
        proof {
            lemma_insertion_bounds(sorted@, x.position);
        }
        sorted.insert(k, x);
        i = i + 1;
    }
    assert(slots@.take(slots@.len() as int) =~= slots@);
    proof {
        lemma_sort_ordered(slots@);
    }
    sorted
}

// ---------------------------------------------------------------------------
// The whole line-up
// ---------------------------------------------------------------------------

/// The attacker line-up: main slots and substitute slots, each ordered by
/// position.
#[derive(Debug)]
pub struct AttackerPlan {
    pub mains: Vec<TeamSlot>,
    pub subs: Vec<TeamSlot>,
}

/// The line-up of `group`, whose trial heroes normalise to `trials` and
/// reserve `count` attacker UIDs: the trial positions are taken first
/// (active, then substitute); the owned heroes, then the owned substitutes
/// take theirs; then the trial heroes join; each line-up is ordered by
/// position.
pub open spec fn attacker_plan(group: FightGroupView, trials: Seq<NormalizedTrial>, count: usize) -> Result<
    (Seq<TeamSlot>, Seq<TeamSlot>),
    TeamPlanError,
> {
    let explicit = group.trial_hero_list.len() > 0;
    match active_trial_positions(trials, 0, Set::empty()) {
        Err(e) => Err(e),
        Ok(occ) => match substitute_trial_positions(trials, 0, Set::empty()) {
            Err(e) => Err(e),
            Ok(sub_occ) => match owned_main_slots(group.hero_list, 0, occ, 1, explicit) {
                Err(e) => Err(e),
                Ok(m) => match owned_sub_slots(group.sub_hero_list, 0, sub_occ, 1, explicit, count, 0) {
                    Err(e) => Err(e),
                    Ok(s) => match trial_slots(trials, 0) {
                        Err(e) => Err(e),
                        Ok((tm, ts)) => Ok((sort_slots(m + tm), sort_slots(s + ts))),
                    },
                },
            },
        },
    }
}

/// Lines up the attacker team of `group`, whose trial heroes normalise to
/// `trials` and reserve `trial_uid_count` attacker UIDs.
pub fn plan_attacker_team(group: &FightGroup, trials: &[NormalizedTrial], trial_uid_count: usize) -> (r: Result<
    AttackerPlan,
    TeamPlanError,
>)
    ensures
        match attacker_plan(group@, trials@, trial_uid_count) {
            Ok((m, s)) => r matches Ok(p) && p.mains@ == m && p.subs@ == s,
            Err(e) => r matches Err(x) && x == e,
        },
        r matches Ok(p) ==> ordered_by_position(p.mains@) && ordered_by_position(p.subs@),
{
    let (occupied, sub_occupied) = match collect_trial_positions(trials) {
        Ok(v) => v,
        Err(e) => return Err(e),
    };
    let explicit = group.trial_hero_list.len() > 0;
    let mut mains = match place_owned_mains(group.hero_list.as_slice(), occupied, explicit) {
        Ok(v) => v,
        Err(e) => return Err(e),
    };
    let mut subs = match place_owned_subs(
        group.sub_hero_list.as_slice(),
        sub_occupied,
        explicit,
        trial_uid_count,
    ) {
        Ok(v) => v,
        Err(e) => return Err(e),
    };
    let (mut trial_mains, mut trial_subs) = match place_trials(trials) {
        Ok(v) => v,
        Err(e) => return Err(e),
    };
    mains.append(&mut trial_mains);
    subs.append(&mut trial_subs);
    let mains = sort_by_position(mains);
    let subs = sort_by_position(subs);
    Ok(AttackerPlan { mains, subs })
}

// ---------------------------------------------------------------------------
// Every position is taken once
// ---------------------------------------------------------------------------

/// No two slots share a position.
pub open spec fn distinct_positions(s: Seq<TeamSlot>) -> bool {
    forall|i: int, j: int| 0 <= i < j < s.len() ==> (#[trigger] s[i]).position != (#[trigger] s[j]).position
}

/// A slot followed by slots at other positions keeps positions distinct.
proof fn lemma_prepend_distinct(x: TeamSlot, rest: Seq<TeamSlot>)
    requires
        distinct_positions(rest),
        forall|j: int| 0 <= j < rest.len() ==> (#[trigger] rest[j]).position != x.position,
    ensures
        distinct_positions(seq![x] + rest),
{
    let r = seq![x] + rest;
    assert forall|i: int, j: int| 0 <= i < j < r.len() implies (#[trigger] r[i]).position
        != (#[trigger] r[j]).position by {
        assert(r[j] == rest[j - 1]);
        if i > 0 {
            assert(r[i] == rest[i - 1]);
        }
    }
}

proof fn lemma_claim_free(occ: Set<i32>, next: i32)
    ensures
        claim_position(occ, next) matches Ok(p) ==> !occ.contains(p),
    decreases i32::MAX - next,
{
    if occ.contains(next) && next < i32::MAX {
        lemma_claim_free(occ, (next + 1) as i32);
    }
}

proof fn lemma_place_free(w: int, occ: Set<i32>, next: i32, explicit: bool, substitute: bool)
    ensures
        place(w, occ, next, explicit, substitute) matches Ok(p) ==> !occ.contains(p),
{
    lemma_claim_free(occ, next);
}

proof fn lemma_owned_mains_fresh(heroes: Seq<i64>, w: int, occ: Set<i32>, next: i32, explicit: bool)
    ensures
        owned_main_slots(heroes, w, occ, next, explicit) matches Ok(sl) ==> distinct_positions(sl)
            && forall|i: int| 0 <= i < sl.len() ==> !occ.contains(#[trigger] sl[i].position),
    decreases heroes.len() - w,
{
    if 0 <= w < heroes.len() {
        if heroes[w] < 0 && !explicit {
            lemma_owned_mains_fresh(heroes, w + 1, occ, next, explicit);
        } else {
            lemma_place_free(w, occ, next, explicit, false);
            if let Ok(p) = place(w, occ, next, explicit, false) {
                let occ2 = occ.insert(p);
                let next2 = next_after(next, p, explicit);
                lemma_owned_mains_fresh(heroes, w + 1, occ2, next2, explicit);
                if let Ok(rest) = owned_main_slots(heroes, w + 1, occ2, next2, explicit) {
                    if heroes[w] > 0 {
                        let x = TeamSlot {
                            position: p,
                            member: TeamMember::Owned { hero_uid: heroes[w], substitute_uid: None },
                        };
                        assert forall|j: int| 0 <= j < rest.len() implies (#[trigger] rest[j]).position
                            != x.position by {
                            assert(!occ2.contains(rest[j].position));
                        }
                        lemma_prepend_distinct(x, rest);
                        let r = seq![x] + rest;
                        assert forall|i: int| 0 <= i < r.len() implies !occ.contains(
                            #[trigger] r[i].position,
                        ) by {
                            if i > 0 {
                                assert(r[i] == rest[i - 1]);
                                assert(!occ2.contains(rest[i - 1].position));
                            }
                        }
                    }
                }
            }
        }
    }
}

proof fn lemma_owned_subs_fresh(
    subs: Seq<i64>,
    w: int,
    occ: Set<i32>,
    next: i32,
    explicit: bool,
    count: usize,
    k: int,
)
    ensures
        owned_sub_slots(subs, w, occ, next, explicit, count, k) matches Ok(sl) ==> distinct_positions(sl)
            && forall|i: int| 0 <= i < sl.len() ==> !occ.contains(#[trigger] sl[i].position),
    decreases subs.len() - w,
{
    if 0 <= w < subs.len() {
        if subs[w] < 0 && !explicit {
            lemma_owned_subs_fresh(subs, w + 1, occ, next, explicit, count, k);
        } else {
            lemma_place_free(w, occ, next, explicit, true);
            if let Ok(p) = place(w, occ, next, explicit, true) {
                let occ2 = occ.insert(p);
                let next2 = next_after(next, p, explicit);
                if subs[w] > 0 {
                    lemma_owned_subs_fresh(subs, w + 1, occ2, next2, explicit, count, k + 1);
                    if let Ok(uid) = try_attacker_substitute_result(count, k as usize) {
                        if let Ok(rest) = owned_sub_slots(subs, w + 1, occ2, next2, explicit, count, k + 1) {
                            let x = TeamSlot {
                                position: p,
                                member: TeamMember::Owned { hero_uid: subs[w], substitute_uid: Some(uid) },
                            };
                            assert forall|j: int| 0 <= j < rest.len() implies (#[trigger] rest[j]).position
                                != x.position by {
                                assert(!occ2.contains(rest[j].position));
                            }
                            lemma_prepend_distinct(x, rest);
                            let r = seq![x] + rest;
                            assert forall|i: int| 0 <= i < r.len() implies !occ.contains(
                                #[trigger] r[i].position,
                            ) by {
                                if i > 0 {
                                    assert(r[i] == rest[i - 1]);
                                    assert(!occ2.contains(rest[i - 1].position));
                                }
                            }
                        }
                    }
                } else {
                    lemma_owned_subs_fresh(subs, w + 1, occ2, next2, explicit, count, k);
                    if let Ok(rest) = owned_sub_slots(subs, w + 1, occ2, next2, explicit, count, k) {
                        assert forall|i: int| 0 <= i < rest.len() implies !occ.contains(
                            #[trigger] rest[i].position,
                        ) by {
                            assert(!occ2.contains(rest[i].position));
                        }
                    }
                }
            }
        }
    }
}

/// The active trial heroes' slots take distinct positions, each among the
/// positions collected for them and none among those taken before.
proof fn lemma_trial_mains_taken(trials: Seq<NormalizedTrial>, i: int, occ: Set<i32>)
    ensures
        active_trial_positions(trials, i, occ) matches Ok(occ2) ==> occ.subset_of(occ2) && (
        trial_slots(trials, i) matches Ok((tm, ts)) ==> distinct_positions(tm) && forall|j: int|
            0 <= j < tm.len() ==> occ2.contains(#[trigger] tm[j].position) && !occ.contains(
                tm[j].position,
            )),
    decreases trials.len() - i,
{
    if 0 <= i < trials.len() {
        let t = trials[i];
        if !t.is_substitute && t.position is Some {
            let p = t.position.unwrap();
            lemma_trial_mains_taken(trials, i + 1, occ.insert(p));
            if let Ok(occ2) = active_trial_positions(trials, i, occ) {
                if let Ok((tm, ts)) = trial_slots(trials, i) {
                    if let Ok((tm2, ts2)) = trial_slots(trials, i + 1) {
                        let x = TeamSlot {
                            position: p,
                            member: TeamMember::Trial { trial_id: t.trial_id, uid: t.uid },
                        };
                        assert(tm == seq![x] + tm2);
                        assert forall|j: int| 0 <= j < tm2.len() implies (#[trigger] tm2[j]).position
                            != x.position by {
                            assert(!occ.insert(p).contains(tm2[j].position));
                        }
                        lemma_prepend_distinct(x, tm2);
                        assert forall|j: int| 0 <= j < tm.len() implies occ2.contains(
                            #[trigger] tm[j].position,
                        ) && !occ.contains(tm[j].position) by {
                            if j > 0 {
                                assert(tm[j] == tm2[j - 1]);
                                assert(!occ.insert(p).contains(tm2[j - 1].position));
                            } else {
                                assert(occ.insert(p).contains(p));
                            }
                        }
                    }
                }
            }
        } else {
            lemma_trial_mains_taken(trials, i + 1, occ);
            if let Ok((tm, ts)) = trial_slots(trials, i) {
                if let Ok((tm2, ts2)) = trial_slots(trials, i + 1) {
                    assert(tm == tm2);
                }
            }
        }
    }
}

/// The substitute trial heroes' slots take distinct positions, each among
/// the positions collected for them and none among those taken before.
proof fn lemma_trial_subs_taken(trials: Seq<NormalizedTrial>, i: int, occ: Set<i32>)
    ensures
        substitute_trial_positions(trials, i, occ) matches Ok(occ2) ==> occ.subset_of(occ2) && (
        trial_slots(trials, i) matches Ok((tm, ts)) ==> distinct_positions(ts) && forall|j: int|
            0 <= j < ts.len() ==> occ2.contains(#[trigger] ts[j].position) && !occ.contains(
                ts[j].position,
            )),
    decreases trials.len() - i,
{
    if 0 <= i < trials.len() {
        let t = trials[i];
        if t.is_substitute && t.position is Some && t.position.unwrap() != i32::MIN {
            let q = (-t.position.unwrap()) as i32;
            lemma_trial_subs_taken(trials, i + 1, occ.insert(q));
            if let Ok(occ2) = substitute_trial_positions(trials, i, occ) {
                if let Ok((tm, ts)) = trial_slots(trials, i) {
                    if let Ok((tm2, ts2)) = trial_slots(trials, i + 1) {
                        let x = TeamSlot {
                            position: q,
                            member: TeamMember::Trial { trial_id: t.trial_id, uid: t.uid },
                        };
                        assert(ts == seq![x] + ts2);
                        assert forall|j: int| 0 <= j < ts2.len() implies (#[trigger] ts2[j]).position
                            != x.position by {
                            assert(!occ.insert(q).contains(ts2[j].position));
                        }
                        lemma_prepend_distinct(x, ts2);
                        assert forall|j: int| 0 <= j < ts.len() implies occ2.contains(
                            #[trigger] ts[j].position,
                        ) && !occ.contains(ts[j].position) by {
                            if j > 0 {
                                assert(ts[j] == ts2[j - 1]);
                                assert(!occ.insert(q).contains(ts2[j - 1].position));
                            } else {
                                assert(occ.insert(q).contains(q));
                            }
                        }
                    }
                }
            }
        } else {
            lemma_trial_subs_taken(trials, i + 1, occ);
            if let Ok((tm, ts)) = trial_slots(trials, i) {
                if let Ok((tm2, ts2)) = trial_slots(trials, i + 1) {
                    assert(ts == ts2);
                }
            }
        }
    }
}

/// Slots of two line-ups with disjoint positions, each distinct, are
/// distinct together.
proof fn lemma_concat_distinct(a: Seq<TeamSlot>, b: Seq<TeamSlot>, taken: Set<i32>)
    requires
        distinct_positions(a),
        distinct_positions(b),
        forall|i: int| 0 <= i < a.len() ==> !taken.contains(#[trigger] a[i].position),
        forall|j: int| 0 <= j < b.len() ==> taken.contains(#[trigger] b[j].position),
    ensures
        distinct_positions(a + b),
{
    let r = a + b;
    assert forall|i: int, j: int| 0 <= i < j < r.len() implies (#[trigger] r[i]).position
        != (#[trigger] r[j]).position by {
        if j < a.len() {
            assert(r[i] == a[i] && r[j] == a[j]);
        } else if i >= a.len() {
            assert(r[i] == b[i - a.len()] && r[j] == b[j - a.len()]);
        } else {
            assert(r[i] == a[i] && r[j] == b[j - a.len()]);
            assert(taken.contains(b[j - a.len()].position));
        }
    }
}

proof fn lemma_sort_same_slots(s: Seq<TeamSlot>)
    ensures
        forall|x: TeamSlot| sort_slots(s).contains(x) <==> s.contains(x),
        sort_slots(s).len() == s.len(),
    decreases s.len(),
{
    if s.len() > 0 {
        let t = s.drop_last();
        lemma_sort_same_slots(t);
        let sorted = sort_slots(t);
        let x = s.last();
        let k = insertion_index(sorted, x.position);
        lemma_insertion_bounds(sorted, x.position);
        let r = sorted.insert(k, x);
        assert(s =~= t.push(x));
        assert forall|y: TeamSlot| r.contains(y) <==> s.contains(y) by {
            if r.contains(y) {
                let i = choose|i: int| 0 <= i < r.len() && r[i] == y;
                if i < k {
                    assert(sorted[i] == y);
                    assert(sorted.contains(y));
                    assert(sort_slots(t).contains(y));
                    assert(t.contains(y));
                    let q = choose|q: int| 0 <= q < t.len() && t[q] == y;
                    assert(s[q] == t[q]);
                } else if i > k {
                    assert(sorted[i - 1] == y);
                    assert(sorted.contains(y));
                    assert(sort_slots(t).contains(y));
                    assert(t.contains(y));
                    let q = choose|q: int| 0 <= q < t.len() && t[q] == y;
                    assert(s[q] == t[q]);
                } else {
                    assert(s[s.len() - 1] == y);
                }
            }
            if s.contains(y) {
                let i = choose|i: int| 0 <= i < s.len() && s[i] == y;
                if i < s.len() - 1 {
                    assert(t[i] == y);
                    assert(t.contains(y));
                    let q = choose|q: int| 0 <= q < sorted.len() && sorted[q] == y;
                    if q < k {
                        assert(r[q] == y);
                    } else {
                        assert(r[q + 1] == y);
                    }
                } else {
                    assert(r[k] == y);
                }
            }
        }
    }
}

proof fn lemma_sort_distinct(s: Seq<TeamSlot>)
    requires
        distinct_positions(s),
    ensures
        distinct_positions(sort_slots(s)),
    decreases s.len(),
{
    if s.len() > 0 {
        let t = s.drop_last();
        assert(distinct_positions(t)) by {
            assert forall|i: int, j: int| 0 <= i < j < t.len() implies (#[trigger] t[i]).position
                != (#[trigger] t[j]).position by {
                assert(t[i] == s[i] && t[j] == s[j]);
            }
        }
        lemma_sort_distinct(t);
        lemma_sort_same_slots(t);
        let sorted = sort_slots(t);
        let x = s.last();
        let k = insertion_index(sorted, x.position);
        lemma_insertion_bounds(sorted, x.position);
        let r = sorted.insert(k, x);
        assert forall|q: int| 0 <= q < sorted.len() implies (#[trigger] sorted[q]).position
            != x.position by {
            assert(sorted.contains(sorted[q]));
            assert(t.contains(sorted[q]));
            let m = choose|m: int| 0 <= m < t.len() && t[m] == sorted[q];
            assert(s[m] == t[m]);
            assert(s[s.len() - 1] == x);
        }
        assert forall|i: int, j: int| 0 <= i < j < r.len() implies (#[trigger] r[i]).position
            != (#[trigger] r[j]).position by {
            if j < k {
                assert(r[i] == sorted[i] && r[j] == sorted[j]);
            } else if j == k {
                assert(r[i] == sorted[i]);
            } else if i < k {
                assert(r[i] == sorted[i] && r[j] == sorted[j - 1]);
            } else if i == k {
                assert(r[j] == sorted[j - 1]);
            } else {
                assert(r[i] == sorted[i - 1] && r[j] == sorted[j - 1]);
            }
        }
    }
}

/// Every position of an attacker line-up is taken once: no two main slots
/// share a position, nor do two substitute slots.
pub proof fn line_up_positions_are_distinct(
    group: FightGroupView,
    trials: Seq<NormalizedTrial>,
    count: usize,
)
    ensures
        attacker_plan(group, trials, count) matches Ok((m, s)) ==> distinct_positions(m)
            && distinct_positions(s),
{
    let explicit = group.trial_hero_list.len() > 0;
    lemma_trial_mains_taken(trials, 0, Set::empty());
    lemma_trial_subs_taken(trials, 0, Set::empty());
    if let Ok(occ) = active_trial_positions(trials, 0, Set::empty()) {
        if let Ok(sub_occ) = substitute_trial_positions(trials, 0, Set::empty()) {
            lemma_owned_mains_fresh(group.hero_list, 0, occ, 1, explicit);
            lemma_owned_subs_fresh(group.sub_hero_list, 0, sub_occ, 1, explicit, count, 0);
            if let Ok(m) = owned_main_slots(group.hero_list, 0, occ, 1, explicit) {
                if let Ok(s) = owned_sub_slots(group.sub_hero_list, 0, sub_occ, 1, explicit, count, 0) {
                    if let Ok((tm, ts)) = trial_slots(trials, 0) {
                        lemma_concat_distinct(m, tm, occ);
                        lemma_concat_distinct(s, ts, sub_occ);
                        lemma_sort_distinct(m + tm);
                        lemma_sort_distinct(s + ts);
                    }
                }
            }
        }
    }
}

// ---------------------------------------------------------------------------
// Messages
// ---------------------------------------------------------------------------

/// The message of a refused line-up.
pub open spec fn team_error_text(e: TeamPlanError) -> Seq<char> {
    match e {
        TeamPlanError::DuplicateAttackerPosition(p) => "duplicate attacker position "@ + int_text(
            p as int,
        ),
        TeamPlanError::InvalidSubstituteTrialPosition(p) => "invalid substitute trial position "@
            + int_text(p as int),
        TeamPlanError::DuplicateSubstitutePosition(p) => "duplicate substitute position "@
            + int_text(p as int),
        TeamPlanError::AttackerPositionOutOfRange => "attacker hero position is outside i32 range"@,
        TeamPlanError::SubstitutePositionOutOfRange => "attacker substitute position is outside i32 range"@,
        TeamPlanError::Position(u) => uid_error_text(u),
        TeamPlanError::SubstituteUid(u) => uid_error_text(u),
        TeamPlanError::MissingTrialPosition { trial_id, substitute } => (if substitute {
            "substitute trial "@
        } else {
            "active trial "@
        }) + int_text(trial_id as int) + " has no normalized position"@,
    }
}

impl TeamPlanError {
    /// The error's message.
    pub fn message(&self) -> (m: String)
        ensures
            m@ == team_error_text(*self),
    {
        match *self {
            TeamPlanError::DuplicateAttackerPosition(p) => {
                let mut m = String::from_str("duplicate attacker position ");
                push_int(&mut m, p as i64);
                m
            },
            TeamPlanError::InvalidSubstituteTrialPosition(p) => {
                let mut m = String::from_str("invalid substitute trial position ");
                push_int(&mut m, p as i64);
                m
            },
            TeamPlanError::DuplicateSubstitutePosition(p) => {
                let mut m = String::from_str("duplicate substitute position ");
                push_int(&mut m, p as i64);
                m
            },
            TeamPlanError::AttackerPositionOutOfRange => String::from_str(
                "attacker hero position is outside i32 range",
            ),
            TeamPlanError::SubstitutePositionOutOfRange => String::from_str(
                "attacker substitute position is outside i32 range",
            ),
            TeamPlanError::Position(u) => u.message(),
            TeamPlanError::SubstituteUid(u) => u.message(),
            TeamPlanError::MissingTrialPosition { trial_id, substitute } => {
                let mut m = if substitute {
                    String::from_str("substitute trial ")
                } else {
                    String::from_str("active trial ")
                };
                push_int(&mut m, trial_id as i64);
                push_str(&mut m, " has no normalized position");
                m
            },
        }
    }
}

} // verus!
