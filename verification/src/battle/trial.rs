//! Trial heroes in a fight request. A request names them either in an
//! explicit trial list or, in the legacy encoding, as negative hero UIDs;
//! both become attacker UIDs `-1, -2, …` after the battle aid placeholders.
use crate::text::{int_text, nat_text, push_int, push_str, push_uint};
use std::collections::HashSet;
use vstd::prelude::*;

verus! {

broadcast use vstd::std_specs::hash::group_hash_axioms;

/// The highest attacker UID ordinal: defender UIDs start right below
/// `-MAX_TRIAL_UID_ORDINAL`.
pub const MAX_TRIAL_UID_ORDINAL: usize = 1000;

/// The highest battle aid placeholder ordinal: UIDs `-1..=-4`.
pub const MAX_BATTLE_AID_ORDINAL: i64 = 4;

/// The smallest trial id a legacy negative UID can carry.
pub const MIN_LEGACY_TRIAL_ID: i64 = 1001;

/// An explicit trial hero in a fight request.
#[derive(Clone, Copy, Debug, PartialEq, Eq)]
pub struct TrialHero {
    pub trial_id: Option<i32>,
    pub pos: Option<i32>,
}

/// The hero lists of a fight request.
#[derive(Debug)]
pub struct FightGroup {
    pub hero_list: Vec<i64>,
    pub sub_hero_list: Vec<i64>,
    pub trial_hero_list: Vec<TrialHero>,
}

/// The contents of a [`FightGroup`].
pub struct FightGroupView {
    pub hero_list: Seq<i64>,
    pub sub_hero_list: Seq<i64>,
    pub trial_hero_list: Seq<TrialHero>,
}

impl View for FightGroup {
    type V = FightGroupView;

    open spec fn view(&self) -> FightGroupView {
        FightGroupView {
            hero_list: self.hero_list@,
            sub_hero_list: self.sub_hero_list@,
            trial_hero_list: self.trial_hero_list@,
        }
    }
}

/// A trial hero with its attacker UID and position.
#[derive(Clone, Copy, Debug, PartialEq, Eq)]
pub struct NormalizedTrial {
    pub trial_id: i32,
    pub uid: i64,
    pub position: Option<i32>,
    pub is_substitute: bool,
}

impl NormalizedTrial {
    /// Whether the hero starts with a card in hand: main heroes do,
    /// substitutes do not.
    pub fn has_initial_card(self) -> (b: bool)
        ensures
            b == !self.is_substitute,
    {
        !self.is_substitute
    }
}

/// Why a fight request's trial heroes were refused.
#[derive(Clone, Copy, Debug, PartialEq, Eq)]
pub enum TrialError {
    UnsupportedNegativeUid { uid: i64 },
    MixedEncodings,
    OrdinalOverflow,
    CrossesDefenders { last_ordinal: usize },
    LegacyUidOverflows { uid: i64 },
    LegacyUidOutOfRange { uid: i64 },
    LegacyInvalidTrialId { uid: i64 },
    DuplicateLegacyTrialId { trial_id: i32 },
    PositionOutOfRange,
    MissingTrialId { index: usize },
    InvalidTrialId { index: usize, trial_id: i32 },
    MissingPosition { index: usize },
    ZeroPosition { index: usize },
    UnrepresentablePosition { index: usize, position: i32 },
    DuplicateTrialId { trial_id: i32 },
    DuplicatePosition { position: i32 },
}

/// The message of a refused trial request.
pub open spec fn trial_error_text(e: TrialError) -> Seq<char> {
    match e {
        TrialError::UnsupportedNegativeUid { uid } => "unsupported negative hero UID "@ + int_text(
            uid as int,
        ),
        TrialError::MixedEncodings => "explicit trial_hero_list cannot be mixed with legacy negative trial UIDs"@,
        TrialError::OrdinalOverflow => "trial UID ordinal overflow"@,
        TrialError::CrossesDefenders { last_ordinal } => "trial UID ordinal "@ + nat_text(
            last_ordinal as nat,
        ) + " crosses the defender UID namespace"@,
        TrialError::LegacyUidOverflows { uid } => "legacy trial UID "@ + int_text(uid as int)
            + " overflows"@,
        TrialError::LegacyUidOutOfRange { uid } => "legacy trial UID "@ + int_text(uid as int)
            + " is outside trial ID range"@,
        TrialError::LegacyInvalidTrialId { uid } => "legacy trial UID "@ + int_text(uid as int)
            + " has invalid trial ID"@,
        TrialError::DuplicateLegacyTrialId { trial_id } => "duplicate legacy trial_id "@
            + int_text(trial_id as int),
        TrialError::PositionOutOfRange => "legacy trial position is outside i32 range"@,
        TrialError::MissingTrialId { index } => "trial hero at index "@ + nat_text(index as nat)
            + " is missing trial_id"@,
        TrialError::InvalidTrialId { index, trial_id } => "trial hero at index "@ + nat_text(
            index as nat,
        ) + " has invalid trial_id "@ + int_text(trial_id as int),
        TrialError::MissingPosition { index } => "trial hero at index "@ + nat_text(index as nat)
            + " is missing position"@,
        TrialError::ZeroPosition { index } => "trial hero at index "@ + nat_text(index as nat)
            + " has invalid position 0"@,
        TrialError::UnrepresentablePosition { index, position } => "trial hero at index "@
            + nat_text(index as nat) + " has unrepresentable position "@ + int_text(
            position as int,
        ),
        TrialError::DuplicateTrialId { trial_id } => "duplicate trial_id "@ + int_text(
            trial_id as int,
        ),
        TrialError::DuplicatePosition { position } => "duplicate trial position "@ + int_text(
            position as int,
        ),
    }
}

impl TrialError {
    /// The error's message.
    pub fn message(&self) -> (m: String)
        ensures
            m@ == trial_error_text(*self),
    {
        match *self {
            TrialError::UnsupportedNegativeUid { uid } => {
                let mut m = String::from_str("unsupported negative hero UID ");
                push_int(&mut m, uid);
                m
            },
            TrialError::MixedEncodings => String::from_str(
                "explicit trial_hero_list cannot be mixed with legacy negative trial UIDs",
            ),
            TrialError::OrdinalOverflow => String::from_str("trial UID ordinal overflow"),
            TrialError::CrossesDefenders { last_ordinal } => {
                let mut m = String::from_str("trial UID ordinal ");
                push_uint(&mut m, last_ordinal as u64);
                push_str(&mut m, " crosses the defender UID namespace");
                m
            },
            TrialError::LegacyUidOverflows { uid } => {
                let mut m = String::from_str("legacy trial UID ");
                push_int(&mut m, uid);
                push_str(&mut m, " overflows");
                m
            },
            TrialError::LegacyUidOutOfRange { uid } => {
                let mut m = String::from_str("legacy trial UID ");
                push_int(&mut m, uid);
                push_str(&mut m, " is outside trial ID range");
                m
            },
            TrialError::LegacyInvalidTrialId { uid } => {
                let mut m = String::from_str("legacy trial UID ");
                push_int(&mut m, uid);
                push_str(&mut m, " has invalid trial ID");
                m
            },
            TrialError::DuplicateLegacyTrialId { trial_id } => {
                let mut m = String::from_str("duplicate legacy trial_id ");
                push_int(&mut m, trial_id as i64);
                m
            },
            TrialError::PositionOutOfRange => String::from_str(
                "legacy trial position is outside i32 range",
            ),
            TrialError::MissingTrialId { index } => {
                let mut m = String::from_str("trial hero at index ");
                push_uint(&mut m, index as u64);
                push_str(&mut m, " is missing trial_id");
                m
            },
            TrialError::InvalidTrialId { index, trial_id } => {
                let mut m = String::from_str("trial hero at index ");
                push_uint(&mut m, index as u64);
                push_str(&mut m, " has invalid trial_id ");
                push_int(&mut m, trial_id as i64);
                m
            },
            TrialError::MissingPosition { index } => {
                let mut m = String::from_str("trial hero at index ");
                push_uint(&mut m, index as u64);
                push_str(&mut m, " is missing position");
                m
            },
            TrialError::ZeroPosition { index } => {
                let mut m = String::from_str("trial hero at index ");
                push_uint(&mut m, index as u64);
                push_str(&mut m, " has invalid position 0");
                m
            },
            TrialError::UnrepresentablePosition { index, position } => {
                let mut m = String::from_str("trial hero at index ");
                push_uint(&mut m, index as u64);
                push_str(&mut m, " has unrepresentable position ");
                push_int(&mut m, position as i64);
                m
            },
            TrialError::DuplicateTrialId { trial_id } => {
                let mut m = String::from_str("duplicate trial_id ");
                push_int(&mut m, trial_id as i64);
                m
            },
            TrialError::DuplicatePosition { position } => {
                let mut m = String::from_str("duplicate trial position ");
                push_int(&mut m, position as i64);
                m
            },
        }
    }
}

// ---------------------------------------------------------------------------
// Hero UID kinds
// ---------------------------------------------------------------------------

/// A negative UID that carries a trial id: `-1001` and below.
pub open spec fn legacy_uid(u: i64) -> bool {
    u <= -MIN_LEGACY_TRIAL_ID
}

/// A battle aid placeholder: `-1..=-4`.
pub open spec fn aid_placeholder(u: i64) -> bool {
    -MAX_BATTLE_AID_ORDINAL <= u <= -1
}

/// A negative UID that is neither a placeholder nor a legacy trial.
pub open spec fn unsupported_uid(u: i64) -> bool {
    u < 0 && !aid_placeholder(u) && !legacy_uid(u)
}

/// Whether a UID encodes a legacy trial hero.
pub fn is_legacy_trial_uid(raw_uid: i64) -> (b: bool)
    ensures
        b == legacy_uid(raw_uid),
{
    raw_uid <= -MIN_LEGACY_TRIAL_ID
}

/// Whether a UID is a battle aid placeholder.
pub fn is_battle_aid_placeholder(raw_uid: i64) -> (b: bool)
    ensures
        b == aid_placeholder(raw_uid),
{
    -MAX_BATTLE_AID_ORDINAL <= raw_uid && raw_uid <= -1
}

/// The first unsupported negative UID of a list.
pub open spec fn first_unsupported(s: Seq<i64>) -> Option<i64>
    decreases s.len(),
{
    if s.len() == 0 {
        None
    } else {
        match first_unsupported(s.drop_last()) {
            Some(u) => Some(u),
            None => if unsupported_uid(s.last()) {
                Some(s.last())
            } else {
                None
            },
        }
    }
}

proof fn lemma_first_unsupported_none(s: Seq<i64>)
    requires
        forall|k: int| 0 <= k < s.len() ==> !unsupported_uid(#[trigger] s[k]),
    ensures
        first_unsupported(s) is None,
    decreases s.len(),
{
    if s.len() > 0 {
        assert forall|k: int| 0 <= k < s.drop_last().len() implies !unsupported_uid(
            #[trigger] s.drop_last()[k],
        ) by {
            assert(s.drop_last()[k] == s[k]);
        }
        lemma_first_unsupported_none(s.drop_last());
        assert(!unsupported_uid(s[s.len() - 1]));
    }
}

proof fn lemma_first_unsupported_at(s: Seq<i64>, i: int)
    requires
        0 <= i < s.len(),
        unsupported_uid(s[i]),
        forall|k: int| 0 <= k < i ==> !unsupported_uid(#[trigger] s[k]),
    ensures
        first_unsupported(s) == Some(s[i]),
    decreases s.len(),
{
    if i == s.len() - 1 {
        assert forall|k: int| 0 <= k < s.drop_last().len() implies !unsupported_uid(
            #[trigger] s.drop_last()[k],
        ) by {
            assert(s.drop_last()[k] == s[k]);
        }
        lemma_first_unsupported_none(s.drop_last());
    } else {
        assert(s.drop_last()[i] == s[i]);
        assert forall|k: int| 0 <= k < i implies !unsupported_uid(#[trigger] s.drop_last()[k]) by {
            assert(s.drop_last()[k] == s[k]);
        }
        lemma_first_unsupported_at(s.drop_last(), i);
    }
}

/// Refuses the first negative UID that is neither a placeholder nor a
/// legacy trial, main heroes first.
fn validate_negative_hero_uids(group: &FightGroup) -> (r: Result<(), TrialError>)
    ensures
        match first_unsupported(group.hero_list@ + group.sub_hero_list@) {
            Some(u) => r == Err::<(), TrialError>(TrialError::UnsupportedNegativeUid { uid: u }),
            None => r is Ok,
        },
{
    let ghost all = group.hero_list@ + group.sub_hero_list@;
    let mut i: usize = 0;
    while i < group.hero_list.len()
        invariant
            i <= group.hero_list@.len(),
            all == group.hero_list@ + group.sub_hero_list@,
            forall|k: int| 0 <= k < i ==> !unsupported_uid(#[trigger] all[k]),
        decreases group.hero_list@.len() - i,
    {
        let u = group.hero_list[i];
        assert(all[i as int] == u);
        if u < 0 && !is_battle_aid_placeholder(u) && !is_legacy_trial_uid(u) {
            proof {
                lemma_first_unsupported_at(all, i as int);
            }
            return Err(TrialError::UnsupportedNegativeUid { uid: u });
        }
        i = i + 1;
    }
    let n = group.hero_list.len();
    let mut j: usize = 0;
    while j < group.sub_hero_list.len()
        invariant
            j <= group.sub_hero_list@.len(),
            n == group.hero_list@.len(),
            all == group.hero_list@ + group.sub_hero_list@,
            forall|k: int| 0 <= k < n + j ==> !unsupported_uid(#[trigger] all[k]),
        decreases group.sub_hero_list@.len() - j,
    {
        let u = group.sub_hero_list[j];
        assert(all[n + j] == u);
        if u < 0 && !is_battle_aid_placeholder(u) && !is_legacy_trial_uid(u) {
            proof {
                lemma_first_unsupported_at(all, n + j);
            }
            return Err(TrialError::UnsupportedNegativeUid { uid: u });
        }
        j = j + 1;
    }
    proof {
        lemma_first_unsupported_none(all);
    }
    Ok(())
}

/// The highest battle aid ordinal among the UIDs (`-u` of each placeholder
/// `u`), or 0.
pub open spec fn max_aid_ordinal(s: Seq<i64>) -> int
    decreases s.len(),
{
    if s.len() == 0 {
        0
    } else {
        let prev = max_aid_ordinal(s.drop_last());
        let u = s.last();
        if aid_placeholder(u) && -u > prev {
            -u
        } else {
            prev
        }
    }
}

proof fn lemma_max_aid_bounds(s: Seq<i64>)
    ensures
        0 <= max_aid_ordinal(s) <= MAX_BATTLE_AID_ORDINAL,
    decreases s.len(),
{
    if s.len() > 0 {
        lemma_max_aid_bounds(s.drop_last());
    }
}

/// The highest battle aid ordinal of the main and substitute lists.
fn max_battle_aid_ordinal(group: &FightGroup) -> (r: usize)
    ensures
        r == max_aid_ordinal(group.hero_list@ + group.sub_hero_list@),
        r <= MAX_BATTLE_AID_ORDINAL,
{
    let ghost all = group.hero_list@ + group.sub_hero_list@;
    let n = group.hero_list.len();
    let mut best: i64 = 0;
    let mut i: usize = 0;
    while i < n
        invariant
            i <= n,
            n == group.hero_list@.len(),
            all == group.hero_list@ + group.sub_hero_list@,
            best == max_aid_ordinal(all.take(i as int)),
        decreases n - i,
    {
        let u = group.hero_list[i];
        assert(all[i as int] == u);
        assert(all.take(i as int + 1).drop_last() =~= all.take(i as int));
        if is_battle_aid_placeholder(u) && -u > best {
            best = -u;
        }
        i = i + 1;
    }
    let mut j: usize = 0;
    while j < group.sub_hero_list.len()
        invariant
            j <= group.sub_hero_list@.len(),
            n == group.hero_list@.len(),
            all == group.hero_list@ + group.sub_hero_list@,
            best == max_aid_ordinal(all.take(n + j)),
        decreases group.sub_hero_list@.len() - j,
    {
        let u = group.sub_hero_list[j];
        assert(all[n + j] == u);
        assert(all.take(n + j + 1).drop_last() =~= all.take(n + j));
        if is_battle_aid_placeholder(u) && -u > best {
            best = -u;
        }
        j = j + 1;
    }
    let ghost total = all.len();
    assert(all.take(total as int) =~= all);
    proof {
        lemma_max_aid_bounds(all);
    }
    best as usize
}

// ---------------------------------------------------------------------------
// Capacity and legacy ids
// ---------------------------------------------------------------------------

/// Why `count` more attacker UIDs after ordinal `reserved` do not fit.
pub open spec fn capacity_error(reserved: int, count: int) -> Option<TrialError> {
    if reserved + count > usize::MAX {
        Some(TrialError::OrdinalOverflow)
    } else if reserved + count > MAX_TRIAL_UID_ORDINAL {
        Some(TrialError::CrossesDefenders { last_ordinal: (reserved + count) as usize })
    } else {
        None
    }
}

/// Checks that `count` more attacker UIDs fit after ordinal `reserved`.
fn ensure_trial_uid_capacity(reserved_ordinal: usize, count: usize) -> (r: Result<(), TrialError>)
    ensures
        match capacity_error(reserved_ordinal as int, count as int) {
            Some(e) => r == Err::<(), TrialError>(e),
            None => r is Ok,
        },
{
    let last_ordinal = match reserved_ordinal.checked_add(count) {
        Some(v) => v,
        None => return Err(TrialError::OrdinalOverflow),
    };
    if last_ordinal > MAX_TRIAL_UID_ORDINAL {
        return Err(TrialError::CrossesDefenders { last_ordinal });
    }
    Ok(())
}

/// The trial id a legacy UID carries: its negation, which must be a
/// positive `i32`.
pub open spec fn legacy_id(raw_uid: i64) -> Result<i32, TrialError> {
    if raw_uid == i64::MIN {
        Err(TrialError::LegacyUidOverflows { uid: raw_uid })
    } else if !(i32::MIN <= -raw_uid <= i32::MAX) {
        Err(TrialError::LegacyUidOutOfRange { uid: raw_uid })
    } else if -raw_uid <= 0 {
        Err(TrialError::LegacyInvalidTrialId { uid: raw_uid })
    } else {
        Ok((-raw_uid) as i32)
    }
}

/// Reads the trial id of a legacy UID.
fn legacy_trial_id(raw_uid: i64) -> (r: Result<i32, TrialError>)
    ensures
        r == legacy_id(raw_uid),
{
    if raw_uid == i64::MIN {
        return Err(TrialError::LegacyUidOverflows { uid: raw_uid });
    }
    let magnitude = -raw_uid;
    if magnitude < i32::MIN as i64 || magnitude > i32::MAX as i64 {
        return Err(TrialError::LegacyUidOutOfRange { uid: raw_uid });
    }
    let trial_id = magnitude as i32;
    if trial_id <= 0 {
        return Err(TrialError::LegacyInvalidTrialId { uid: raw_uid });
    }
    Ok(trial_id)
}

/// The attacker UID of ordinal `ordinal` after `reserved` placeholders.
pub open spec fn trial_uid(reserved: int, ordinal: int) -> i64 {
    (-(reserved + ordinal + 1)) as i64
}

/// Some earlier trial has this trial id.
pub open spec fn has_trial_id(prev: Seq<NormalizedTrial>, id: i32) -> bool {
    exists|k: int| 0 <= k < prev.len() && (#[trigger] prev[k]).trial_id == id
}

/// Some earlier trial has this position.
pub open spec fn has_position(prev: Seq<NormalizedTrial>, p: i32) -> bool {
    exists|k: int| 0 <= k < prev.len() && (#[trigger] prev[k]).position == Some(p)
}

proof fn lemma_has_trial_id_push(prev: Seq<NormalizedTrial>, t: NormalizedTrial, x: i32)
    ensures
        has_trial_id(prev.push(t), x) <==> has_trial_id(prev, x) || t.trial_id == x,
{
    let next = prev.push(t);
    if has_trial_id(prev, x) {
        let k = choose|k: int| 0 <= k < prev.len() && (#[trigger] prev[k]).trial_id == x;
        assert(next[k] == prev[k]);
    }
    if t.trial_id == x {
        assert(next[prev.len() as int] == t);
    }
    if has_trial_id(next, x) {
        let k = choose|k: int| 0 <= k < next.len() && (#[trigger] next[k]).trial_id == x;
        if k < prev.len() {
            assert(next[k] == prev[k]);
        }
    }
}

proof fn lemma_has_position_push(prev: Seq<NormalizedTrial>, t: NormalizedTrial, p: i32)
    ensures
        has_position(prev.push(t), p) <==> has_position(prev, p) || t.position == Some(p),
{
    let next = prev.push(t);
    if has_position(prev, p) {
        let k = choose|k: int| 0 <= k < prev.len() && (#[trigger] prev[k]).position == Some(p);
        assert(next[k] == prev[k]);
    }
    if t.position == Some(p) {
        assert(next[prev.len() as int] == t);
    }
    if has_position(next, p) {
        let k = choose|k: int| 0 <= k < next.len() && (#[trigger] next[k]).position == Some(p);
        if k < prev.len() {
            assert(next[k] == prev[k]);
        }
    }
}

// ---------------------------------------------------------------------------
// Explicit trial lists
// ---------------------------------------------------------------------------

/// The trial that explicit entry `index` becomes after the trials before it:
/// it needs a positive trial id and a non-zero position whose magnitude is
/// an `i32`, neither used before; a negative position makes a substitute.
pub open spec fn explicit_step(prev: Seq<NormalizedTrial>, t: TrialHero, index: int, reserved: int) -> Result<
    NormalizedTrial,
    TrialError,
> {
    match t.trial_id {
        None => Err(TrialError::MissingTrialId { index: index as usize }),
        Some(id) => if id <= 0 {
            Err(TrialError::InvalidTrialId { index: index as usize, trial_id: id })
        } else {
            match t.pos {
                None => Err(TrialError::MissingPosition { index: index as usize }),
                Some(p) => if p == 0 {
                    Err(TrialError::ZeroPosition { index: index as usize })
                } else if p == i32::MIN {
                    Err(TrialError::UnrepresentablePosition { index: index as usize, position: p })
                } else if has_trial_id(prev, id) {
                    Err(TrialError::DuplicateTrialId { trial_id: id })
                } else if has_position(prev, p) {
                    Err(TrialError::DuplicatePosition { position: p })
                } else {
                    Ok(
                        NormalizedTrial {
                            trial_id: id,
                            uid: trial_uid(reserved, index),
                            position: Some(p),
                            is_substitute: p < 0,
                        },
                    )
                },
            }
        },
    }
}

/// The trials of the first `n` explicit entries, or the first refusal.
pub open spec fn explicit_prefix(ts: Seq<TrialHero>, reserved: int, n: int) -> Result<
    Seq<NormalizedTrial>,
    TrialError,
>
    decreases n,
{
    if n <= 0 {
        Ok(Seq::empty())
    } else {
        match explicit_prefix(ts, reserved, n - 1) {
            Err(e) => Err(e),
            Ok(prev) => match explicit_step(prev, ts[n - 1], n - 1, reserved) {
                Err(e) => Err(e),
                Ok(t) => Ok(prev.push(t)),
            },
        }
    }
}

/// Checks explicit entry `index` against the trials before it.
fn explicit_entry(
    trial: TrialHero,
    index: usize,
    reserved_aid_ordinal: usize,
    seen: &mut HashSet<i32>,
    seen_positions: &mut HashSet<i32>,
    trials: &Vec<NormalizedTrial>,
) -> (r: Result<NormalizedTrial, TrialError>)
    requires
        reserved_aid_ordinal + index < MAX_TRIAL_UID_ORDINAL,
        forall|x: i32| old(seen)@.contains(x) <==> has_trial_id(trials@, x),
        forall|x: i32| old(seen_positions)@.contains(x) <==> has_position(trials@, x),
    ensures
        r == explicit_step(trials@, trial, index as int, reserved_aid_ordinal as int),
        r matches Ok(t) ==> (forall|x: i32| final(seen)@.contains(x) <==> has_trial_id(trials@.push(t), x))
            && (forall|x: i32| final(seen_positions)@.contains(x) <==> has_position(trials@.push(t), x)),
{
    let trial_id = match trial.trial_id {
        Some(id) => id,
        None => return Err(TrialError::MissingTrialId { index }),
    };
    if trial_id <= 0 {
        return Err(TrialError::InvalidTrialId { index, trial_id });
    }
    let position = match trial.pos {
        Some(p) => p,
        None => return Err(TrialError::MissingPosition { index }),
    };
    if position == 0 {
        return Err(TrialError::ZeroPosition { index });
    }
    if position == i32::MIN {
        return Err(TrialError::UnrepresentablePosition { index, position });
    }
    if !seen.insert(trial_id) {
        return Err(TrialError::DuplicateTrialId { trial_id });
    }
    if !seen_positions.insert(position) {
        return Err(TrialError::DuplicatePosition { position });
    }
    let uid: i64 = -((reserved_aid_ordinal + index + 1) as i64);
    let t = NormalizedTrial { trial_id, uid, position: Some(position), is_substitute: position < 0 };
    proof {
        assert forall|x: i32| seen@.contains(x) <==> has_trial_id(trials@.push(t), x) by {
            lemma_has_trial_id_push(trials@, t, x);
        }
        assert forall|x: i32| seen_positions@.contains(x) <==> has_position(trials@.push(t), x) by {
            lemma_has_position_push(trials@, t, x);
        }
    }
    Ok(t)
}

proof fn lemma_explicit_err(ts: Seq<TrialHero>, reserved: int, n: int, m: int)
    requires
        0 <= n <= m,
        explicit_prefix(ts, reserved, n) is Err,
    ensures
        explicit_prefix(ts, reserved, m) == explicit_prefix(ts, reserved, n),
    decreases m - n,
{
    if n < m {
        lemma_explicit_err(ts, reserved, n, m - 1);
    }
}

/// Normalizes an explicit trial list after `reserved` placeholder ordinals.
fn normalize_explicit_trials(group: &FightGroup, reserved_aid_ordinal: usize) -> (r: Result<
    Vec<NormalizedTrial>,
    TrialError,
>)
    ensures
        match capacity_error(reserved_aid_ordinal as int, group.trial_hero_list@.len() as int) {
            Some(e) => r == Err::<Vec<NormalizedTrial>, TrialError>(e),
            None => match explicit_prefix(
                group.trial_hero_list@,
                reserved_aid_ordinal as int,
                group.trial_hero_list@.len() as int,
            ) {
                Ok(v) => r matches Ok(trials) && trials@ == v,
                Err(e) => r == Err::<Vec<NormalizedTrial>, TrialError>(e),
            },
        },
{
    let ts = &group.trial_hero_list;
    match ensure_trial_uid_capacity(reserved_aid_ordinal, ts.len()) {
        Ok(()) => {},
        Err(e) => return Err(e),
    }
    let ghost reserved = reserved_aid_ordinal as int;
    let mut seen: HashSet<i32> = HashSet::new();
    let mut seen_positions: HashSet<i32> = HashSet::new();
    let mut trials: Vec<NormalizedTrial> = Vec::new();
    let mut index: usize = 0;
    while index < ts.len()
        invariant
            index <= ts@.len(),
            ts == &group.trial_hero_list,
            reserved == reserved_aid_ordinal as int,
            reserved + ts@.len() <= MAX_TRIAL_UID_ORDINAL,
            explicit_prefix(ts@, reserved, index as int) == Ok::<Seq<NormalizedTrial>, TrialError>(
                trials@,
            ),
            forall|x: i32| seen@.contains(x) <==> has_trial_id(trials@, x),
            forall|x: i32| seen_positions@.contains(x) <==> has_position(trials@, x),
        decreases ts@.len() - index,
    {
        let ghost prev = trials@;
        let t = match explicit_entry(ts[index], index, reserved_aid_ordinal, &mut seen, &mut seen_positions, &trials) {
            Ok(t) => t,
            Err(e) => {
                proof {
                    lemma_explicit_err(ts@, reserved, index as int + 1, ts@.len() as int);
                }
                return Err(e);
            },
        };
        trials.push(t);
        index = index + 1;
    }
    Ok(trials)
}

// ---------------------------------------------------------------------------
// Legacy negative UIDs
// ---------------------------------------------------------------------------

/// The legacy trial UIDs of a hero list with their positions in it, each
/// flagged as a substitute or not.
pub open spec fn legacy_entries(list: Seq<i64>, sub: bool) -> Seq<(usize, i64, bool)>
    decreases list.len(),
{
    if list.len() == 0 {
        Seq::empty()
    } else {
        let prev = legacy_entries(list.drop_last(), sub);
        if legacy_uid(list.last()) {
            prev.push(((list.len() - 1) as usize, list.last(), sub))
        } else {
            prev
        }
    }
}

/// The trial that a legacy entry becomes after the trials before it: its
/// trial id must be new; a main hero at index `i` takes position `i + 1`, a
/// substitute `-(i + 1)`.
pub open spec fn legacy_step(prev: Seq<NormalizedTrial>, e: (usize, i64, bool), reserved: int) -> Result<
    NormalizedTrial,
    TrialError,
> {
    match legacy_id(e.1) {
        Err(x) => Err(x),
        Ok(id) => if has_trial_id(prev, id) {
            Err(TrialError::DuplicateLegacyTrialId { trial_id: id })
        } else if e.0 + 1 > i32::MAX {
            Err(TrialError::PositionOutOfRange)
        } else {
            Ok(
                NormalizedTrial {
                    trial_id: id,
                    uid: trial_uid(reserved, prev.len() as int),
                    position: Some(
                        (if e.2 {
                            -(e.0 + 1)
                        } else {
                            e.0 + 1
                        }) as i32,
                    ),
                    is_substitute: e.2,
                },
            )
        },
    }
}

/// The trials of the first `n` legacy entries, or the first refusal.
pub open spec fn legacy_prefix(es: Seq<(usize, i64, bool)>, reserved: int, n: int) -> Result<
    Seq<NormalizedTrial>,
    TrialError,
>
    decreases n,
{
    if n <= 0 {
        Ok(Seq::empty())
    } else {
        match legacy_prefix(es, reserved, n - 1) {
            Err(e) => Err(e),
            Ok(prev) => match legacy_step(prev, es[n - 1], reserved) {
                Err(e) => Err(e),
                Ok(t) => Ok(prev.push(t)),
            },
        }
    }
}

/// Collects the legacy trial UIDs of a hero list with their positions.
fn collect_legacy(list: &Vec<i64>, sub: bool, out: &mut Vec<(usize, i64, bool)>)
    ensures
        final(out)@ == old(out)@ + legacy_entries(list@, sub),
{
    let ghost start = out@;
    let mut i: usize = 0;
    while i < list.len()
        invariant
            i <= list@.len(),
            out@ == start + legacy_entries(list@.take(i as int), sub),
        decreases list@.len() - i,
    {
        assert(list@.take(i as int + 1).drop_last() =~= list@.take(i as int));
        if is_legacy_trial_uid(list[i]) {
            out.push((i, list[i], sub));
        }
        assert(out@ =~= start + legacy_entries(list@.take(i as int + 1), sub));
        i = i + 1;
    }
    assert(list@.take(list@.len() as int) =~= list@);
}

/// Checks a legacy entry against the trials before it.
fn legacy_entry(
    e: (usize, i64, bool),
    reserved_aid_ordinal: usize,
    seen: &mut HashSet<i32>,
    trials: &Vec<NormalizedTrial>,
) -> (r: Result<NormalizedTrial, TrialError>)
    requires
        reserved_aid_ordinal + trials@.len() < MAX_TRIAL_UID_ORDINAL,
        forall|x: i32| old(seen)@.contains(x) <==> has_trial_id(trials@, x),
    ensures
        r == legacy_step(trials@, e, reserved_aid_ordinal as int),
        r matches Ok(t) ==> forall|x: i32| final(seen)@.contains(x) <==> has_trial_id(trials@.push(t), x),
{
    let (position, raw_uid, sub) = e;
    let trial_id = match legacy_trial_id(raw_uid) {
        Ok(id) => id,
        Err(x) => return Err(x),
    };
    if !seen.insert(trial_id) {
        return Err(TrialError::DuplicateLegacyTrialId { trial_id });
    }
    if position >= i32::MAX as usize {
        return Err(TrialError::PositionOutOfRange);
    }
    let p: i32 = (position + 1) as i32;
    let uid: i64 = -((reserved_aid_ordinal + trials.len() + 1) as i64);
    let t = NormalizedTrial {
        trial_id,
        uid,
        position: Some(if sub { -p } else { p }),
        is_substitute: sub,
    };
    proof {
        assert forall|x: i32| seen@.contains(x) <==> has_trial_id(trials@.push(t), x) by {
            lemma_has_trial_id_push(trials@, t, x);
        }
    }
    Ok(t)
}

proof fn lemma_legacy_err(es: Seq<(usize, i64, bool)>, reserved: int, n: int, m: int)
    requires
        0 <= n <= m,
        legacy_prefix(es, reserved, n) is Err,
    ensures
        legacy_prefix(es, reserved, m) == legacy_prefix(es, reserved, n),
    decreases m - n,
{
    if n < m {
        lemma_legacy_err(es, reserved, n, m - 1);
    }
}

/// Normalizes the legacy trial UIDs of a request, main heroes first.
fn normalize_legacy_trials(group: &FightGroup, reserved_aid_ordinal: usize) -> (r: Result<
    Vec<NormalizedTrial>,
    TrialError,
>)
    ensures
        ({
            let es = legacy_entries(group.hero_list@, false) + legacy_entries(group.sub_hero_list@, true);
            match capacity_error(reserved_aid_ordinal as int, es.len() as int) {
                Some(e) => r == Err::<Vec<NormalizedTrial>, TrialError>(e),
                None => match legacy_prefix(es, reserved_aid_ordinal as int, es.len() as int) {
                    Ok(v) => r matches Ok(trials) && trials@ == v,
                    Err(e) => r == Err::<Vec<NormalizedTrial>, TrialError>(e),
                },
            }
        }),
{
    let mut entries: Vec<(usize, i64, bool)> = Vec::new();
    collect_legacy(&group.hero_list, false, &mut entries);
    collect_legacy(&group.sub_hero_list, true, &mut entries);
    assert(entries@ =~= legacy_entries(group.hero_list@, false) + legacy_entries(group.sub_hero_list@, true));
    match ensure_trial_uid_capacity(reserved_aid_ordinal, entries.len()) {
        Ok(()) => {},
        Err(e) => return Err(e),
    }
    let ghost reserved = reserved_aid_ordinal as int;
    let ghost es = entries@;
    let mut seen: HashSet<i32> = HashSet::new();
    let mut trials: Vec<NormalizedTrial> = Vec::new();
    let mut k: usize = 0;
    while k < entries.len()
        invariant
            k <= entries@.len(),
            es == entries@,
            es == legacy_entries(group.hero_list@, false) + legacy_entries(group.sub_hero_list@, true),
            reserved == reserved_aid_ordinal as int,
            reserved + entries@.len() <= MAX_TRIAL_UID_ORDINAL,
            legacy_prefix(entries@, reserved, k as int) == Ok::<Seq<NormalizedTrial>, TrialError>(
                trials@,
            ),
            trials@.len() == k,
            forall|x: i32| seen@.contains(x) <==> has_trial_id(trials@, x),
        decreases entries@.len() - k,
    {
        let t = match legacy_entry(entries[k], reserved_aid_ordinal, &mut seen, &trials) {
            Ok(t) => t,
            Err(e) => {
                proof {
                    lemma_legacy_err(entries@, reserved, k as int + 1, entries@.len() as int);
                }
                return Err(e);
            },
        };
        trials.push(t);
        k = k + 1;
    }
    Ok(trials)
}

// ---------------------------------------------------------------------------
// The request as a whole
// ---------------------------------------------------------------------------

/// Some UID of the list encodes a legacy trial.
pub open spec fn has_legacy_uid(s: Seq<i64>) -> bool {
    exists|k: int| 0 <= k < s.len() && legacy_uid(#[trigger] s[k])
}

/// The trials a fight request names, or why it is refused. Every negative
/// main or substitute UID must be a placeholder or a legacy trial; an
/// explicit trial list excludes legacy UIDs; trial UIDs follow the highest
/// placeholder ordinal and may not reach the defender namespace.
pub open spec fn normalized_trials(g: FightGroupView) -> Result<Seq<NormalizedTrial>, TrialError> {
    let all = g.hero_list + g.sub_hero_list;
    match first_unsupported(all) {
        Some(u) => Err(TrialError::UnsupportedNegativeUid { uid: u }),
        None => {
            let reserved = max_aid_ordinal(all);
            if g.trial_hero_list.len() > 0 {
                if has_legacy_uid(all) {
                    Err(TrialError::MixedEncodings)
                } else {
                    match capacity_error(reserved, g.trial_hero_list.len() as int) {
                        Some(e) => Err(e),
                        None => explicit_prefix(
                            g.trial_hero_list,
                            reserved,
                            g.trial_hero_list.len() as int,
                        ),
                    }
                }
            } else {
                let es = legacy_entries(g.hero_list, false) + legacy_entries(g.sub_hero_list, true);
                match capacity_error(reserved, es.len() as int) {
                    Some(e) => Err(e),
                    None => legacy_prefix(es, reserved, es.len() as int),
                }
            }
        },
    }
}

/// Whether any main or substitute UID encodes a legacy trial.
fn any_legacy_uid(group: &FightGroup) -> (b: bool)
    ensures
        b == has_legacy_uid(group.hero_list@ + group.sub_hero_list@),
{
    let ghost all = group.hero_list@ + group.sub_hero_list@;
    let n = group.hero_list.len();
    let mut i: usize = 0;
    while i < n
        invariant
            i <= n,
            n == group.hero_list@.len(),
            all == group.hero_list@ + group.sub_hero_list@,
            forall|k: int| 0 <= k < i ==> !legacy_uid(#[trigger] all[k]),
        decreases n - i,
    {
        assert(all[i as int] == group.hero_list@[i as int]);
        if is_legacy_trial_uid(group.hero_list[i]) {
            return true;
        }
        i = i + 1;
    }
    let mut j: usize = 0;
    while j < group.sub_hero_list.len()
        invariant
            j <= group.sub_hero_list@.len(),
            n == group.hero_list@.len(),
            all == group.hero_list@ + group.sub_hero_list@,
            forall|k: int| 0 <= k < n + j ==> !legacy_uid(#[trigger] all[k]),
        decreases group.sub_hero_list@.len() - j,
    {
        assert(all[n + j] == group.sub_hero_list@[j as int]);
        if is_legacy_trial_uid(group.sub_hero_list[j]) {
            return true;
        }
        j = j + 1;
    }
    false
}

/// Reads the trial heroes of a fight request, as attacker UIDs and
/// positions.
pub fn normalize_trial_requests(group: &FightGroup) -> (r: Result<Vec<NormalizedTrial>, TrialError>)
    ensures
        match normalized_trials(group@) {
            Ok(v) => r matches Ok(trials) && trials@ == v,
            Err(e) => r == Err::<Vec<NormalizedTrial>, TrialError>(e),
        },
{
    match validate_negative_hero_uids(group) {
        Ok(()) => {},
        Err(e) => return Err(e),
    }
    let reserved = max_battle_aid_ordinal(group);
    if group.trial_hero_list.len() > 0 {
        if any_legacy_uid(group) {
            return Err(TrialError::MixedEncodings);
        }
        return normalize_explicit_trials(group, reserved);
    }
    normalize_legacy_trials(group, reserved)
}

// ---------------------------------------------------------------------------
// Counts over a normalized request
// ---------------------------------------------------------------------------

/// How many UIDs of a list satisfy `keep`.
pub open spec fn count_uids(s: Seq<i64>, keep: spec_fn(i64) -> bool) -> nat
    decreases s.len(),
{
    if s.len() == 0 {
        0
    } else {
        count_uids(s.drop_last(), keep) + if keep(s.last()) {
            1nat
        } else {
            0nat
        }
    }
}

/// How many trials start with a card in hand.
pub open spec fn count_initial_cards(ts: Seq<NormalizedTrial>) -> nat
    decreases ts.len(),
{
    if ts.len() == 0 {
        0
    } else {
        count_initial_cards(ts.drop_last()) + if !ts.last().is_substitute {
            1nat
        } else {
            0nat
        }
    }
}

proof fn lemma_count_uids_bound(s: Seq<i64>, keep: spec_fn(i64) -> bool)
    ensures
        count_uids(s, keep) <= s.len(),
    decreases s.len(),
{
    if s.len() > 0 {
        lemma_count_uids_bound(s.drop_last(), keep);
    }
}

proof fn lemma_count_initial_bound(ts: Seq<NormalizedTrial>)
    ensures
        count_initial_cards(ts) <= ts.len(),
    decreases ts.len(),
{
    if ts.len() > 0 {
        lemma_count_initial_bound(ts.drop_last());
    }
}

/// How many trials start with a card in hand.
fn initial_card_count(trials: &[NormalizedTrial]) -> (n: usize)
    ensures
        n == count_initial_cards(trials@),
{
    let mut n: usize = 0;
    let mut i: usize = 0;
    while i < trials.len()
        invariant
            i <= trials@.len(),
            n == count_initial_cards(trials@.take(i as int)),
        decreases trials@.len() - i,
    {
        assert(trials@.take(i as int + 1).drop_last() =~= trials@.take(i as int));
        proof {
            lemma_count_initial_bound(trials@.take(i as int));
        }
        if trials[i].has_initial_card() {
            n = n + 1;
        }
        i = i + 1;
    }
    assert(trials@.take(trials@.len() as int) =~= trials@);
    n
}

/// A main hero that takes the field: an owned hero or a battle aid.
pub open spec fn fielded_uid(u: i64) -> bool {
    u > 0 || aid_placeholder(u)
}

/// An owned hero.
pub open spec fn owned_uid(u: i64) -> bool {
    u > 0
}

/// How many main UIDs satisfy `fielded` (or only `owned`).
fn count_main(list: &Vec<i64>, with_aids: bool) -> (n: usize)
    ensures
        n == count_uids(
            list@,
            if with_aids {
                |u: i64| fielded_uid(u)
            } else {
                |u: i64| owned_uid(u)
            },
        ),
{
    let ghost keep = if with_aids {
        |u: i64| fielded_uid(u)
    } else {
        |u: i64| owned_uid(u)
    };
    let mut n: usize = 0;
    let mut i: usize = 0;
    while i < list.len()
        invariant
            i <= list@.len(),
            keep == (if with_aids {
                |u: i64| fielded_uid(u)
            } else {
                |u: i64| owned_uid(u)
            }),
            n == count_uids(list@.take(i as int), keep),
        decreases list@.len() - i,
    {
        assert(list@.take(i as int + 1).drop_last() =~= list@.take(i as int));
        proof {
            lemma_count_uids_bound(list@.take(i as int), keep);
        }
        let u = list[i];
        if u > 0 || (with_aids && is_battle_aid_placeholder(u)) {
            n = n + 1;
        }
        i = i + 1;
    }
    assert(list@.take(list@.len() as int) =~= list@);
    n
}

/// How many heroes take the field at the start: owned heroes and battle
/// aids of the main list, and trials that start with a card.
pub fn active_hero_count(group: &FightGroup, trials: &[NormalizedTrial]) -> (n: usize)
    requires
        group.hero_list@.len() + trials@.len() <= usize::MAX,
    ensures
        n == count_uids(group.hero_list@, |u: i64| fielded_uid(u)) + count_initial_cards(trials@),
{
    let a = count_main(&group.hero_list, true);
    let b = initial_card_count(trials);
    proof {
        lemma_count_uids_bound(group.hero_list@, |u: i64| fielded_uid(u));
        lemma_count_initial_bound(trials@);
    }
    a + b
}

/// How many heroes deal the opening cards: owned main heroes and trials that
/// start with a card.
pub fn card_source_hero_count(group: &FightGroup, trials: &[NormalizedTrial]) -> (n: usize)
    requires
        group.hero_list@.len() + trials@.len() <= usize::MAX,
    ensures
        n == count_uids(group.hero_list@, |u: i64| owned_uid(u)) + count_initial_cards(trials@),
{
    let a = count_main(&group.hero_list, false);
    let b = initial_card_count(trials);
    proof {
        lemma_count_uids_bound(group.hero_list@, |u: i64| owned_uid(u));
        lemma_count_initial_bound(trials@);
    }
    a + b
}

/// The ordinal a trial UID occupies: `-uid` when that is a `usize`.
pub open spec fn uid_ordinal(uid: i64) -> Option<int> {
    if uid == i64::MIN || uid > 0 || -uid > usize::MAX {
        None
    } else {
        Some(-uid as int)
    }
}

/// The highest ordinal the trials occupy, or 0.
pub open spec fn max_trial_ordinal(ts: Seq<NormalizedTrial>) -> int
    decreases ts.len(),
{
    if ts.len() == 0 {
        0
    } else {
        let prev = max_trial_ordinal(ts.drop_last());
        match uid_ordinal(ts.last().uid) {
            Some(o) => if o > prev {
                o
            } else {
                prev
            },
            None => prev,
        }
    }
}

proof fn lemma_max_trial_ordinal_bounds(ts: Seq<NormalizedTrial>)
    ensures
        0 <= max_trial_ordinal(ts) <= usize::MAX,
    decreases ts.len(),
{
    if ts.len() > 0 {
        lemma_max_trial_ordinal_bounds(ts.drop_last());
    }
}

/// The highest attacker UID ordinal in use: by a battle aid placeholder or
/// by a trial.
pub fn reserved_attacker_uid_ordinal(group: &FightGroup, trials: &[NormalizedTrial]) -> (n: usize)
    ensures
        n == if max_aid_ordinal(group.hero_list@ + group.sub_hero_list@) > max_trial_ordinal(
            trials@,
        ) {
            max_aid_ordinal(group.hero_list@ + group.sub_hero_list@)
        } else {
            max_trial_ordinal(trials@)
        },
{
    let mut best: usize = 0;
    let mut i: usize = 0;
    while i < trials.len()
        invariant
            i <= trials@.len(),
            best == max_trial_ordinal(trials@.take(i as int)),
        decreases trials@.len() - i,
    {
        assert(trials@.take(i as int + 1).drop_last() =~= trials@.take(i as int));
        let uid = trials[i].uid;
        if uid != i64::MIN && uid <= 0 && ((-uid) as u64) <= (usize::MAX as u64) {
            let o = (-uid) as usize;
            if o > best {
                best = o;
            }
        }
        i = i + 1;
    }
    assert(trials@.take(trials@.len() as int) =~= trials@);
    let aid = max_battle_aid_ordinal(group);
    if aid > best {
        aid
    } else {
        best
    }
}

// ---------------------------------------------------------------------------
// Laws
// ---------------------------------------------------------------------------

/// Trials numbered by ordinal after `reserved`, with distinct trial ids.
pub open spec fn well_numbered(v: Seq<NormalizedTrial>, reserved: int) -> bool {
    &&& forall|k: int| 0 <= k < v.len() ==> (#[trigger] v[k]).uid == trial_uid(reserved, k)
    &&& forall|i: int, j: int| 0 <= i < j < v.len() ==> (#[trigger] v[i]).trial_id != (#[trigger] v[j]).trial_id
}

proof fn lemma_explicit_numbered(ts: Seq<TrialHero>, reserved: int, n: int)
    requires
        0 <= n,
    ensures
        explicit_prefix(ts, reserved, n) matches Ok(v) ==> v.len() == n && well_numbered(v, reserved),
    decreases n,
{
    if n > 0 {
        lemma_explicit_numbered(ts, reserved, n - 1);
        if let Ok(prev) = explicit_prefix(ts, reserved, n - 1) {
            if let Ok(t) = explicit_step(prev, ts[n - 1], n - 1, reserved) {
                let v = prev.push(t);
                assert forall|i: int, j: int| 0 <= i < j < v.len() implies (#[trigger] v[i]).trial_id
                    != (#[trigger] v[j]).trial_id by {
                    if j == n - 1 {
                        assert(prev[i] == v[i]);
                        if v[i].trial_id == t.trial_id {
                            assert(has_trial_id(prev, t.trial_id));
                        }
                    } else {
                        assert(prev[i] == v[i] && prev[j] == v[j]);
                    }
                }
                assert forall|k: int| 0 <= k < v.len() implies (#[trigger] v[k]).uid == trial_uid(
                    reserved,
                    k,
                ) by {
                    if k < n - 1 {
                        assert(prev[k] == v[k]);
                    }
                }
            }
        }
    }
}

proof fn lemma_legacy_numbered(es: Seq<(usize, i64, bool)>, reserved: int, n: int)
    requires
        0 <= n,
    ensures
        legacy_prefix(es, reserved, n) matches Ok(v) ==> v.len() == n && well_numbered(v, reserved),
    decreases n,
{
    if n > 0 {
        lemma_legacy_numbered(es, reserved, n - 1);
        if let Ok(prev) = legacy_prefix(es, reserved, n - 1) {
            if let Ok(t) = legacy_step(prev, es[n - 1], reserved) {
                let v = prev.push(t);
                assert forall|i: int, j: int| 0 <= i < j < v.len() implies (#[trigger] v[i]).trial_id
                    != (#[trigger] v[j]).trial_id by {
                    if j == n - 1 {
                        assert(prev[i] == v[i]);
                        if v[i].trial_id == t.trial_id {
                            assert(has_trial_id(prev, t.trial_id));
                        }
                    } else {
                        assert(prev[i] == v[i] && prev[j] == v[j]);
                    }
                }
                assert forall|k: int| 0 <= k < v.len() implies (#[trigger] v[k]).uid == trial_uid(
                    reserved,
                    k,
                ) by {
                    if k < n - 1 {
                        assert(prev[k] == v[k]);
                    }
                }
            }
        }
    }
}

/// The trials of an accepted request have distinct trial ids and take the
/// attacker UIDs right after the battle aid placeholders, one each, in
/// order; none reaches the defender namespace below `-1000`.
pub proof fn accepted_trials_take_distinct_attacker_uids(g: FightGroupView)
    requires
        normalized_trials(g) is Ok,
    ensures
        ({
            let v = normalized_trials(g)->Ok_0;
            let reserved = max_aid_ordinal(g.hero_list + g.sub_hero_list);
            &&& forall|k: int|
                0 <= k < v.len() ==> (#[trigger] v[k]).uid == -(reserved + k + 1) && -(
                MAX_TRIAL_UID_ORDINAL as int) <= v[k].uid <= -1
            &&& forall|i: int, j: int|
                0 <= i < j < v.len() ==> (#[trigger] v[i]).uid != (#[trigger] v[j]).uid
                    && v[i].trial_id != v[j].trial_id
        }),
{
    let all = g.hero_list + g.sub_hero_list;
    let reserved = max_aid_ordinal(all);
    lemma_max_aid_bounds(all);
    if g.trial_hero_list.len() > 0 {
        lemma_explicit_numbered(g.trial_hero_list, reserved, g.trial_hero_list.len() as int);
    } else {
        let es = legacy_entries(g.hero_list, false) + legacy_entries(g.sub_hero_list, true);
        lemma_legacy_numbered(es, reserved, es.len() as int);
    }
    let v = normalized_trials(g)->Ok_0;
    assert forall|i: int, j: int| 0 <= i < j < v.len() implies (#[trigger] v[i]).uid != (
    #[trigger] v[j]).uid && v[i].trial_id != v[j].trial_id by {
        assert(v[i].uid == trial_uid(reserved, i));
        assert(v[j].uid == trial_uid(reserved, j));
    }
}

} // verus!
