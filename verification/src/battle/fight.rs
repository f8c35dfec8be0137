//! Entity identifiers and positions of a fight, and monster skill groups.
use crate::battle::trial::MAX_TRIAL_UID_ORDINAL;
use crate::text::{parse_i32, parse_i32_spec, pieces_view, push_str, push_uint, split, split_chars, str_chars};
use std::collections::HashSet;
use vstd::prelude::*;

verus! {

broadcast use vstd::std_specs::hash::group_hash_axioms;

/// The UID of defender `index`: defenders count down from `-1001`, below
/// every attacker ordinal.
pub fn enemy_entity_uid(index: usize) -> (uid: i64)
    requires
        index <= i64::MAX - 1000,
    ensures
        uid == -1001 - index,
{
    -1001 - index as i64
}

/// Why an attacker UID could not be allocated.
#[derive(Clone, Copy, Debug, PartialEq, Eq)]
pub enum UidError {
    /// The ordinal does not fit in `usize`.
    OrdinalOverflow,
    /// The ordinal reaches the defender namespace.
    CrossesDefenders { ordinal: usize },
    /// No attacker position is left.
    PositionOverflow,
}

/// The message of an allocation error.
pub open spec fn uid_error_text(e: UidError) -> Seq<char> {
    match e {
        UidError::OrdinalOverflow => "attacker substitute UID ordinal overflow"@,
        UidError::CrossesDefenders { ordinal } => "attacker substitute UID ordinal "@ + crate::text::nat_text(
            ordinal as nat,
        ) + " crosses the defender UID namespace"@,
        UidError::PositionOverflow => "attacker position overflow"@,
    }
}

impl UidError {
    /// The error's message.
    pub fn message(&self) -> (m: String)
        ensures
            m@ == uid_error_text(*self),
    {
        match *self {
            UidError::OrdinalOverflow => String::from_str("attacker substitute UID ordinal overflow"),
            UidError::CrossesDefenders { ordinal } => {
                let mut m = String::from_str("attacker substitute UID ordinal ");
                push_uint(&mut m, ordinal as u64);
                push_str(&mut m, " crosses the defender UID namespace");
                m
            },
            UidError::PositionOverflow => String::from_str("attacker position overflow"),
        }
    }
}

/// The UID of owned substitute `substitute_index` when `trial_count` trial
/// UIDs come first: ordinal `trial_count + substitute_index + 1`, which may
/// not pass the last attacker ordinal.
pub fn try_attacker_substitute_uid(trial_count: usize, substitute_index: usize) -> (r: Result<
    i64,
    UidError,
>)
    ensures
        r == try_attacker_substitute_result(trial_count, substitute_index),
{
    let ordinal = match trial_count.checked_add(substitute_index) {
        Some(v) => match v.checked_add(1) {
            Some(w) => w,
            None => return Err(UidError::OrdinalOverflow),
        },
        None => return Err(UidError::OrdinalOverflow),
    };
    if ordinal > MAX_TRIAL_UID_ORDINAL {
        return Err(UidError::CrossesDefenders { ordinal });
    }
    Ok(-(ordinal as i64))
}

/// The UID of owned substitute `substitute_index` after `trial_count` trial
/// UIDs; the ordinal must stay within the attacker namespace.
pub fn attacker_substitute_uid(trial_count: usize, substitute_index: usize) -> (uid: i64)
    requires
        trial_count + substitute_index + 1 <= MAX_TRIAL_UID_ORDINAL,
    ensures
        uid == -(trial_count + substitute_index + 1),
{
    match try_attacker_substitute_uid(trial_count, substitute_index) {
        Ok(uid) => uid,
        Err(_) => -1,
    }
}

/// Claims the first free position from `next` on and moves `next` past it.
/// When the search or the step past the claimed position leaves `i32`, the
/// claim fails with `next` left at `i32::MAX` (a free `i32::MAX` is still
/// claimed).
pub fn claim_next_attacker_position(occupied: &mut HashSet<i32>, next: &mut i32) -> (r: Result<
    i32,
    UidError,
>)
    ensures
        match r {
            Ok(p) => {
                &&& *old(next) <= p < i32::MAX
                &&& !old(occupied)@.contains(p)
                &&& forall|q: i32| *old(next) <= q < p ==> old(occupied)@.contains(q)
                &&& final(occupied)@ == old(occupied)@.insert(p)
                &&& *final(next) == p + 1
            },
            Err(e) => {
                &&& e == UidError::PositionOverflow
                &&& forall|q: i32| *old(next) <= q < i32::MAX ==> old(occupied)@.contains(q)
                &&& *final(next) == i32::MAX
                &&& final(occupied)@ == old(occupied)@.insert(i32::MAX)
            },
        },
{
    let ghost start = *next;
    while occupied.contains(next)
        invariant
            start == *old(next),
            start <= *next,
            occupied@ == old(occupied)@,
            forall|q: i32| start <= q < *next ==> old(occupied)@.contains(q),
        decreases i32::MAX - *next,
    {
        if *next == i32::MAX {
            proof {
                assert(occupied@.insert(i32::MAX) =~= occupied@);
            }
            return Err(UidError::PositionOverflow);
        }
        *next = *next + 1;
    }
    let position = *next;
    occupied.insert(position);
    if *next == i32::MAX {
        return Err(UidError::PositionOverflow);
    }
    *next = *next + 1;
    Ok(position)
}

/// The ids that parse among a list of pieces, in order.
pub open spec fn parsed_ids(pieces: Seq<Seq<char>>) -> Seq<i32>
    decreases pieces.len(),
{
    if pieces.len() == 0 {
        Seq::empty()
    } else {
        parsed_ids(pieces.drop_last()) + match parse_i32_spec(pieces.last()) {
            Some(id) => seq![id],
            None => Seq::empty(),
        }
    }
}

/// The skill ids of group `target_group` among `blocks[i..]`: the first block
/// whose leading number is the target gives the ids that parse after it.
pub open spec fn monster_group_from(blocks: Seq<Seq<char>>, i: int, target_group: i32) -> Seq<i32>
    decreases blocks.len() - i,
{
    if i < 0 || i >= blocks.len() {
        Seq::empty()
    } else {
        let parts = split(blocks[i], '#');
        if parse_i32_spec(parts[0]) == Some(target_group) {
            parsed_ids(parts.drop_first())
        } else {
            monster_group_from(blocks, i + 1, target_group)
        }
    }
}

/// The skill ids of group `target_group` of a monster's `active_skill`:
/// `|`-separated blocks `group#id#id…`.
pub open spec fn monster_group(active_skill: Seq<char>, target_group: i32) -> Seq<i32> {
    monster_group_from(split(active_skill, '|'), 0, target_group)
}

/// Reads the ids that parse among the pieces after the first.
fn parse_ids_after_first(parts: &Vec<Vec<char>>) -> (ids: Vec<i32>)
    requires
        parts@.len() >= 1,
    ensures
        ids@ == parsed_ids(pieces_view(parts@).drop_first()),
{
    let ghost rest = pieces_view(parts@).drop_first();
    let mut ids: Vec<i32> = Vec::new();
    let mut i: usize = 1;
    while i < parts.len()
        invariant
            1 <= i <= parts@.len(),
            rest == pieces_view(parts@).drop_first(),
            ids@ == parsed_ids(rest.take(i - 1)),
        decreases parts@.len() - i,
    {
        assert(rest.take(i as int).drop_last() =~= rest.take(i - 1));
        assert(rest.take(i as int).last() == parts@[i as int]@);
        match parse_i32(parts[i].as_slice()) {
            Some(id) => {
                ids.push(id);
                assert(ids@ =~= parsed_ids(rest.take(i - 1)) + seq![id]);
            },
            None => {
                assert(ids@ =~= parsed_ids(rest.take(i - 1)) + Seq::<i32>::empty());
            },
        }
        i = i + 1;
    }
    assert(rest.take(parts@.len() - 1) =~= rest);
    ids
}

/// Reads skill group `target_group` of a monster's `active_skill`.
pub fn parse_monster_skill_group(active_skill: &str, target_group: i32) -> (ids: Vec<i32>)
    ensures
        ids@ == monster_group(active_skill@, target_group),
{
    let chars = str_chars(active_skill);
    let blocks = split_chars(chars.as_slice(), '|');
    let ghost bv = split(active_skill@, '|');
    assert(pieces_view(blocks@) == bv);
    let mut i: usize = 0;
    while i < blocks.len()
        invariant
            i <= blocks@.len(),
            bv == split(active_skill@, '|'),
            pieces_view(blocks@) == bv,
            monster_group(active_skill@, target_group) == monster_group_from(bv, i as int, target_group),
        decreases blocks@.len() - i,
    {
        assert(blocks@[i as int]@ == bv[i as int]);
        let parts = split_chars(blocks[i].as_slice(), '#');
        proof {
            crate::text::lemma_split_nonempty(bv[i as int], '#');
        }
        assert(parts@[0]@ == pieces_view(parts@)[0]);
        if parse_i32(parts[0].as_slice()) == Some(target_group) {
            return parse_ids_after_first(&parts);
        }
        i = i + 1;
    }
    Vec::new()
}

/// Attacker UIDs and defender UIDs never meet: an allocated substitute UID
/// lies in `-1000..=-1`, every defender UID at `-1001` or below.
pub proof fn attacker_and_defender_uids_are_disjoint(
    trial_count: usize,
    substitute_index: usize,
    defender_index: usize,
    uid: i64,
)
    requires
        try_attacker_substitute_result(trial_count, substitute_index) == Ok::<i64, UidError>(uid),
        defender_index <= i64::MAX - 1000,
    ensures
        -(MAX_TRIAL_UID_ORDINAL as int) <= uid <= -1,
        uid != -1001 - defender_index,
{
}

/// What allocating the UID of owned substitute `substitute_index` after
/// `trial_count` trial UIDs gives.
pub open spec fn try_attacker_substitute_result(trial_count: usize, substitute_index: usize) -> Result<
    i64,
    UidError,
> {
    let ordinal = trial_count + substitute_index + 1;
    if ordinal > usize::MAX {
        Err(UidError::OrdinalOverflow)
    } else if ordinal > MAX_TRIAL_UID_ORDINAL {
        Err(UidError::CrossesDefenders { ordinal: ordinal as usize })
    } else {
        Ok(-ordinal as i64)
    }
}

} // verus!
