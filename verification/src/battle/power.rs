//! Power meters of a battle entity and the absolute changes a fight step
//! sends for them.
use crate::battle::kit::PowerInfo;
use crate::battle::types::DestinyResolveError;
use crate::text::{int_text, push_int, push_str};
use vstd::prelude::*;

verus! {

/// `v` clamped to `lo..=hi`.
pub open spec fn clamp(v: i32, lo: i32, hi: i32) -> i32 {
    if v < lo {
        lo
    } else if v > hi {
        hi
    } else {
        v
    }
}

/// The position of the first meter with power id `id`, or `-1`.
pub open spec fn power_position(powers: Seq<PowerInfo>, id: i32) -> int
    decreases powers.len(),
{
    if powers.len() == 0 {
        -1
    } else {
        let p = power_position(powers.drop_last(), id);
        if p >= 0 {
            p
        } else if powers.last().power_id == Some(id) {
            powers.len() - 1
        } else {
            -1
        }
    }
}

proof fn lemma_power_position(powers: Seq<PowerInfo>, id: i32)
    ensures
        -1 <= power_position(powers, id) < powers.len(),
        power_position(powers, id) >= 0 ==> powers[power_position(powers, id)].power_id == Some(id),
        forall|j: int|
            0 <= j < powers.len() && (power_position(powers, id) < 0 || j < power_position(
                powers,
                id,
            )) ==> powers[j].power_id != Some(id),
    decreases powers.len(),
{
    if powers.len() > 0 {
        lemma_power_position(powers.drop_last(), id);
        assert forall|j: int| 0 <= j < powers.drop_last().len() implies powers.drop_last()[j]
            == powers[j] by {}
    }
}

/// The meters after an absolute change: a complete payload with a
/// non-negative maximum replaces the first meter with its power id, or is
/// appended, with its value clamped to `0..=max`; anything else is refused.
pub open spec fn power_change(powers: Seq<PowerInfo>, incoming: PowerInfo) -> Option<Seq<PowerInfo>> {
    match (incoming.power_id, incoming.num, incoming.max) {
        (Some(id), Some(num), Some(max)) => if max < 0 {
            None
        } else {
            let normalized = PowerInfo {
                power_id: Some(id),
                num: Some(clamp(num, 0, max)),
                max: Some(max),
            };
            let p = power_position(powers, id);
            Some(
                if p >= 0 {
                    powers.update(p, normalized)
                } else {
                    powers.push(normalized)
                },
            )
        },
        _ => None,
    }
}

/// The message of a refused change.
pub open spec fn power_change_message(incoming: PowerInfo) -> Seq<char> {
    match incoming.power_id {
        None => "PowerInfoChange missing power_id"@,
        Some(id) => match incoming.num {
            None => "PowerInfoChange missing num for power "@ + int_text(id as int),
            Some(_) => match incoming.max {
                None => "PowerInfoChange missing max for power "@ + int_text(id as int),
                Some(max) => "PowerInfoChange max "@ + int_text(max as int)
                    + " is negative for power "@ + int_text(id as int),
            },
        },
    }
}

/// Applies an absolute power meter change; a refused change leaves the
/// meters as they were.
pub fn apply_power_info_change(power_infos: &mut Vec<PowerInfo>, incoming: &PowerInfo) -> (r: Result<
    (),
    DestinyResolveError,
>)
    ensures
        match power_change(old(power_infos)@, *incoming) {
            Some(v) => r is Ok && final(power_infos)@ == v,
            None => (r matches Err(DestinyResolveError::InvalidConfig(m)) && m@
                == power_change_message(*incoming)) && final(power_infos)@ == old(power_infos)@,
        },
{
    let power_id = match incoming.power_id {
        Some(id) => id,
        None => {
            return Err(
                DestinyResolveError::InvalidConfig(
                    String::from_str("PowerInfoChange missing power_id"),
                ),
            );
        },
    };
    let incoming_num = match incoming.num {
        Some(n) => n,
        None => {
            let mut m = String::from_str("PowerInfoChange missing num for power ");
            push_int(&mut m, power_id as i64);
            return Err(DestinyResolveError::InvalidConfig(m));
        },
    };
    let max = match incoming.max {
        Some(v) => v,
        None => {
            let mut m = String::from_str("PowerInfoChange missing max for power ");
            push_int(&mut m, power_id as i64);
            return Err(DestinyResolveError::InvalidConfig(m));
        },
    };
    if max < 0 {
        let mut m = String::from_str("PowerInfoChange max ");
        push_int(&mut m, max as i64);
        push_str(&mut m, " is negative for power ");
        push_int(&mut m, power_id as i64);
        return Err(DestinyResolveError::InvalidConfig(m));
    }
    let num = if incoming_num < 0 {
        0
    } else if incoming_num > max {
        max
    } else {
        incoming_num
    };
    let normalized = PowerInfo { power_id: Some(power_id), num: Some(num), max: Some(max) };
    proof {
        lemma_power_position(power_infos@, power_id);
    }
    let mut i: usize = 0;
    while i < power_infos.len() && power_infos[i].power_id != Some(power_id)
        invariant
            i <= power_infos@.len(),
            forall|j: int| 0 <= j < i ==> power_infos@[j].power_id != Some(power_id),
        decreases power_infos@.len() - i,
    {
        i = i + 1;
    }
    if i < power_infos.len() {
        proof {
            lemma_power_position(power_infos@, power_id);
            let p = power_position(power_infos@, power_id);
            if p >= 0 && p < i {
                assert(power_infos@[p].power_id != Some(power_id));
            }
            if p < 0 || p > i {
                assert(power_infos@[i as int].power_id != Some(power_id));
            }
        }
        power_infos.set(i, normalized);
    } else {
        proof {
            lemma_power_position(power_infos@, power_id);
            let p = power_position(power_infos@, power_id);
            if p >= 0 {
                assert(power_infos@[p].power_id != Some(power_id));
            }
        }
        power_infos.push(normalized);
    }
    Ok(())
}

/// An absolute change is idempotent: applying the same change again leaves
/// the meters as the first application left them.
pub proof fn power_change_is_idempotent(powers: Seq<PowerInfo>, incoming: PowerInfo)
    requires
        power_change(powers, incoming) is Some,
    ensures
        power_change(power_change(powers, incoming)->0, incoming) == power_change(powers, incoming),
{
    let id = incoming.power_id->0;
    let v = power_change(powers, incoming)->0;
    lemma_power_position(powers, id);
    lemma_power_position(v, id);
    let p = power_position(powers, id);
    let q = power_position(v, id);
    if p >= 0 {
        assert(v[p].power_id == Some(id));
        if q >= 0 && q < p {
            assert(v[q] == powers[q]);
        }
        if q < 0 || q > p {
            assert(v[p].power_id == Some(id));
        }
        assert(q == p);
        assert(v.update(q, v[p]) =~= v);
    } else {
        assert(v[powers.len() as int].power_id == Some(id));
        if q >= 0 && q < powers.len() {
            assert(v[q] == powers[q]);
        }
        if q < 0 || q > powers.len() {
            assert(v[powers.len() as int].power_id == Some(id));
        }
        assert(q == powers.len());
        assert(v.update(q, v[q]) =~= v);
    }
}

} // verus!
