//! The entities of a fight and the UID index over them: main attackers,
//! attacker substitutes and defenders, each found by UID, model id or team.
use crate::battle::kit::PowerInfo;
use crate::battle::power::{apply_power_info_change, power_change, power_change_message};
use crate::battle::types::DestinyResolveError;
use crate::text::{int_text, push_int, push_str};
use std::collections::HashMap;
use vstd::prelude::*;

verus! {

broadcast use vstd::std_specs::hash::group_hash_axioms;

/// What the entity index reads of a fight entity.
#[derive(Debug)]
pub struct FightEntity {
    pub uid: Option<i64>,
    pub model_id: Option<i32>,
    pub user_id: Option<i64>,
    pub team_type: Option<i32>,
    pub power_infos: Vec<PowerInfo>,
}

/// The UID of the player entity of a team: 0 for the attackers (team 1),
/// -99999 for the other side.
pub open spec fn player_entity_uid(team_type: i32) -> i64 {
    if team_type == 1 {
        0i64
    } else {
        -99999i64
    }
}

/// The player's own entity in a team: the user's, model 0 and no powers,
/// under the team's player UID.
pub fn build_player_entity(user_id: i64, team_type: i32) -> (e: FightEntity)
    ensures
        e.uid == Some(player_entity_uid(team_type)),
        e.model_id == Some(0i32),
        e.user_id == Some(user_id),
        e.team_type == Some(team_type),
        e.power_infos@.len() == 0,
{
    let uid: i64 = if team_type == 1 {
        0
    } else {
        -99999
    };
    FightEntity {
        uid: Some(uid),
        model_id: Some(0),
        user_id: Some(user_id),
        team_type: Some(team_type),
        power_infos: Vec::new(),
    }
}

/// The entities of a fight by side and role.
#[derive(Debug)]
pub struct FightRoster {
    pub attacker_entities: Vec<FightEntity>,
    pub attacker_sub_entities: Vec<FightEntity>,
    pub defender_entities: Vec<FightEntity>,
}

/// Where an entity stands in a fight.
#[derive(Clone, Copy, Debug, PartialEq, Eq)]
pub struct EntityLocation {
    pub is_attacker: bool,
    pub is_sub_entity: bool,
    pub index: usize,
}

/// The UIDs of a list of entities.
pub open spec fn uids(entities: Seq<FightEntity>) -> Seq<Option<i64>> {
    Seq::new(entities.len(), |i: int| entities[i].uid)
}

/// The index after recording the first `n` entities of one list.
pub open spec fn index_list(
    m: Map<i64, EntityLocation>,
    list: Seq<Option<i64>>,
    n: int,
    is_attacker: bool,
    is_sub_entity: bool,
) -> Map<i64, EntityLocation>
    decreases n,
{
    if n <= 0 {
        m
    } else {
        let prev = index_list(m, list, n - 1, is_attacker, is_sub_entity);
        match list[n - 1] {
            Some(uid) => prev.insert(
                uid,
                EntityLocation { is_attacker, is_sub_entity, index: (n - 1) as usize },
            ),
            None => prev,
        }
    }
}

/// The UID index of a roster: each UID maps to where its last entity stands,
/// recording main attackers, then attacker substitutes, then defenders.
pub open spec fn roster_index(r: &FightRoster) -> Map<i64, EntityLocation> {
    let a = uids(r.attacker_entities@);
    let s = uids(r.attacker_sub_entities@);
    let d = uids(r.defender_entities@);
    index_list(
        index_list(index_list(Map::empty(), a, a.len() as int, true, false), s, s.len() as int, true, true),
        d,
        d.len() as int,
        false,
        false,
    )
}

/// The entity a location names, if the roster has it.
pub open spec fn entity_at(r: &FightRoster, loc: EntityLocation) -> Option<&FightEntity> {
    let list = if loc.is_attacker {
        if loc.is_sub_entity {
            r.attacker_sub_entities@
        } else {
            r.attacker_entities@
        }
    } else {
        r.defender_entities@
    };
    if loc.index < list.len() {
        Some(&list[loc.index as int])
    } else {
        None
    }
}

/// The entities of a fight with their UID index.
pub struct FightEntityDataMgr {
    roster: FightRoster,
    entity_cache: HashMap<i64, EntityLocation>,
}

/// Records the UIDs of one list in the index.
fn index_entities(
    cache: &mut HashMap<i64, EntityLocation>,
    list: &Vec<FightEntity>,
    is_attacker: bool,
    is_sub_entity: bool,
)
    ensures
        final(cache)@ == index_list(old(cache)@, uids(list@), list@.len() as int, is_attacker, is_sub_entity),
{
    let ghost start = cache@;
    let mut idx: usize = 0;
    while idx < list.len()
        invariant
            idx <= list@.len(),
            cache@ == index_list(start, uids(list@), idx as int, is_attacker, is_sub_entity),
        decreases list@.len() - idx,
    {
        match list[idx].uid {
            Some(uid) => {
                cache.insert(uid, EntityLocation { is_attacker, is_sub_entity, index: idx });
            },
            None => {},
        }
        idx = idx + 1;
    }
}

impl FightEntityDataMgr {
    /// The roster the manager holds.
    pub closed spec fn spec_roster(&self) -> &FightRoster {
        &self.roster
    }

    /// The manager's UID index.
    pub closed spec fn spec_index(&self) -> Map<i64, EntityLocation> {
        self.entity_cache@
    }

    #[verifier::type_invariant]
    spec fn cache_matches(&self) -> bool {
        self.entity_cache@ == roster_index(&self.roster)
    }

    /// Indexes the entities of a fight.
    pub fn new(roster: FightRoster) -> (m: Self)
        ensures
            m.spec_roster() == &roster,
            m.spec_index() == roster_index(&roster),
    {
        let mut cache: HashMap<i64, EntityLocation> = HashMap::new();
        index_entities(&mut cache, &roster.attacker_entities, true, false);
        index_entities(&mut cache, &roster.attacker_sub_entities, true, true);
        index_entities(&mut cache, &roster.defender_entities, false, false);
        FightEntityDataMgr { roster, entity_cache: cache }
    }

    /// Where entity `entity_id` stands.
    pub fn get_location(&self, entity_id: i64) -> (r: Option<EntityLocation>)
        ensures
            r == roster_index(self.spec_roster()).get(entity_id),
    {
        proof {
            use_type_invariant(self);
        }
        match self.entity_cache.get(&entity_id) {
            Some(loc) => Some(*loc),
            None => None,
        }
    }

    /// Entity `entity_id`.
    pub fn get_by_id(&self, entity_id: i64) -> (r: Option<&FightEntity>)
        ensures
            r == match roster_index(self.spec_roster()).get(entity_id) {
                Some(loc) => entity_at(self.spec_roster(), loc),
                None => None,
            },
    {
        let loc = match self.get_location(entity_id) {
            Some(loc) => loc,
            None => return None,
        };
        let list = if loc.is_attacker {
            if loc.is_sub_entity {
                &self.roster.attacker_sub_entities
            } else {
                &self.roster.attacker_entities
            }
        } else {
            &self.roster.defender_entities
        };
        if loc.index < list.len() {
            Some(&list[loc.index])
        } else {
            None
        }
    }

    /// The first entity with model id `model_id`: main attackers, then
    /// attacker substitutes, then defenders.
    pub fn find_by_model_id(&self, model_id: i32) -> (r: Option<&FightEntity>)
        ensures
            match r {
                Some(e) => Some(*e),
                None => None,
            } == first_with_model(
                self.spec_roster().attacker_entities@ + self.spec_roster().attacker_sub_entities@
                    + self.spec_roster().defender_entities@,
                model_id,
            ),
    {
        let ghost all = self.roster.attacker_entities@ + self.roster.attacker_sub_entities@
            + self.roster.defender_entities@;
        let a = &self.roster.attacker_entities;
        let s = &self.roster.attacker_sub_entities;
        let d = &self.roster.defender_entities;
        let mut i: usize = 0;
        while i < a.len()
            invariant
                i <= a@.len(),
                a == &self.roster.attacker_entities,
                s == &self.roster.attacker_sub_entities,
                d == &self.roster.defender_entities,
                all == a@ + s@ + d@,
                forall|k: int| 0 <= k < i ==> (#[trigger] all[k]).model_id != Some(model_id),
            decreases a@.len() - i,
        {
            assert(all[i as int] == a@[i as int]);
            if a[i].model_id == Some(model_id) {
                proof {
                    lemma_first_with_model_at(all, model_id, i as int);
                }
                return Some(&a[i]);
            }
            i = i + 1;
        }
        let na = a.len();
        let mut j: usize = 0;
        while j < s.len()
            invariant
                j <= s@.len(),
                a == &self.roster.attacker_entities,
                s == &self.roster.attacker_sub_entities,
                d == &self.roster.defender_entities,
                na == a@.len(),
                all == a@ + s@ + d@,
                forall|k: int| 0 <= k < na + j ==> (#[trigger] all[k]).model_id != Some(model_id),
            decreases s@.len() - j,
        {
            assert(all[na + j] == s@[j as int]);
            if s[j].model_id == Some(model_id) {
                proof {
                    lemma_first_with_model_at(all, model_id, na + j);
                }
                return Some(&s[j]);
            }
            j = j + 1;
        }
        let ns = s.len();
        let mut k: usize = 0;
        while k < d.len()
            invariant
                k <= d@.len(),
                a == &self.roster.attacker_entities,
                s == &self.roster.attacker_sub_entities,
                d == &self.roster.defender_entities,
                na == a@.len(),
                ns == s@.len(),
                all == a@ + s@ + d@,
                forall|x: int| 0 <= x < na + ns + k ==> (#[trigger] all[x]).model_id != Some(model_id),
            decreases d@.len() - k,
        {
            assert(all[na + ns + k] == d@[k as int]);
            if d[k].model_id == Some(model_id) {
                proof {
                    lemma_first_with_model_at(all, model_id, na + ns + k);
                }
                return Some(&d[k]);
            }
            k = k + 1;
        }
        proof {
            lemma_first_with_model_none(all, model_id);
        }
        None
    }

    /// The entities of team `team_type`: main attackers, then attacker
    /// substitutes, then defenders, each in order.
    pub fn get_team_entities(&self, team_type: i32) -> (r: Vec<&FightEntity>)
        ensures
            derefs(r@) == team_filter(
                self.spec_roster().attacker_entities@ + self.spec_roster().attacker_sub_entities@
                    + self.spec_roster().defender_entities@,
                team_type,
            ),
    {
        let ghost all = self.roster.attacker_entities@ + self.roster.attacker_sub_entities@
            + self.roster.defender_entities@;
        let mut out: Vec<&FightEntity> = Vec::new();
        assert(derefs(out@) =~= Seq::<FightEntity>::empty());
        collect_team(&self.roster.attacker_entities, team_type, &mut out);
        collect_team(&self.roster.attacker_sub_entities, team_type, &mut out);
        collect_team(&self.roster.defender_entities, team_type, &mut out);
        proof {
            lemma_team_filter_concat(
                self.roster.attacker_entities@ + self.roster.attacker_sub_entities@,
                self.roster.defender_entities@,
                team_type,
            );
            lemma_team_filter_concat(
                self.roster.attacker_entities@,
                self.roster.attacker_sub_entities@,
                team_type,
            );
        }
        out
    }

    /// Replaces the roster and rebuilds the index.
    pub fn update_fight(&mut self, roster: FightRoster)
        ensures
            final(self).spec_roster() == &roster,
            final(self).spec_index() == roster_index(&roster),
    {
        *self = FightEntityDataMgr::new(roster);
    }

}

/// The list of a fight that a location points into.
pub open spec fn location_list(r: &FightRoster, loc: EntityLocation) -> Seq<FightEntity> {
    if loc.is_attacker {
        if loc.is_sub_entity {
            r.attacker_sub_entities@
        } else {
            r.attacker_entities@
        }
    } else {
        r.defender_entities@
    }
}

/// `new` is `old` with its power meters replaced by `v`.
pub open spec fn powers_replaced(old: FightEntity, new: FightEntity, v: Seq<PowerInfo>) -> bool {
    &&& new.uid == old.uid
    &&& new.model_id == old.model_id
    &&& new.user_id == old.user_id
    &&& new.team_type == old.team_type
    &&& new.power_infos@ == v
}

/// `new` is `old` with entity `i`'s power meters replaced by `v`.
pub open spec fn list_powers_replaced(
    old: Seq<FightEntity>,
    new: Seq<FightEntity>,
    i: int,
    v: Seq<PowerInfo>,
) -> bool {
    &&& new.len() == old.len()
    &&& 0 <= i < old.len()
    &&& forall|j: int| 0 <= j < old.len() && j != i ==> #[trigger] new[j] == old[j]
    &&& powers_replaced(old[i], new[i], v)
}

/// `new` is the fight `old` with the power meters of the entity at `loc`
/// replaced by `v`, and everything else as it was.
pub open spec fn roster_powers_replaced(
    old: &FightRoster,
    new: &FightRoster,
    loc: EntityLocation,
    v: Seq<PowerInfo>,
) -> bool {
    &&& (loc.is_attacker && !loc.is_sub_entity) || new.attacker_entities == old.attacker_entities
    &&& (loc.is_attacker && loc.is_sub_entity) || new.attacker_sub_entities
        == old.attacker_sub_entities
    &&& !loc.is_attacker || new.defender_entities == old.defender_entities
    &&& list_powers_replaced(location_list(old, loc), location_list(new, loc), loc.index as int, v)
}

/// Applies an absolute power meter change to entity `index` of a list.
fn change_powers_in(list: &mut Vec<FightEntity>, index: usize, incoming: &PowerInfo) -> (r: Result<
    (),
    DestinyResolveError,
>)
    requires
        index < old(list)@.len(),
    ensures
        match power_change(old(list)@[index as int].power_infos@, *incoming) {
            None => (r matches Err(DestinyResolveError::InvalidConfig(m)) && m@
                == power_change_message(*incoming)) && *final(list) == *old(list),
            Some(v) => r is Ok && list_powers_replaced(old(list)@, final(list)@, index as int, v),
        },
{
    let mut powers: Vec<PowerInfo> = Vec::new();
    let mut k: usize = 0;
    while k < list[index].power_infos.len()
        invariant
            index < list@.len(),
            *list == *old(list),
            k <= list@[index as int].power_infos@.len(),
            powers@ == list@[index as int].power_infos@.take(k as int),
        decreases list@[index as int].power_infos@.len() - k,
    {
        powers.push(list[index].power_infos[k]);
        assert(powers@ =~= list@[index as int].power_infos@.take(k as int + 1));
        k = k + 1;
    }
    assert(powers@ =~= list@[index as int].power_infos@);
    match apply_power_info_change(&mut powers, incoming) {
        Err(e) => return Err(e),
        Ok(()) => {},
    }
    let e = FightEntity {
        uid: list[index].uid,
        model_id: list[index].model_id,
        user_id: list[index].user_id,
        team_type: list[index].team_type,
        power_infos: powers,
    };
    list.set(index, e);
    Ok(())
}

/// Applies an absolute power meter change to entity `target_id` of a fight,
/// located through the manager's index; every other entity, and the entity's
/// other fields, stay as they were.
pub fn apply_power_info_change_to(
    fight: &mut FightRoster,
    mgr: &FightEntityDataMgr,
    target_id: i64,
    incoming: &PowerInfo,
) -> (r: Result<(), DestinyResolveError>)
    ensures
        match roster_index(mgr.spec_roster()).get(target_id) {
            None => (r matches Err(DestinyResolveError::InvalidConfig(m)) && m@ == "Entity "@
                + int_text(target_id as int) + " not found"@) && *final(fight) == *old(fight),
            Some(loc) => match entity_at(old(fight), loc) {
                None => (r matches Err(DestinyResolveError::InvalidConfig(m)) && m@
                    == "Failed to get entity "@ + int_text(target_id as int) + " mutably"@)
                    && *final(fight) == *old(fight),
                Some(e) => match power_change(e.power_infos@, *incoming) {
                    None => (r matches Err(DestinyResolveError::InvalidConfig(m)) && m@
                        == power_change_message(*incoming)) && *final(fight) == *old(fight),
                    Some(v) => r is Ok && roster_powers_replaced(old(fight), final(fight), loc, v),
                },
            },
        },
{
    let loc = match mgr.get_location(target_id) {
        Some(loc) => loc,
        None => {
            let mut m = String::from_str("Entity ");
            push_int(&mut m, target_id);
            push_str(&mut m, " not found");
            return Err(DestinyResolveError::InvalidConfig(m));
        },
    };
    let len = if loc.is_attacker {
        if loc.is_sub_entity {
            fight.attacker_sub_entities.len()
        } else {
            fight.attacker_entities.len()
        }
    } else {
        fight.defender_entities.len()
    };
    if loc.index >= len {
        let mut m = String::from_str("Failed to get entity ");
        push_int(&mut m, target_id);
        push_str(&mut m, " mutably");
        return Err(DestinyResolveError::InvalidConfig(m));
    }
    if loc.is_attacker {
        if loc.is_sub_entity {
            change_powers_in(&mut fight.attacker_sub_entities, loc.index, incoming)
        } else {
            change_powers_in(&mut fight.attacker_entities, loc.index, incoming)
        }
    } else {
        change_powers_in(&mut fight.defender_entities, loc.index, incoming)
    }
}

/// The first entity with model id `model_id`.
pub open spec fn first_with_model(all: Seq<FightEntity>, model_id: i32) -> Option<FightEntity>
    decreases all.len(),
{
    if all.len() == 0 {
        None
    } else {
        match first_with_model(all.drop_last(), model_id) {
            Some(e) => Some(e),
            None => if all.last().model_id == Some(model_id) {
                Some(all.last())
            } else {
                None
            },
        }
    }
}

proof fn lemma_first_with_model_none(all: Seq<FightEntity>, model_id: i32)
    requires
        forall|k: int| 0 <= k < all.len() ==> (#[trigger] all[k]).model_id != Some(model_id),
    ensures
        first_with_model(all, model_id) is None,
    decreases all.len(),
{
    if all.len() > 0 {
        assert forall|k: int| 0 <= k < all.drop_last().len() implies (
        #[trigger] all.drop_last()[k]).model_id != Some(model_id) by {
            assert(all.drop_last()[k] == all[k]);
        }
        lemma_first_with_model_none(all.drop_last(), model_id);
        assert(all[all.len() - 1].model_id != Some(model_id));
    }
}

proof fn lemma_first_with_model_at(all: Seq<FightEntity>, model_id: i32, i: int)
    requires
        0 <= i < all.len(),
        all[i].model_id == Some(model_id),
        forall|k: int| 0 <= k < i ==> (#[trigger] all[k]).model_id != Some(model_id),
    ensures
        first_with_model(all, model_id) == Some(all[i]),
    decreases all.len(),
{
    if i == all.len() - 1 {
        assert forall|k: int| 0 <= k < all.drop_last().len() implies (
        #[trigger] all.drop_last()[k]).model_id != Some(model_id) by {
            assert(all.drop_last()[k] == all[k]);
        }
        lemma_first_with_model_none(all.drop_last(), model_id);
    } else {
        assert(all.drop_last()[i] == all[i]);
        assert forall|k: int| 0 <= k < i implies (#[trigger] all.drop_last()[k]).model_id != Some(
            model_id,
        ) by {
            assert(all.drop_last()[k] == all[k]);
        }
        lemma_first_with_model_at(all.drop_last(), model_id, i);
    }
}

/// The entities of team `team_type`, in order.
pub open spec fn team_filter(all: Seq<FightEntity>, team_type: i32) -> Seq<FightEntity>
    decreases all.len(),
{
    if all.len() == 0 {
        Seq::empty()
    } else {
        let prev = team_filter(all.drop_last(), team_type);
        if all.last().team_type == Some(team_type) {
            prev.push(all.last())
        } else {
            prev
        }
    }
}

proof fn lemma_team_filter_concat(a: Seq<FightEntity>, b: Seq<FightEntity>, team_type: i32)
    ensures
        team_filter(a + b, team_type) == team_filter(a, team_type) + team_filter(b, team_type),
    decreases b.len(),
{
    if b.len() == 0 {
        assert(a + b =~= a);
        assert(team_filter(a, team_type) + team_filter(b, team_type) =~= team_filter(a, team_type));
    } else {
        assert((a + b).drop_last() =~= a + b.drop_last());
        lemma_team_filter_concat(a, b.drop_last(), team_type);
        assert((a + b).last() == b.last());
        if b.last().team_type == Some(team_type) {
            assert(team_filter(a, team_type) + team_filter(b, team_type) =~= (team_filter(
                a,
                team_type,
            ) + team_filter(b.drop_last(), team_type)).push(b.last()));
        }
    }
}

/// The entities a list of references names.
pub open spec fn derefs(v: Seq<&FightEntity>) -> Seq<FightEntity> {
    Seq::new(v.len(), |i: int| *v[i])
}

fn collect_team<'a>(list: &'a Vec<FightEntity>, team_type: i32, out: &mut Vec<&'a FightEntity>)
    ensures
        derefs(final(out)@) == derefs(old(out)@) + team_filter(list@, team_type),
{
    let ghost start = derefs(out@);
    let mut i: usize = 0;
    while i < list.len()
        invariant
            i <= list@.len(),
            derefs(out@) == start + team_filter(list@.take(i as int), team_type),
        decreases list@.len() - i,
    {
        assert(list@.take(i as int + 1).drop_last() =~= list@.take(i as int));
        assert(list@.take(i as int + 1).last() == list@[i as int]);
        let ghost before = out@;
        if list[i].team_type == Some(team_type) {
            out.push(&list[i]);
            assert(derefs(out@) =~= derefs(before).push(list@[i as int]));
        }
        assert(derefs(out@) =~= start + team_filter(list@.take(i as int + 1), team_type));
        i = i + 1;
    }
    assert(list@.take(list@.len() as int) =~= list@);
}

/// The entity a location names, for changing it.
pub fn get_entity_mut_by_location(roster: &mut FightRoster, location: EntityLocation) -> (r: Option<
    &mut FightEntity,
>)
    ensures
        (r is Some) == (entity_at(old(roster), location) is Some),
        r matches Some(e) ==> *e == *entity_at(old(roster), location)->0 && (entity_at(
            final(roster),
            location,
        ) matches Some(f) && *f == *final(e)),
        r is None ==> *final(roster) == *old(roster),
{
    let list = if location.is_attacker {
        if location.is_sub_entity {
            &mut roster.attacker_sub_entities
        } else {
            &mut roster.attacker_entities
        }
    } else {
        &mut roster.defender_entities
    };
    if location.index < list.len() {
        Some(&mut list[location.index])
    } else {
        None
    }
}

/// Every location in `m` names an entity of `r` with the UID it is filed
/// under.
pub open spec fn index_sound(r: &FightRoster, m: Map<i64, EntityLocation>) -> bool {
    forall|u: i64|
        #[trigger] m.contains_key(u) ==> (entity_at(r, m[u]) matches Some(e) && e.uid == Some(u))
}

proof fn lemma_index_list(
    r: &FightRoster,
    m: Map<i64, EntityLocation>,
    list: Seq<FightEntity>,
    n: int,
    is_attacker: bool,
    is_sub_entity: bool,
)
    requires
        0 <= n <= list.len(),
        list.len() <= usize::MAX,
        index_sound(r, m),
        list == (if is_attacker {
            if is_sub_entity {
                r.attacker_sub_entities@
            } else {
                r.attacker_entities@
            }
        } else {
            r.defender_entities@
        }),
    ensures
        index_sound(r, index_list(m, uids(list), n, is_attacker, is_sub_entity)),
        forall|u: i64|
            m.contains_key(u) ==> #[trigger] index_list(m, uids(list), n, is_attacker, is_sub_entity).contains_key(u),
        forall|k: int|
            0 <= k < n && (#[trigger] list[k]).uid is Some ==> index_list(
                m,
                uids(list),
                n,
                is_attacker,
                is_sub_entity,
            ).contains_key(list[k].uid->0),
    decreases n,
{
    if n > 0 {
        lemma_index_list(r, m, list, n - 1, is_attacker, is_sub_entity);
        let prev = index_list(m, uids(list), n - 1, is_attacker, is_sub_entity);
        let loc = EntityLocation { is_attacker, is_sub_entity, index: (n - 1) as usize };
        assert(uids(list)[n - 1] == list[n - 1].uid);
        match list[n - 1].uid {
            Some(uid) => {
                assert(entity_at(r, loc) == Some(&list[n - 1]));
                let cur = prev.insert(uid, loc);
                assert forall|u: i64| #[trigger] cur.contains_key(u) implies (entity_at(r, cur[u]) matches Some(
                    e,
                ) && e.uid == Some(u)) by {
                    if u != uid {
                        assert(prev.contains_key(u));
                    }
                }
            },
            None => {},
        }
    }
}

/// Every entity with a UID can be found by it, and the index only ever
/// names an entity with the UID asked for.
pub proof fn every_entity_is_addressable_by_uid(r: &FightRoster)
    ensures
        index_sound(r, roster_index(r)),
        forall|k: int|
            0 <= k < r.attacker_entities@.len() && (#[trigger] r.attacker_entities@[k]).uid is Some
                ==> roster_index(r).contains_key(r.attacker_entities@[k].uid->0),
        forall|k: int|
            0 <= k < r.attacker_sub_entities@.len() && (#[trigger] r.attacker_sub_entities@[k]).uid is Some
                ==> roster_index(r).contains_key(r.attacker_sub_entities@[k].uid->0),
        forall|k: int|
            0 <= k < r.defender_entities@.len() && (#[trigger] r.defender_entities@[k]).uid is Some
                ==> roster_index(r).contains_key(r.defender_entities@[k].uid->0),
{
    let a = r.attacker_entities@;
    let s = r.attacker_sub_entities@;
    let d = r.defender_entities@;
    let m0 = Map::<i64, EntityLocation>::empty();
    assert(r.attacker_entities.len() == a.len());
    assert(r.attacker_sub_entities.len() == s.len());
    assert(r.defender_entities.len() == d.len());
    lemma_index_list(r, m0, a, a.len() as int, true, false);
    let m1 = index_list(m0, uids(a), a.len() as int, true, false);
    lemma_index_list(r, m1, s, s.len() as int, true, true);
    let m2 = index_list(m1, uids(s), s.len() as int, true, true);
    lemma_index_list(r, m2, d, d.len() as int, false, false);
    assert(uids(a).len() == a.len());
    assert(uids(s).len() == s.len());
    assert(uids(d).len() == d.len());
}

} // verus!
