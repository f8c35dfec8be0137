//! The Destiny configuration tables and the index built over them.
use crate::battle_tables::{
    Battle, CharacterLevel, Episode, HeroTrial, Monster, MonsterSkillTemplate, MonsterTemplate,
};
use crate::table::{
    copy_unique, find_row, first_repeat, has_row, lemma_first_repeat_unique, lookup, rows_view,
    unique_keys, TableRow,
};
use crate::text::{
    debug_quoted, int_text, joined_ids, message_with_quoted, parse_i32, parse_i32_spec, pieces_view,
    push_int, push_joined_ids, push_str, split, split_chars, str_chars,
};
use vstd::prelude::*;

verus! {

/// A `character_destiny` row: a hero's slot group and its facets.
pub struct CharacterDestiny {
    pub hero_id: i32,
    pub slots_id: i32,
    pub facets_id: String,
}

/// The contents of a [`CharacterDestiny`].
pub struct CharacterDestinyView {
    pub hero_id: i32,
    pub slots_id: i32,
    pub facets_id: Seq<char>,
}

impl View for CharacterDestiny {
    type V = CharacterDestinyView;

    open spec fn view(&self) -> CharacterDestinyView {
        CharacterDestinyView {
            hero_id: self.hero_id,
            slots_id: self.slots_id,
            facets_id: self.facets_id@,
        }
    }
}

impl TableRow for CharacterDestiny {
    open spec fn key_of(v: CharacterDestinyView) -> Seq<i32> {
        seq![v.hero_id]
    }

    fn has_key(&self, key: &[i32]) -> (b: bool) {
        let b = key.len() == 1 && self.hero_id == key[0];
        proof {
            if key@.len() == 1 {
                assert(b ==> seq![self.hero_id] =~= key@);
            }
        }
        b
    }

    fn key(&self) -> (k: Vec<i32>) {
        let mut k: Vec<i32> = Vec::new();
        k.push(self.hero_id);
        assert(k@ =~= Self::key_of(self@));
        k
    }

    fn duplicate(&self) -> (r: Self) {
        CharacterDestiny {
            hero_id: self.hero_id,
            slots_id: self.slots_id,
            facets_id: self.facets_id.clone(),
        }
    }
}

/// A `character_destiny_slots` row: one node of one stage of a slot group.
pub struct CharacterDestinySlots {
    pub slots_id: i32,
    pub stage: i32,
    pub node: i32,
    pub consume: String,
    pub effect: String,
}

/// The contents of a [`CharacterDestinySlots`].
pub struct CharacterDestinySlotsView {
    pub slots_id: i32,
    pub stage: i32,
    pub node: i32,
    pub consume: Seq<char>,
    pub effect: Seq<char>,
}

impl View for CharacterDestinySlots {
    type V = CharacterDestinySlotsView;

    open spec fn view(&self) -> CharacterDestinySlotsView {
        CharacterDestinySlotsView {
            slots_id: self.slots_id,
            stage: self.stage,
            node: self.node,
            consume: self.consume@,
            effect: self.effect@,
        }
    }
}

impl TableRow for CharacterDestinySlots {
    open spec fn key_of(v: CharacterDestinySlotsView) -> Seq<i32> {
        seq![v.slots_id, v.stage, v.node]
    }

    fn has_key(&self, key: &[i32]) -> (b: bool) {
        let b = key.len() == 3 && self.slots_id == key[0] && self.stage == key[1] && self.node == key[2];
        proof {
            if key@.len() == 3 {
                assert(b ==> seq![self.slots_id, self.stage, self.node] =~= key@);
            }
        }
        b
    }

    fn key(&self) -> (k: Vec<i32>) {
        let mut k: Vec<i32> = Vec::new();
        k.push(self.slots_id);
        k.push(self.stage);
        k.push(self.node);
        assert(k@ =~= Self::key_of(self@));
        k
    }

    fn duplicate(&self) -> (r: Self) {
        CharacterDestinySlots {
            slots_id: self.slots_id,
            stage: self.stage,
            node: self.node,
            consume: self.consume.clone(),
            effect: self.effect.clone(),
        }
    }
}

/// A `character_destiny_facets` row: a facet at one rank.
pub struct CharacterDestinyFacets {
    pub facets_id: i32,
    pub level: i32,
    pub exchange_skills: String,
    pub power_add: String,
    pub ex_level_exchange: bool,
    pub desc: String,
}

/// The contents of a [`CharacterDestinyFacets`].
pub struct CharacterDestinyFacetsView {
    pub facets_id: i32,
    pub level: i32,
    pub exchange_skills: Seq<char>,
    pub power_add: Seq<char>,
    pub ex_level_exchange: bool,
    pub desc: Seq<char>,
}

impl View for CharacterDestinyFacets {
    type V = CharacterDestinyFacetsView;

    open spec fn view(&self) -> CharacterDestinyFacetsView {
        CharacterDestinyFacetsView {
            facets_id: self.facets_id,
            level: self.level,
            exchange_skills: self.exchange_skills@,
            power_add: self.power_add@,
            ex_level_exchange: self.ex_level_exchange,
            desc: self.desc@,
        }
    }
}

impl TableRow for CharacterDestinyFacets {
    open spec fn key_of(v: CharacterDestinyFacetsView) -> Seq<i32> {
        seq![v.facets_id, v.level]
    }

    fn has_key(&self, key: &[i32]) -> (b: bool) {
        let b = key.len() == 2 && self.facets_id == key[0] && self.level == key[1];
        proof {
            if key@.len() == 2 {
                assert(b ==> seq![self.facets_id, self.level] =~= key@);
            }
        }
        b
    }

    fn key(&self) -> (k: Vec<i32>) {
        let mut k: Vec<i32> = Vec::new();
        k.push(self.facets_id);
        k.push(self.level);
        assert(k@ =~= Self::key_of(self@));
        k
    }

    fn duplicate(&self) -> (r: Self) {
        CharacterDestinyFacets {
            facets_id: self.facets_id,
            level: self.level,
            exchange_skills: self.exchange_skills.clone(),
            power_add: self.power_add.clone(),
            ex_level_exchange: self.ex_level_exchange,
            desc: self.desc.clone(),
        }
    }
}

/// A `character_destiny_facets_consume` row: what unlocking a facet costs.
pub struct CharacterDestinyFacetsConsume {
    pub facets_id: i32,
    pub consume: String,
    pub tend: i32,
}

/// The contents of a [`CharacterDestinyFacetsConsume`].
pub struct CharacterDestinyFacetsConsumeView {
    pub facets_id: i32,
    pub consume: Seq<char>,
    pub tend: i32,
}

impl View for CharacterDestinyFacetsConsume {
    type V = CharacterDestinyFacetsConsumeView;

    open spec fn view(&self) -> CharacterDestinyFacetsConsumeView {
        CharacterDestinyFacetsConsumeView {
            facets_id: self.facets_id,
            consume: self.consume@,
            tend: self.tend,
        }
    }
}

impl TableRow for CharacterDestinyFacetsConsume {
    open spec fn key_of(v: CharacterDestinyFacetsConsumeView) -> Seq<i32> {
        seq![v.facets_id]
    }

    fn has_key(&self, key: &[i32]) -> (b: bool) {
        let b = key.len() == 1 && self.facets_id == key[0];
        proof {
            if key@.len() == 1 {
                assert(b ==> seq![self.facets_id] =~= key@);
            }
        }
        b
    }

    fn key(&self) -> (k: Vec<i32>) {
        let mut k: Vec<i32> = Vec::new();
        k.push(self.facets_id);
        assert(k@ =~= Self::key_of(self@));
        k
    }

    fn duplicate(&self) -> (r: Self) {
        CharacterDestinyFacetsConsume {
            facets_id: self.facets_id,
            consume: self.consume.clone(),
            tend: self.tend,
        }
    }
}

/// A `destiny_facets_ex_level` row: a reshaping facet's kit at one ex skill level (`hero_id` holds the facet id).
pub struct DestinyFacetsExLevel {
    pub hero_id: i32,
    pub skill_level: i32,
    pub skill_group1: String,
    pub skill_group2: String,
    pub skill_ex: i32,
    pub exchange_skill: String,
    pub desc: String,
}

/// The contents of a [`DestinyFacetsExLevel`].
pub struct DestinyFacetsExLevelView {
    pub hero_id: i32,
    pub skill_level: i32,
    pub skill_group1: Seq<char>,
    pub skill_group2: Seq<char>,
    pub skill_ex: i32,
    pub exchange_skill: Seq<char>,
    pub desc: Seq<char>,
}

impl View for DestinyFacetsExLevel {
    type V = DestinyFacetsExLevelView;

    open spec fn view(&self) -> DestinyFacetsExLevelView {
        DestinyFacetsExLevelView {
            hero_id: self.hero_id,
            skill_level: self.skill_level,
            skill_group1: self.skill_group1@,
            skill_group2: self.skill_group2@,
            skill_ex: self.skill_ex,
            exchange_skill: self.exchange_skill@,
            desc: self.desc@,
        }
    }
}

impl TableRow for DestinyFacetsExLevel {
    open spec fn key_of(v: DestinyFacetsExLevelView) -> Seq<i32> {
        seq![v.hero_id, v.skill_level]
    }

    fn has_key(&self, key: &[i32]) -> (b: bool) {
        let b = key.len() == 2 && self.hero_id == key[0] && self.skill_level == key[1];
        proof {
            if key@.len() == 2 {
                assert(b ==> seq![self.hero_id, self.skill_level] =~= key@);
            }
        }
        b
    }

    fn key(&self) -> (k: Vec<i32>) {
        let mut k: Vec<i32> = Vec::new();
        k.push(self.hero_id);
        k.push(self.skill_level);
        assert(k@ =~= Self::key_of(self@));
        k
    }

    fn duplicate(&self) -> (r: Self) {
        DestinyFacetsExLevel {
            hero_id: self.hero_id,
            skill_level: self.skill_level,
            skill_group1: self.skill_group1.clone(),
            skill_group2: self.skill_group2.clone(),
            skill_ex: self.skill_ex,
            exchange_skill: self.exchange_skill.clone(),
            desc: self.desc.clone(),
        }
    }
}

/// A `skill_ex_level_destiny_facets` row.
pub struct SkillExLevelDestinyFacets {
    pub facets_id: i32,
    pub skill_level: i32,
    pub skill_ex: i32,
    pub desc: String,
}

/// The contents of a [`SkillExLevelDestinyFacets`].
pub struct SkillExLevelDestinyFacetsView {
    pub facets_id: i32,
    pub skill_level: i32,
    pub skill_ex: i32,
    pub desc: Seq<char>,
}

impl View for SkillExLevelDestinyFacets {
    type V = SkillExLevelDestinyFacetsView;

    open spec fn view(&self) -> SkillExLevelDestinyFacetsView {
        SkillExLevelDestinyFacetsView {
            facets_id: self.facets_id,
            skill_level: self.skill_level,
            skill_ex: self.skill_ex,
            desc: self.desc@,
        }
    }
}

impl TableRow for SkillExLevelDestinyFacets {
    open spec fn key_of(v: SkillExLevelDestinyFacetsView) -> Seq<i32> {
        seq![v.facets_id, v.skill_level]
    }

    fn has_key(&self, key: &[i32]) -> (b: bool) {
        let b = key.len() == 2 && self.facets_id == key[0] && self.skill_level == key[1];
        proof {
            if key@.len() == 2 {
                assert(b ==> seq![self.facets_id, self.skill_level] =~= key@);
            }
        }
        b
    }

    fn key(&self) -> (k: Vec<i32>) {
        let mut k: Vec<i32> = Vec::new();
        k.push(self.facets_id);
        k.push(self.skill_level);
        assert(k@ =~= Self::key_of(self@));
        k
    }

    fn duplicate(&self) -> (r: Self) {
        SkillExLevelDestinyFacets {
            facets_id: self.facets_id,
            skill_level: self.skill_level,
            skill_ex: self.skill_ex,
            desc: self.desc.clone(),
        }
    }
}

/// A `character_attribute` row: how an attribute id is shown.
pub struct CharacterAttribute {
    pub id: i32,
    pub attr_type: String,
    pub show_type: i32,
}

/// The contents of a [`CharacterAttribute`].
pub struct CharacterAttributeView {
    pub id: i32,
    pub attr_type: Seq<char>,
    pub show_type: i32,
}

impl View for CharacterAttribute {
    type V = CharacterAttributeView;

    open spec fn view(&self) -> CharacterAttributeView {
        CharacterAttributeView {
            id: self.id,
            attr_type: self.attr_type@,
            show_type: self.show_type,
        }
    }
}

impl TableRow for CharacterAttribute {
    open spec fn key_of(v: CharacterAttributeView) -> Seq<i32> {
        seq![v.id]
    }

    fn has_key(&self, key: &[i32]) -> (b: bool) {
        let b = key.len() == 1 && self.id == key[0];
        proof {
            if key@.len() == 1 {
                assert(b ==> seq![self.id] =~= key@);
            }
        }
        b
    }

    fn key(&self) -> (k: Vec<i32>) {
        let mut k: Vec<i32> = Vec::new();
        k.push(self.id);
        assert(k@ =~= Self::key_of(self@));
        k
    }

    fn duplicate(&self) -> (r: Self) {
        CharacterAttribute {
            id: self.id,
            attr_type: self.attr_type.clone(),
            show_type: self.show_type,
        }
    }
}

/// A hero's Destiny configuration: its slot group and the facets it owns.
pub struct HeroDestinyConfig {
    pub hero_id: i32,
    pub slots_id: i32,
    pub facet_ids: Vec<i32>,
}

/// The contents of a [`HeroDestinyConfig`].
pub struct HeroDestinyConfigView {
    pub hero_id: i32,
    pub slots_id: i32,
    pub facet_ids: Seq<i32>,
}

impl View for HeroDestinyConfig {
    type V = HeroDestinyConfigView;

    open spec fn view(&self) -> HeroDestinyConfigView {
        HeroDestinyConfigView {
            hero_id: self.hero_id,
            slots_id: self.slots_id,
            facet_ids: self.facet_ids@,
        }
    }
}

impl TableRow for HeroDestinyConfig {
    open spec fn key_of(v: HeroDestinyConfigView) -> Seq<i32> {
        seq![v.hero_id]
    }

    fn has_key(&self, key: &[i32]) -> (b: bool) {
        let b = key.len() == 1 && self.hero_id == key[0];
        proof {
            if key@.len() == 1 {
                assert(b ==> seq![self.hero_id] =~= key@);
            }
        }
        b
    }

    fn key(&self) -> (k: Vec<i32>) {
        let mut k: Vec<i32> = Vec::new();
        k.push(self.hero_id);
        assert(k@ =~= Self::key_of(self@));
        k
    }

    fn duplicate(&self) -> (r: Self) {
        HeroDestinyConfig {
            hero_id: self.hero_id,
            slots_id: self.slots_id,
            facet_ids: copy_ids(&self.facet_ids),
        }
    }
}

/// A copy of a list of ids.
pub fn copy_ids(v: &Vec<i32>) -> (r: Vec<i32>)
    ensures
        r@ == v@,
{
    let mut r: Vec<i32> = Vec::new();
    let mut i: usize = 0;
    while i < v.len()
        invariant
            i <= v@.len(),
            r@ == v@.take(i as int),
        decreases v@.len() - i,
    {
        r.push(v[i]);
        i = i + 1;
        assert(r@ =~= v@.take(i as int));
    }
    assert(v@.take(v@.len() as int) =~= v@);
    r
}

/// A `character` row: a hero's base kit and skins.
pub struct Character {
    pub id: i32,
    pub skill: String,
    pub ex_skill: i32,
    pub skin_id: i32,
    pub mvskin_id: i32,
    pub hero_type: i32,
    pub career: i32,
    pub rank: i32,
}

/// The contents of a [`Character`].
pub struct CharacterView {
    pub id: i32,
    pub skill: Seq<char>,
    pub ex_skill: i32,
    pub skin_id: i32,
    pub mvskin_id: i32,
    pub hero_type: i32,
    pub career: i32,
    pub rank: i32,
}

impl View for Character {
    type V = CharacterView;

    open spec fn view(&self) -> CharacterView {
        CharacterView {
            id: self.id,
            skill: self.skill@,
            ex_skill: self.ex_skill,
            skin_id: self.skin_id,
            mvskin_id: self.mvskin_id,
            hero_type: self.hero_type,
            career: self.career,
            rank: self.rank,
        }
    }
}

impl TableRow for Character {
    open spec fn key_of(v: CharacterView) -> Seq<i32> {
        seq![v.id]
    }

    fn has_key(&self, key: &[i32]) -> (b: bool) {
        let b = key.len() == 1 && self.id == key[0];
        proof {
            if key@.len() == 1 {
                assert(b ==> seq![self.id] =~= key@);
            }
        }
        b
    }

    fn key(&self) -> (k: Vec<i32>) {
        let mut k: Vec<i32> = Vec::new();
        k.push(self.id);
        assert(k@ =~= Self::key_of(self@));
        k
    }

    fn duplicate(&self) -> (r: Self) {
        Character {
            id: self.id,
            skill: self.skill.clone(),
            ex_skill: self.ex_skill,
            skin_id: self.skin_id,
            mvskin_id: self.mvskin_id,
            hero_type: self.hero_type,
            career: self.career,
            rank: self.rank,
        }
    }
}

/// A `character_rank_replace` row: the kit a hero switches to at a high rank.
pub struct CharacterRankReplace {
    pub id: i32,
    pub skill: String,
    pub ex_skill: i32,
    pub hero_type: i32,
}

/// The contents of a [`CharacterRankReplace`].
pub struct CharacterRankReplaceView {
    pub id: i32,
    pub skill: Seq<char>,
    pub ex_skill: i32,
    pub hero_type: i32,
}

impl View for CharacterRankReplace {
    type V = CharacterRankReplaceView;

    open spec fn view(&self) -> CharacterRankReplaceView {
        CharacterRankReplaceView {
            id: self.id,
            skill: self.skill@,
            ex_skill: self.ex_skill,
            hero_type: self.hero_type,
        }
    }
}

impl TableRow for CharacterRankReplace {
    open spec fn key_of(v: CharacterRankReplaceView) -> Seq<i32> {
        seq![v.id]
    }

    fn has_key(&self, key: &[i32]) -> (b: bool) {
        let b = key.len() == 1 && self.id == key[0];
        proof {
            if key@.len() == 1 {
                assert(b ==> seq![self.id] =~= key@);
            }
        }
        b
    }

    fn key(&self) -> (k: Vec<i32>) {
        let mut k: Vec<i32> = Vec::new();
        k.push(self.id);
        assert(k@ =~= Self::key_of(self@));
        k
    }

    fn duplicate(&self) -> (r: Self) {
        CharacterRankReplace {
            id: self.id,
            skill: self.skill.clone(),
            ex_skill: self.ex_skill,
            hero_type: self.hero_type,
        }
    }
}

/// A `skill_ex_level` row: what one ex skill level of a hero changes.
pub struct SkillExLevel {
    pub hero_id: i32,
    pub skill_level: i32,
    pub skill_group1: String,
    pub skill_group2: String,
    pub skill_ex: i32,
    pub passive_skill: String,
}

/// The contents of a [`SkillExLevel`].
pub struct SkillExLevelView {
    pub hero_id: i32,
    pub skill_level: i32,
    pub skill_group1: Seq<char>,
    pub skill_group2: Seq<char>,
    pub skill_ex: i32,
    pub passive_skill: Seq<char>,
}

impl View for SkillExLevel {
    type V = SkillExLevelView;

    open spec fn view(&self) -> SkillExLevelView {
        SkillExLevelView {
            hero_id: self.hero_id,
            skill_level: self.skill_level,
            skill_group1: self.skill_group1@,
            skill_group2: self.skill_group2@,
            skill_ex: self.skill_ex,
            passive_skill: self.passive_skill@,
        }
    }
}

impl TableRow for SkillExLevel {
    open spec fn key_of(v: SkillExLevelView) -> Seq<i32> {
        seq![v.hero_id, v.skill_level]
    }

    fn has_key(&self, key: &[i32]) -> (b: bool) {
        let b = key.len() == 2 && self.hero_id == key[0] && self.skill_level == key[1];
        proof {
            if key@.len() == 2 {
                assert(b ==> seq![self.hero_id, self.skill_level] =~= key@);
            }
        }
        b
    }

    fn key(&self) -> (k: Vec<i32>) {
        let mut k: Vec<i32> = Vec::new();
        k.push(self.hero_id);
        k.push(self.skill_level);
        assert(k@ =~= Self::key_of(self@));
        k
    }

    fn duplicate(&self) -> (r: Self) {
        SkillExLevel {
            hero_id: self.hero_id,
            skill_level: self.skill_level,
            skill_group1: self.skill_group1.clone(),
            skill_group2: self.skill_group2.clone(),
            skill_ex: self.skill_ex,
            passive_skill: self.passive_skill.clone(),
        }
    }
}

/// A `skill_passive_level` row: a passive a hero has from a level on.
#[derive(Clone, Copy, Debug, PartialEq, Eq, Structural)]
pub struct SkillPassiveLevel {
    pub hero_id: i32,
    pub skill_level: i32,
    pub skill_passive: i32,
}

/// An `equip_skill` row: the passives an equipment grants.
#[derive(Clone, Copy, Debug, PartialEq, Eq, Structural)]
pub struct EquipSkill {
    pub id: i32,
    pub skill: i32,
    pub skill2: i32,
}

/// The configuration tables that the Destiny and battle rules read.
#[derive(Default)]
pub struct GameDB {
    pub character_destiny: Vec<CharacterDestiny>,
    pub character_destiny_slots: Vec<CharacterDestinySlots>,
    pub character_destiny_facets: Vec<CharacterDestinyFacets>,
    pub character_destiny_facets_consume: Vec<CharacterDestinyFacetsConsume>,
    pub destiny_facets_ex_level: Vec<DestinyFacetsExLevel>,
    pub skill_ex_level_destiny_facets: Vec<SkillExLevelDestinyFacets>,
    pub character_attribute: Vec<CharacterAttribute>,
    pub character: Vec<Character>,
    pub character_rank_replace: Vec<CharacterRankReplace>,
    pub skill_ex_level: Vec<SkillExLevel>,
    pub skill_passive_level: Vec<SkillPassiveLevel>,
    pub equip_skill: Vec<EquipSkill>,
    pub hero_trial: Vec<HeroTrial>,
    pub character_level: Vec<CharacterLevel>,
    pub monster: Vec<Monster>,
    pub monster_template: Vec<MonsterTemplate>,
    pub monster_skill_template: Vec<MonsterSkillTemplate>,
    pub episode: Vec<Episode>,
    pub battle: Vec<Battle>,
}

impl GameDB {
    /// The `character` row of hero `id`.
    pub open spec fn spec_character(&self, id: i32) -> Option<CharacterView> {
        find_row::<Character>(rows_view(self.character@), seq![id])
    }

    /// The `character_rank_replace` row of hero `id`.
    pub open spec fn spec_rank_replace(&self, id: i32) -> Option<CharacterRankReplaceView> {
        find_row::<CharacterRankReplace>(rows_view(self.character_rank_replace@), seq![id])
    }

    /// The `skill_ex_level` row of ex skill level `level` of hero `hero_id`.
    pub open spec fn spec_skill_ex_level(&self, hero_id: i32, level: i32) -> Option<SkillExLevelView> {
        find_row::<SkillExLevel>(rows_view(self.skill_ex_level@), seq![hero_id, level])
    }

    /// The `character` row of hero `id` (the first, should ids repeat).
    pub fn character_row(&self, id: i32) -> (r: Option<&Character>)
        ensures
            match r {
                Some(c) => self.spec_character(id) == Some(c@),
                None => self.spec_character(id) is None,
            },
    {
        let key = [id];
        assert(key@ =~= seq![id]);
        lookup(&self.character, &key)
    }

    /// The `character_rank_replace` row of hero `id`.
    pub fn rank_replace_row(&self, id: i32) -> (r: Option<&CharacterRankReplace>)
        ensures
            match r {
                Some(c) => self.spec_rank_replace(id) == Some(c@),
                None => self.spec_rank_replace(id) is None,
            },
    {
        let key = [id];
        assert(key@ =~= seq![id]);
        lookup(&self.character_rank_replace, &key)
    }

    /// The `skill_ex_level` row of ex skill level `level` of hero `hero_id`.
    pub fn skill_ex_level_row(&self, hero_id: i32, level: i32) -> (r: Option<&SkillExLevel>)
        ensures
            match r {
                Some(x) => self.spec_skill_ex_level(hero_id, level) == Some(x@),
                None => self.spec_skill_ex_level(hero_id, level) is None,
            },
    {
        let key = [hero_id, level];
        assert(key@ =~= seq![hero_id, level]);
        lookup(&self.skill_ex_level, &key)
    }
}

/// The configuration table a key belongs to.
#[derive(Clone, Copy, Debug, PartialEq, Eq)]
pub enum ConfigTable {
    CharacterDestiny,
    CharacterDestinySlots,
    CharacterDestinyFacets,
    CharacterDestinyFacetsConsume,
    DestinyFacetsExLevel,
    SkillExLevelDestinyFacets,
    CharacterAttribute,
}

impl ConfigTable {
    /// The table's name in the configuration data.
    pub open spec fn name_text(self) -> Seq<char> {
        match self {
            ConfigTable::CharacterDestiny => "character_destiny"@,
            ConfigTable::CharacterDestinySlots => "character_destiny_slots"@,
            ConfigTable::CharacterDestinyFacets => "character_destiny_facets"@,
            ConfigTable::CharacterDestinyFacetsConsume => "character_destiny_facets_consume"@,
            ConfigTable::DestinyFacetsExLevel => "destiny_facets_ex_level"@,
            ConfigTable::SkillExLevelDestinyFacets => "skill_ex_level_destiny_facets"@,
            ConfigTable::CharacterAttribute => "character_attribute"@,
        }
    }

    /// The table's name in the configuration data.
    pub fn name(self) -> (s: &'static str)
        ensures
            s@ == self.name_text(),
    {
        match self {
            ConfigTable::CharacterDestiny => "character_destiny",
            ConfigTable::CharacterDestinySlots => "character_destiny_slots",
            ConfigTable::CharacterDestinyFacets => "character_destiny_facets",
            ConfigTable::CharacterDestinyFacetsConsume => "character_destiny_facets_consume",
            ConfigTable::DestinyFacetsExLevel => "destiny_facets_ex_level",
            ConfigTable::SkillExLevelDestinyFacets => "skill_ex_level_destiny_facets",
            ConfigTable::CharacterAttribute => "character_attribute",
        }
    }
}

/// Why the configuration index could not be built.
#[derive(Debug)]
pub enum ConfigIndexError {
    /// A hero's `facets_id` is not a `#`-separated list of integers.
    InvalidFacetIds { hero_id: i32, facets_id: String },
    /// Two rows of one table share a key.
    DuplicateKey { table: ConfigTable, key: Vec<i32> },
}

/// A table key as `Debug` writes it: a single id bare, a composite key as
/// a tuple.
pub open spec fn key_text(k: Seq<i32>) -> Seq<char> {
    if k.len() == 1 {
        int_text(k[0] as int)
    } else {
        "("@ + joined_ids(k) + ")"@
    }
}

/// The message of what the index refuses.
pub open spec fn fault_text(f: IndexFault) -> Seq<char> {
    match f {
        IndexFault::InvalidFacetIds { hero_id, facets_id } => "invalid character_destiny facets_id "@
            + debug_quoted(facets_id) + " for hero "@ + int_text(hero_id as int),
        IndexFault::DuplicateKey { table, key } => "duplicate "@ + table.name_text() + " key "@
            + key_text(key),
    }
}

impl ConfigIndexError {
    /// The error's message.
    pub fn message(&self) -> (m: String)
        ensures
            m@ == fault_text(fault_of(*self)),
            match self {
                ConfigIndexError::InvalidFacetIds { hero_id, facets_id } => m@
                    == "invalid character_destiny facets_id "@ + debug_quoted(facets_id@)
                    + " for hero "@ + int_text(*hero_id as int),
                ConfigIndexError::DuplicateKey { table, key } => m@ == "duplicate "@
                    + table.name_text() + " key "@ + key_text(key@),
            },
    {
        match self {
            ConfigIndexError::InvalidFacetIds { hero_id, facets_id } => {
                let mut m = message_with_quoted("invalid character_destiny facets_id ", facets_id.as_str());
                push_str(&mut m, " for hero ");
                push_int(&mut m, *hero_id as i64);
                m
            },
            ConfigIndexError::DuplicateKey { table, key } => {
                let mut m = String::from_str("duplicate ");
                push_str(&mut m, table.name());
                push_str(&mut m, " key ");
                if key.len() == 1 {
                    push_int(&mut m, key[0] as i64);
                } else {
                    push_str(&mut m, "(");
                    push_joined_ids(&mut m, key.as_slice());
                    push_str(&mut m, ")");
                }
                m
            },
        }
    }
}

/// The ids in a list of decimal pieces, if each one is an `i32`.
pub open spec fn parse_id_list(pieces: Seq<Seq<char>>) -> Option<Seq<i32>>
    decreases pieces.len(),
{
    if pieces.len() == 0 {
        Some(Seq::<i32>::empty())
    } else {
        match (parse_id_list(pieces.drop_last()), parse_i32_spec(pieces.last())) {
            (Some(ids), Some(id)) => Some(ids.push(id)),
            _ => None,
        }
    }
}

/// The facet ids that a `character_destiny.facets_id` value lists.
pub open spec fn facet_ids_of(facets_id: Seq<char>) -> Option<Seq<i32>> {
    parse_id_list(split(facets_id, '#'))
}

/// The hero configuration that a `character_destiny` row yields.
pub open spec fn hero_config_of(row: CharacterDestinyView) -> Option<HeroDestinyConfigView> {
    match facet_ids_of(row.facets_id) {
        Some(ids) => Some(
            HeroDestinyConfigView { hero_id: row.hero_id, slots_id: row.slots_id, facet_ids: ids },
        ),
        None => None,
    }
}

/// Every `character_destiny` row lists its facets correctly.
pub open spec fn all_facets_parse(rows: Seq<CharacterDestinyView>) -> bool {
    forall|i: int| 0 <= i < rows.len() ==> (#[trigger] facet_ids_of(rows[i].facets_id)) is Some
}

/// What the configuration index refuses: a hero whose facet list does not
/// parse, or the first repeated key of a table.
pub enum IndexFault {
    InvalidFacetIds { hero_id: i32, facets_id: Seq<char> },
    DuplicateKey { table: ConfigTable, key: Seq<i32> },
}

/// The first `character_destiny` row that is refused: its facet list does
/// not parse, or its hero id repeats an earlier row's.
pub open spec fn hero_fault(rows: Seq<CharacterDestinyView>) -> Option<IndexFault>
    decreases rows.len(),
{
    if rows.len() == 0 {
        None
    } else {
        match hero_fault(rows.drop_last()) {
            Some(f) => Some(f),
            None => {
                let r = rows.last();
                if facet_ids_of(r.facets_id) is None {
                    Some(IndexFault::InvalidFacetIds { hero_id: r.hero_id, facets_id: r.facets_id })
                } else if has_row::<CharacterDestiny>(rows.drop_last(), CharacterDestiny::key_of(r)) {
                    Some(
                        IndexFault::DuplicateKey {
                            table: ConfigTable::CharacterDestiny,
                            key: CharacterDestiny::key_of(r),
                        },
                    )
                } else {
                    None
                }
            },
        }
    }
}

/// The first repeated key of a table, as a fault.
pub open spec fn repeat_fault<T: TableRow>(table: ConfigTable, rows: Seq<T::V>) -> Option<IndexFault> {
    match first_repeat::<T>(rows) {
        Some(k) => Some(IndexFault::DuplicateKey { table, key: k }),
        None => None,
    }
}

/// What the index refuses in `db`, checking the tables in order: the heroes,
/// then the slots, facets, facet costs, reshaped kits, facet skills and
/// attributes.
pub open spec fn index_fault(db: &GameDB) -> Option<IndexFault> {
    match hero_fault(rows_view(db.character_destiny@)) {
        Some(f) => Some(f),
        None => match repeat_fault::<CharacterDestinySlots>(
            ConfigTable::CharacterDestinySlots,
            rows_view(db.character_destiny_slots@),
        ) {
            Some(f) => Some(f),
            None => match repeat_fault::<CharacterDestinyFacets>(
                ConfigTable::CharacterDestinyFacets,
                rows_view(db.character_destiny_facets@),
            ) {
                Some(f) => Some(f),
                None => match repeat_fault::<CharacterDestinyFacetsConsume>(
                    ConfigTable::CharacterDestinyFacetsConsume,
                    rows_view(db.character_destiny_facets_consume@),
                ) {
                    Some(f) => Some(f),
                    None => match repeat_fault::<DestinyFacetsExLevel>(
                        ConfigTable::DestinyFacetsExLevel,
                        rows_view(db.destiny_facets_ex_level@),
                    ) {
                        Some(f) => Some(f),
                        None => match repeat_fault::<SkillExLevelDestinyFacets>(
                            ConfigTable::SkillExLevelDestinyFacets,
                            rows_view(db.skill_ex_level_destiny_facets@),
                        ) {
                            Some(f) => Some(f),
                            None => repeat_fault::<CharacterAttribute>(
                                ConfigTable::CharacterAttribute,
                                rows_view(db.character_attribute@),
                            ),
                        },
                    },
                },
            },
        },
    }
}

/// The fault an index error reports.
pub open spec fn fault_of(e: ConfigIndexError) -> IndexFault {
    match e {
        ConfigIndexError::InvalidFacetIds { hero_id, facets_id } => IndexFault::InvalidFacetIds {
            hero_id,
            facets_id: facets_id@,
        },
        ConfigIndexError::DuplicateKey { table, key } => IndexFault::DuplicateKey { table, key: key@ },
    }
}

proof fn lemma_hero_fault_none(rows: Seq<CharacterDestinyView>)
    ensures
        hero_fault(rows) is None <==> (all_facets_parse(rows) && unique_keys::<CharacterDestiny>(
            rows,
        )),
    decreases rows.len(),
{
    lemma_first_repeat_unique::<CharacterDestiny>(rows);
    if rows.len() > 0 {
        let pre = rows.drop_last();
        lemma_hero_fault_none(pre);
        lemma_first_repeat_unique::<CharacterDestiny>(pre);
        if all_facets_parse(rows) {
            assert(all_facets_parse(pre)) by {
                assert forall|i: int| 0 <= i < pre.len() implies (#[trigger] facet_ids_of(
                    pre[i].facets_id,
                )) is Some by {
                    assert(pre[i] == rows[i]);
                }
            }
        }
        if all_facets_parse(pre) && facet_ids_of(rows.last().facets_id) is Some {
            assert(all_facets_parse(rows)) by {
                assert forall|i: int| 0 <= i < rows.len() implies (#[trigger] facet_ids_of(
                    rows[i].facets_id,
                )) is Some by {
                    if i < pre.len() {
                        assert(pre[i] == rows[i]);
                    }
                }
            }
        }
        if !all_facets_parse(pre) {
            let i = choose|i: int| 0 <= i < pre.len() && !(#[trigger] facet_ids_of(pre[i].facets_id) is Some);
            assert(pre[i] == rows[i]);
        }
        assert(rows.last() == rows[rows.len() - 1]);
    }
}

proof fn lemma_hero_fault_prefix(rows: Seq<CharacterDestinyView>, n: int)
    requires
        0 <= n <= rows.len(),
        hero_fault(rows.take(n)) is Some,
    ensures
        hero_fault(rows) == hero_fault(rows.take(n)),
    decreases rows.len() - n,
{
    if n < rows.len() {
        assert(rows.take(n + 1).drop_last() =~= rows.take(n));
        lemma_hero_fault_prefix(rows, n + 1);
    } else {
        assert(rows.take(n) =~= rows);
    }
}

/// Every table of `db` is free of repeated keys and every hero's facet list parses:
/// exactly the databases the index accepts.
pub open spec fn game_db_indexable(db: &GameDB) -> bool {
    &&& all_facets_parse(rows_view(db.character_destiny@))
    &&& unique_keys::<CharacterDestiny>(rows_view(db.character_destiny@))
    &&& unique_keys::<CharacterDestinySlots>(rows_view(db.character_destiny_slots@))
    &&& unique_keys::<CharacterDestinyFacets>(rows_view(db.character_destiny_facets@))
    &&& unique_keys::<CharacterDestinyFacetsConsume>(
        rows_view(db.character_destiny_facets_consume@),
    )
    &&& unique_keys::<DestinyFacetsExLevel>(rows_view(db.destiny_facets_ex_level@))
    &&& unique_keys::<SkillExLevelDestinyFacets>(rows_view(db.skill_ex_level_destiny_facets@))
    &&& unique_keys::<CharacterAttribute>(rows_view(db.character_attribute@))
}

/// The Destiny configuration keyed for lookup. Every table holds each key at
/// most once.
pub struct DestinyConfigIndex {
    heroes: Vec<HeroDestinyConfig>,
    slots: Vec<CharacterDestinySlots>,
    facets: Vec<CharacterDestinyFacets>,
    consumes: Vec<CharacterDestinyFacetsConsume>,
    reshape: Vec<DestinyFacetsExLevel>,
    facet_skills: Vec<SkillExLevelDestinyFacets>,
    attributes: Vec<CharacterAttribute>,
}

impl DestinyConfigIndex {
    #[verifier::type_invariant]
    spec fn keys_unique(&self) -> bool {
        &&& unique_keys::<HeroDestinyConfig>(rows_view(self.heroes@))
        &&& unique_keys::<CharacterDestinySlots>(rows_view(self.slots@))
        &&& unique_keys::<CharacterDestinyFacets>(rows_view(self.facets@))
        &&& unique_keys::<CharacterDestinyFacetsConsume>(rows_view(self.consumes@))
        &&& unique_keys::<DestinyFacetsExLevel>(rows_view(self.reshape@))
        &&& unique_keys::<SkillExLevelDestinyFacets>(rows_view(self.facet_skills@))
        &&& unique_keys::<CharacterAttribute>(rows_view(self.attributes@))
    }

    /// The hero configurations, in table order.
    pub closed spec fn hero_rows(&self) -> Seq<HeroDestinyConfigView> {
        rows_view(self.heroes@)
    }

    pub closed spec fn slot_rows(&self) -> Seq<CharacterDestinySlotsView> {
        rows_view(self.slots@)
    }

    pub closed spec fn facet_rows(&self) -> Seq<CharacterDestinyFacetsView> {
        rows_view(self.facets@)
    }

    pub closed spec fn consume_rows(&self) -> Seq<CharacterDestinyFacetsConsumeView> {
        rows_view(self.consumes@)
    }

    pub closed spec fn reshape_rows(&self) -> Seq<DestinyFacetsExLevelView> {
        rows_view(self.reshape@)
    }

    pub closed spec fn facet_skill_rows(&self) -> Seq<SkillExLevelDestinyFacetsView> {
        rows_view(self.facet_skills@)
    }

    pub closed spec fn attribute_rows(&self) -> Seq<CharacterAttributeView> {
        rows_view(self.attributes@)
    }

    /// The configuration of hero `hero_id`.
    pub closed spec fn spec_hero(&self, hero_id: i32) -> Option<HeroDestinyConfigView> {
        find_row::<HeroDestinyConfig>(self.hero_rows(), seq![hero_id])
    }

    /// Node `node` of stage `stage` of slot group `slots_id`.
    pub closed spec fn spec_slot(&self, slots_id: i32, stage: i32, node: i32) -> Option<
        CharacterDestinySlotsView,
    > {
        find_row::<CharacterDestinySlots>(self.slot_rows(), seq![slots_id, stage, node])
    }

    /// Facet `facets_id` at rank `level`.
    pub closed spec fn spec_facet(&self, facets_id: i32, level: i32) -> Option<
        CharacterDestinyFacetsView,
    > {
        find_row::<CharacterDestinyFacets>(self.facet_rows(), seq![facets_id, level])
    }

    /// What unlocking facet `facets_id` costs.
    pub closed spec fn spec_facet_consume(&self, facets_id: i32) -> Option<
        CharacterDestinyFacetsConsumeView,
    > {
        find_row::<CharacterDestinyFacetsConsume>(self.consume_rows(), seq![facets_id])
    }

    /// The reshaped kit of facet `facets_id` at ex skill level `skill_level`.
    pub closed spec fn spec_reshape(&self, facets_id: i32, skill_level: i32) -> Option<
        DestinyFacetsExLevelView,
    > {
        find_row::<DestinyFacetsExLevel>(self.reshape_rows(), seq![facets_id, skill_level])
    }

    pub closed spec fn spec_skill_destiny_facet(&self, facets_id: i32, skill_level: i32) -> Option<
        SkillExLevelDestinyFacetsView,
    > {
        find_row::<SkillExLevelDestinyFacets>(self.facet_skill_rows(), seq![facets_id, skill_level])
    }

    /// Attribute `id`.
    pub closed spec fn spec_attribute(&self, id: i32) -> Option<CharacterAttributeView> {
        find_row::<CharacterAttribute>(self.attribute_rows(), seq![id])
    }

    /// An index built from `db` answers each lookup with the first row of
    /// `db` that has the key, or nothing when no row has it; a hero's row is
    /// its `character_destiny` row with its facet list read.
    pub proof fn lemma_lookups_read_rows(&self, db: &GameDB)
        requires
            self.built_from(db),
        ensures
            forall|h: i32|
                #[trigger] self.spec_hero(h) == find_row::<HeroDestinyConfig>(
                    Seq::new(
                        db.character_destiny@.len(),
                        |i: int| hero_config_of(db.character_destiny@[i]@)->0,
                    ),
                    seq![h],
                ),
            forall|a: i32, b: i32, c: i32|
                #[trigger] self.spec_slot(a, b, c) == find_row::<CharacterDestinySlots>(
                    rows_view(db.character_destiny_slots@),
                    seq![a, b, c],
                ),
            forall|a: i32, b: i32|
                #[trigger] self.spec_facet(a, b) == find_row::<CharacterDestinyFacets>(
                    rows_view(db.character_destiny_facets@),
                    seq![a, b],
                ),
            forall|a: i32|
                #[trigger] self.spec_facet_consume(a) == find_row::<CharacterDestinyFacetsConsume>(
                    rows_view(db.character_destiny_facets_consume@),
                    seq![a],
                ),
            forall|a: i32, b: i32|
                #[trigger] self.spec_reshape(a, b) == find_row::<DestinyFacetsExLevel>(
                    rows_view(db.destiny_facets_ex_level@),
                    seq![a, b],
                ),
            forall|a: i32, b: i32|
                #[trigger] self.spec_skill_destiny_facet(a, b) == find_row::<
                    SkillExLevelDestinyFacets,
                >(rows_view(db.skill_ex_level_destiny_facets@), seq![a, b]),
            forall|a: i32|
                #[trigger] self.spec_attribute(a) == find_row::<CharacterAttribute>(
                    rows_view(db.character_attribute@),
                    seq![a],
                ),
    {
        assert(self.hero_rows() =~= Seq::new(
            db.character_destiny@.len(),
            |i: int| hero_config_of(db.character_destiny@[i]@)->0,
        ));
    }

    /// Builds the index, refusing a hero whose facet list does not parse and
    /// any table that repeats a key.
    /// The index holds exactly the rows of `db`: each hero's configuration
    /// with its facet list read, and every other table as it is.
    pub open spec fn built_from(&self, db: &GameDB) -> bool {
        &&& self.hero_rows().len() == db.character_destiny@.len()
        &&& forall|i: int|
            0 <= i < self.hero_rows().len() ==> Some(#[trigger] self.hero_rows()[i])
                == hero_config_of(db.character_destiny@[i]@)
        &&& self.slot_rows() == rows_view(db.character_destiny_slots@)
        &&& self.facet_rows() == rows_view(db.character_destiny_facets@)
        &&& self.consume_rows() == rows_view(db.character_destiny_facets_consume@)
        &&& self.reshape_rows() == rows_view(db.destiny_facets_ex_level@)
        &&& self.facet_skill_rows() == rows_view(db.skill_ex_level_destiny_facets@)
        &&& self.attribute_rows() == rows_view(db.character_attribute@)
    }

    pub fn try_from_game_db(db: &GameDB) -> (r: Result<Self, ConfigIndexError>)
        ensures
            r is Ok <==> game_db_indexable(db),
            match r {
                Ok(index) => index.built_from(db),
                Err(e) => index_fault(db) == Some(fault_of(e)),
            },
    {
        proof {
            lemma_hero_fault_none(rows_view(db.character_destiny@));
            lemma_first_repeat_unique::<CharacterDestinySlots>(rows_view(db.character_destiny_slots@));
            lemma_first_repeat_unique::<CharacterDestinyFacets>(rows_view(db.character_destiny_facets@));
            lemma_first_repeat_unique::<CharacterDestinyFacetsConsume>(
                rows_view(db.character_destiny_facets_consume@),
            );
            lemma_first_repeat_unique::<DestinyFacetsExLevel>(rows_view(db.destiny_facets_ex_level@));
            lemma_first_repeat_unique::<SkillExLevelDestinyFacets>(
                rows_view(db.skill_ex_level_destiny_facets@),
            );
            lemma_first_repeat_unique::<CharacterAttribute>(rows_view(db.character_attribute@));
        }
        let heroes = match build_heroes(&db.character_destiny) {
            Ok(h) => h,
            Err(e) => return Err(e),
        };
        let slots = match copy_unique(&db.character_destiny_slots) {
            Ok(v) => v,
            Err(key) => {
                return Err(ConfigIndexError::DuplicateKey { table: ConfigTable::CharacterDestinySlots, key });
            },
        };
        let facets = match copy_unique(&db.character_destiny_facets) {
            Ok(v) => v,
            Err(key) => {
                return Err(ConfigIndexError::DuplicateKey { table: ConfigTable::CharacterDestinyFacets, key });
            },
        };
        let consumes = match copy_unique(&db.character_destiny_facets_consume) {
            Ok(v) => v,
            Err(key) => {
                return Err(ConfigIndexError::DuplicateKey { table: ConfigTable::CharacterDestinyFacetsConsume, key });
            },
        };
        let reshape = match copy_unique(&db.destiny_facets_ex_level) {
            Ok(v) => v,
            Err(key) => {
                return Err(ConfigIndexError::DuplicateKey { table: ConfigTable::DestinyFacetsExLevel, key });
            },
        };
        let facet_skills = match copy_unique(&db.skill_ex_level_destiny_facets) {
            Ok(v) => v,
            Err(key) => {
                return Err(ConfigIndexError::DuplicateKey { table: ConfigTable::SkillExLevelDestinyFacets, key });
            },
        };
        let attributes = match copy_unique(&db.character_attribute) {
            Ok(v) => v,
            Err(key) => {
                return Err(ConfigIndexError::DuplicateKey { table: ConfigTable::CharacterAttribute, key });
            },
        };
        Ok(DestinyConfigIndex { heroes, slots, facets, consumes, reshape, facet_skills, attributes })
    }

    /// The configuration of hero `hero_id`.
    pub fn hero(&self, hero_id: i32) -> (r: Option<&HeroDestinyConfig>)
        ensures
            match r {
                Some(h) => self.spec_hero(hero_id) == Some(h@),
                None => self.spec_hero(hero_id) is None,
            },
    {
        let key = [hero_id];
        assert(key@ =~= seq![hero_id]);
        lookup(&self.heroes, &key)
    }

    /// Node `node` of stage `stage` of slot group `slots_id`.
    pub fn slot(&self, slots_id: i32, stage: i32, node: i32) -> (r: Option<&CharacterDestinySlots>)
        ensures
            match r {
                Some(s) => self.spec_slot(slots_id, stage, node) == Some(s@),
                None => self.spec_slot(slots_id, stage, node) is None,
            },
    {
        let key = [slots_id, stage, node];
        assert(key@ =~= seq![slots_id, stage, node]);
        lookup(&self.slots, &key)
    }

    /// Facet `facets_id` at rank `level`.
    pub fn facet(&self, facets_id: i32, level: i32) -> (r: Option<&CharacterDestinyFacets>)
        ensures
            match r {
                Some(f) => self.spec_facet(facets_id, level) == Some(f@),
                None => self.spec_facet(facets_id, level) is None,
            },
    {
        let key = [facets_id, level];
        assert(key@ =~= seq![facets_id, level]);
        lookup(&self.facets, &key)
    }

    /// What unlocking facet `facets_id` costs.
    pub fn facet_consume(&self, facets_id: i32) -> (r: Option<&CharacterDestinyFacetsConsume>)
        ensures
            match r {
                Some(c) => self.spec_facet_consume(facets_id) == Some(c@),
                None => self.spec_facet_consume(facets_id) is None,
            },
    {
        let key = [facets_id];
        assert(key@ =~= seq![facets_id]);
        lookup(&self.consumes, &key)
    }

    /// The reshaped kit of facet `facets_id` at ex skill level `skill_level`.
    pub fn reshape(&self, facets_id: i32, skill_level: i32) -> (r: Option<&DestinyFacetsExLevel>)
        ensures
            match r {
                Some(x) => self.spec_reshape(facets_id, skill_level) == Some(x@),
                None => self.spec_reshape(facets_id, skill_level) is None,
            },
    {
        let key = [facets_id, skill_level];
        assert(key@ =~= seq![facets_id, skill_level]);
        lookup(&self.reshape, &key)
    }

    pub fn skill_destiny_facet(&self, facets_id: i32, skill_level: i32) -> (r: Option<
        &SkillExLevelDestinyFacets,
    >)
        ensures
            match r {
                Some(x) => self.spec_skill_destiny_facet(facets_id, skill_level) == Some(x@),
                None => self.spec_skill_destiny_facet(facets_id, skill_level) is None,
            },
    {
        let key = [facets_id, skill_level];
        assert(key@ =~= seq![facets_id, skill_level]);
        lookup(&self.facet_skills, &key)
    }

    /// Attribute `id`.
    pub fn attribute(&self, id: i32) -> (r: Option<&CharacterAttribute>)
        ensures
            match r {
                Some(a) => self.spec_attribute(id) == Some(a@),
                None => self.spec_attribute(id) is None,
            },
    {
        let key = [id];
        assert(key@ =~= seq![id]);
        lookup(&self.attributes, &key)
    }
}

/// Parses a `#`-separated list of facet ids.
fn parse_facet_ids(facets_id: &str) -> (r: Option<Vec<i32>>)
    ensures
        match r {
            Some(ids) => facet_ids_of(facets_id@) == Some(ids@),
            None => facet_ids_of(facets_id@) is None,
        },
{
    let chars = str_chars(facets_id);
    let pieces = split_chars(chars.as_slice(), '#');
    let ghost pv = split(facets_id@, '#');
    assert(pieces_view(pieces@) == pv);
    assert(forall|k: int| 0 <= k < pieces@.len() ==> (#[trigger] pieces@[k])@ == pieces_view(pieces@)[k]);
    let mut ids: Vec<i32> = Vec::new();
    let mut i: usize = 0;
    while i < pieces.len()
        invariant
            i <= pieces@.len(),
            pv.len() == pieces@.len(),
            pv == split(facets_id@, '#'),
            forall|k: int| 0 <= k < pieces@.len() ==> (#[trigger] pieces@[k])@ == pv[k],
            parse_id_list(pv.take(i as int)) == Some(ids@),
        decreases pieces@.len() - i,
    {
        assert(pv.take(i as int + 1).drop_last() =~= pv.take(i as int));
        assert(pv.take(i as int + 1).last() == pv[i as int]);
        assert(pieces@[i as int]@ == pv[i as int]);
        match parse_i32(pieces[i].as_slice()) {
            Some(id) => {
                ids.push(id);
            },
            None => {
                assert(parse_i32_spec(pv[i as int]) is None);
                assert(parse_id_list(pv.take(i as int + 1)) is None);
                proof {
                    lemma_parse_id_list_prefix(pv, i as int + 1);
                }

                return None;
            },
        }
        i = i + 1;
    }
    assert(pv.take(pieces@.len() as int) =~= pv);
    Some(ids)
}

/// A list fails to parse once a prefix of it does.
proof fn lemma_parse_id_list_prefix(pieces: Seq<Seq<char>>, n: int)
    requires
        0 <= n <= pieces.len(),
        parse_id_list(pieces.take(n)) is None,
    ensures
        parse_id_list(pieces) is None,
    decreases pieces.len() - n,
{
    if n < pieces.len() {
        assert(pieces.take(n + 1).drop_last() =~= pieces.take(n));
        lemma_parse_id_list_prefix(pieces, n + 1);
    } else {
        assert(pieces.take(n) =~= pieces);
    }
}

proof fn lemma_hero_prefix_clear(view: Seq<CharacterDestinyView>, i: int)
    requires
        0 <= i <= view.len(),
        forall|k: int| 0 <= k < i ==> (#[trigger] facet_ids_of(view[k].facets_id)) is Some,
        unique_keys::<CharacterDestiny>(view.take(i)),
    ensures
        hero_fault(view.take(i)) is None,
{
    assert(all_facets_parse(view.take(i))) by {
        assert forall|k: int| 0 <= k < view.take(i).len() implies (#[trigger] facet_ids_of(
            view.take(i)[k].facets_id,
        )) is Some by {
            assert(view.take(i)[k] == view[k]);
        }
    }
    lemma_hero_fault_none(view.take(i));
}

/// The hero configurations of the `character_destiny` rows, refusing a row
/// whose facet list does not parse and a repeated hero id.
fn build_heroes(rows: &Vec<CharacterDestiny>) -> (r: Result<Vec<HeroDestinyConfig>, ConfigIndexError>)
    ensures
        r is Ok <==> (all_facets_parse(rows_view(rows@)) && unique_keys::<CharacterDestiny>(
            rows_view(rows@),
        )),
        match r {
            Ok(heroes) => {
                &&& heroes@.len() == rows@.len()
                &&& forall|i: int|
                    0 <= i < heroes@.len() ==> Some((#[trigger] heroes@[i])@) == hero_config_of(
                        rows@[i]@,
                    )
                &&& unique_keys::<HeroDestinyConfig>(rows_view(heroes@))
                &&& hero_fault(rows_view(rows@)) is None
            },
            Err(e) => hero_fault(rows_view(rows@)) == Some(fault_of(e)),
        },
{
    let ghost view = rows_view(rows@);
    let mut heroes: Vec<HeroDestinyConfig> = Vec::new();
    let mut i: usize = 0;
    while i < rows.len()
        invariant
            i <= rows@.len(),
            view == rows_view(rows@),
            heroes@.len() == i,
            forall|k: int|
                0 <= k < i ==> Some((#[trigger] heroes@[k])@) == hero_config_of(view[k]),
            forall|k: int| 0 <= k < i ==> (#[trigger] facet_ids_of(view[k].facets_id)) is Some,
            unique_keys::<CharacterDestiny>(view.take(i as int)),
        decreases rows@.len() - i,
    {
        let row = &rows[i];
        assert(view[i as int] == row@);
        let ids = match parse_facet_ids(row.facets_id.as_str()) {
            Some(ids) => ids,
            None => {
                assert(facet_ids_of(view[i as int].facets_id) is None);
                proof {
                    lemma_hero_prefix_clear(view, i as int);
                    assert(view.take(i as int + 1).drop_last() =~= view.take(i as int));
                    assert(view.take(i as int + 1).last() == view[i as int]);
                    lemma_hero_fault_prefix(view, i as int + 1);
                }
                let e = ConfigIndexError::InvalidFacetIds {
                    hero_id: row.hero_id,
                    facets_id: row.facets_id.clone(),
                };
                return Err(e);
            },
        };
        let mut j: usize = 0;
        while j < i
            invariant
                j <= i < rows@.len(),
                view == rows_view(rows@),
                heroes@.len() == i,
                forall|k: int|
                    0 <= k < i ==> Some((#[trigger] heroes@[k])@) == hero_config_of(view[k]),
                forall|m: int| 0 <= m < j ==> (#[trigger] view[m]).hero_id != row.hero_id,
                view[i as int] == row@,
                unique_keys::<CharacterDestiny>(view.take(i as int)),
                forall|k: int| 0 <= k < i ==> (#[trigger] facet_ids_of(view[k].facets_id)) is Some,
                facet_ids_of(view[i as int].facets_id) == Some(ids@),
            decreases i - j,
        {
            if heroes[j].hero_id == row.hero_id {
                assert(view[j as int].hero_id == row.hero_id);
                let key = row.key();
                proof {
                    let pre = view.take(i as int);
                    lemma_hero_prefix_clear(view, i as int);
                    assert(view.take(i as int + 1).drop_last() =~= pre);
                    assert(view.take(i as int + 1).last() == view[i as int]);
                    assert(pre[j as int] == view[j as int]);
                    assert(CharacterDestiny::key_of(pre[j as int]) == key@);
                    assert(has_row::<CharacterDestiny>(pre, key@));
                    lemma_hero_fault_prefix(view, i as int + 1);
                }
                return Err(ConfigIndexError::DuplicateKey { table: ConfigTable::CharacterDestiny, key });
            }
            j = j + 1;
        }
        heroes.push(HeroDestinyConfig { hero_id: row.hero_id, slots_id: row.slots_id, facet_ids: ids });
        i = i + 1;
        assert(forall|m: int| 0 <= m < i - 1 ==> (#[trigger] view[m]).hero_id != view[i - 1].hero_id);
        assert(unique_keys::<CharacterDestiny>(view.take(i as int))) by {
            assert forall|a: int, b: int| 0 <= a < b < view.take(i as int).len() implies
                CharacterDestiny::key_of(#[trigger] view.take(i as int)[a])
                != CharacterDestiny::key_of(#[trigger] view.take(i as int)[b]) by {
                assert(view.take(i as int)[a] == view[a]);
                assert(view.take(i as int)[b] == view[b]);
                if b < i - 1 {
                    assert(view.take(i - 1)[a] == view[a]);
                    assert(view.take(i - 1)[b] == view[b]);
                } else {
                    assert(view[a].hero_id != view[b].hero_id);
                    assert(CharacterDestiny::key_of(view[a])[0] != CharacterDestiny::key_of(view[b])[0]);
                }
            }
        }
    }
    assert(view.take(rows@.len() as int) =~= view);
    assert(unique_keys::<HeroDestinyConfig>(rows_view(heroes@))) by {
        assert forall|a: int, b: int| 0 <= a < b < rows_view(heroes@).len() implies
            HeroDestinyConfig::key_of(#[trigger] rows_view(heroes@)[a])
            != HeroDestinyConfig::key_of(#[trigger] rows_view(heroes@)[b]) by {
            assert(CharacterDestiny::key_of(view[a]) != CharacterDestiny::key_of(view[b]));
            assert(view[a].hero_id != view[b].hero_id) by {
                if view[a].hero_id == view[b].hero_id {
                    assert(CharacterDestiny::key_of(view[a]) =~= CharacterDestiny::key_of(view[b]));
                }
            }
            assert(Some(heroes@[a]@) == hero_config_of(view[a]));
            assert(Some(heroes@[b]@) == hero_config_of(view[b]));
        }
    }
    proof {
        lemma_hero_prefix_clear(view, rows@.len() as int);
    }
    Ok(heroes)
}

} // verus!
