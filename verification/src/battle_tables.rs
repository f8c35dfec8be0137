//! The configuration tables that battle setup reads besides the Destiny
//! ones: trial heroes, hero levels, monsters, episodes and battles.
use crate::table::TableRow;
use vstd::prelude::*;

verus! {

/// A `hero_trial` row: a lent hero with its level, skin, ex skill level, Destiny and equipment.
#[derive(Clone, Copy, Debug, PartialEq, Eq)]
pub struct HeroTrial {
    pub id: i32,
    pub hero_id: i32,
    pub level: i32,
    pub skin: i32,
    pub ex_skill_lv: i32,
    pub facetslevel: i32,
    pub facets_id: i32,
    pub equip_id: i32,
    pub equip_lv: i32,
    pub equip_refine: i32,
}

impl View for HeroTrial {
    type V = HeroTrial;

    open spec fn view(&self) -> HeroTrial {
        *self
    }
}

impl TableRow for HeroTrial {
    /// A trial is found by its id.
    open spec fn key_of(v: HeroTrial) -> Seq<i32> {
        seq![v.id]
    }

    fn has_key(&self, key: &[i32]) -> (b: bool) {
        let b = key.len() == 1 && self.id == key[0];
        proof {
            if key@.len() == 1 {
                assert(b ==> seq![self.id] =~= key@);
            }
        }
        b
    }

    fn key(&self) -> (k: Vec<i32>) {
        let mut k: Vec<i32> = Vec::new();
        k.push(self.id);
        assert(k@ =~= Self::key_of(self@));
        k
    }

    fn duplicate(&self) -> (r: Self) {
        *self
    }
}

/// A `character_level` row: a hero's stats at one level.
#[derive(Clone, Copy, Debug, PartialEq, Eq)]
pub struct CharacterLevel {
    pub hero_id: i32,
    pub level: i32,
    pub hp: i32,
    pub atk: i32,
    pub def: i32,
    pub mdef: i32,
    pub technic: i32,
}

impl View for CharacterLevel {
    type V = CharacterLevel;

    open spec fn view(&self) -> CharacterLevel {
        *self
    }
}

impl TableRow for CharacterLevel {
    /// A level row is found by hero and level.
    open spec fn key_of(v: CharacterLevel) -> Seq<i32> {
        seq![v.hero_id, v.level]
    }

    fn has_key(&self, key: &[i32]) -> (b: bool) {
        let b = key.len() == 2 && self.hero_id == key[0] && self.level == key[1];
        proof {
            if key@.len() == 2 {
                assert(b ==> seq![self.hero_id, self.level] =~= key@);
            }
        }
        b
    }

    fn key(&self) -> (k: Vec<i32>) {
        let mut k: Vec<i32> = Vec::new();
        k.push(self.hero_id);
        k.push(self.level);
        assert(k@ =~= Self::key_of(self@));
        k
    }

    fn duplicate(&self) -> (r: Self) {
        *self
    }
}

/// A `monster` row: a monster's templates, level and skin.
#[derive(Clone, Copy, Debug, PartialEq, Eq)]
pub struct Monster {
    pub id: i32,
    pub template: i32,
    pub skill_template: i32,
    pub level: i32,
    pub level_true: i32,
    pub skin_id: i32,
}

impl View for Monster {
    type V = Monster;

    open spec fn view(&self) -> Monster {
        *self
    }
}

impl TableRow for Monster {
    /// A monster is found by its id.
    open spec fn key_of(v: Monster) -> Seq<i32> {
        seq![v.id]
    }

    fn has_key(&self, key: &[i32]) -> (b: bool) {
        let b = key.len() == 1 && self.id == key[0];
        proof {
            if key@.len() == 1 {
                assert(b ==> seq![self.id] =~= key@);
            }
        }
        b
    }

    fn key(&self) -> (k: Vec<i32>) {
        let mut k: Vec<i32> = Vec::new();
        k.push(self.id);
        assert(k@ =~= Self::key_of(self@));
        k
    }

    fn duplicate(&self) -> (r: Self) {
        *self
    }
}

/// A `monster_template` row: base stats and their growth per level.
#[derive(Clone, Copy, Debug, PartialEq, Eq)]
pub struct MonsterTemplate {
    pub template: i32,
    pub life: i32,
    pub life_grow: i32,
    pub attack: i32,
    pub attack_grow: i32,
    pub defense: i32,
    pub defense_grow: i32,
    pub mdefense: i32,
    pub mdefense_grow: i32,
    pub technic: i32,
    pub technic_grow: i32,
}

impl View for MonsterTemplate {
    type V = MonsterTemplate;

    open spec fn view(&self) -> MonsterTemplate {
        *self
    }
}

impl TableRow for MonsterTemplate {
    /// A template is found by its number.
    open spec fn key_of(v: MonsterTemplate) -> Seq<i32> {
        seq![v.template]
    }

    fn has_key(&self, key: &[i32]) -> (b: bool) {
        let b = key.len() == 1 && self.template == key[0];
        proof {
            if key@.len() == 1 {
                assert(b ==> seq![self.template] =~= key@);
            }
        }
        b
    }

    fn key(&self) -> (k: Vec<i32>) {
        let mut k: Vec<i32> = Vec::new();
        k.push(self.template);
        assert(k@ =~= Self::key_of(self@));
        k
    }

    fn duplicate(&self) -> (r: Self) {
        *self
    }
}

/// A `monster_skill_template` row: a monster's skills and career.
#[derive(Debug)]
pub struct MonsterSkillTemplate {
    pub id: i32,
    pub active_skill: String,
    pub passive_skill: String,
    pub unique_skill: String,
    pub career: i32,
}

/// The contents of a [`MonsterSkillTemplate`].
pub struct MonsterSkillTemplateView {
    pub id: i32,
    pub active_skill: Seq<char>,
    pub passive_skill: Seq<char>,
    pub unique_skill: Seq<char>,
    pub career: i32,
}

impl View for MonsterSkillTemplate {
    type V = MonsterSkillTemplateView;

    open spec fn view(&self) -> MonsterSkillTemplateView {
        MonsterSkillTemplateView {
            id: self.id,
            active_skill: self.active_skill@,
            passive_skill: self.passive_skill@,
            unique_skill: self.unique_skill@,
            career: self.career,
        }
    }
}

impl TableRow for MonsterSkillTemplate {
    /// A skill template is found by its id.
    open spec fn key_of(v: MonsterSkillTemplateView) -> Seq<i32> {
        seq![v.id]
    }

    fn has_key(&self, key: &[i32]) -> (b: bool) {
        let b = key.len() == 1 && self.id == key[0];
        proof {
            if key@.len() == 1 {
                assert(b ==> seq![self.id] =~= key@);
            }
        }
        b
    }

    fn key(&self) -> (k: Vec<i32>) {
        let mut k: Vec<i32> = Vec::new();
        k.push(self.id);
        assert(k@ =~= Self::key_of(self@));
        k
    }

    fn duplicate(&self) -> (r: Self) {
        MonsterSkillTemplate {
            id: self.id,
            active_skill: self.active_skill.clone(),
            passive_skill: self.passive_skill.clone(),
            unique_skill: self.unique_skill.clone(),
            career: self.career,
        }
    }
}

/// An `episode` row: the battle an episode fights.
#[derive(Clone, Copy, Debug, PartialEq, Eq)]
pub struct Episode {
    pub id: i32,
    pub battle_id: i32,
}

impl View for Episode {
    type V = Episode;

    open spec fn view(&self) -> Episode {
        *self
    }
}

impl TableRow for Episode {
    /// An episode is found by its id.
    open spec fn key_of(v: Episode) -> Seq<i32> {
        seq![v.id]
    }

    fn has_key(&self, key: &[i32]) -> (b: bool) {
        let b = key.len() == 1 && self.id == key[0];
        proof {
            if key@.len() == 1 {
                assert(b ==> seq![self.id] =~= key@);
            }
        }
        b
    }

    fn key(&self) -> (k: Vec<i32>) {
        let mut k: Vec<i32> = Vec::new();
        k.push(self.id);
        assert(k@ =~= Self::key_of(self@));
        k
    }

    fn duplicate(&self) -> (r: Self) {
        *self
    }
}

/// A `battle` row: its round limit and monster group.
#[derive(Debug)]
pub struct Battle {
    pub id: i32,
    pub max_round: i32,
    pub monster_group_ids: String,
}

/// The contents of a [`Battle`].
pub struct BattleView {
    pub id: i32,
    pub max_round: i32,
    pub monster_group_ids: Seq<char>,
}

impl View for Battle {
    type V = BattleView;

    open spec fn view(&self) -> BattleView {
        BattleView {
            id: self.id,
            max_round: self.max_round,
            monster_group_ids: self.monster_group_ids@,
        }
    }
}

impl TableRow for Battle {
    /// A battle is found by its id.
    open spec fn key_of(v: BattleView) -> Seq<i32> {
        seq![v.id]
    }

    fn has_key(&self, key: &[i32]) -> (b: bool) {
        let b = key.len() == 1 && self.id == key[0];
        proof {
            if key@.len() == 1 {
                assert(b ==> seq![self.id] =~= key@);
            }
        }
        b
    }

    fn key(&self) -> (k: Vec<i32>) {
        let mut k: Vec<i32> = Vec::new();
        k.push(self.id);
        assert(k@ =~= Self::key_of(self@));
        k
    }

    fn duplicate(&self) -> (r: Self) {
        Battle {
            id: self.id,
            max_round: self.max_round,
            monster_group_ids: self.monster_group_ids.clone(),
        }
    }
}

} // verus!
