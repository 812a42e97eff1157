//! The persistent player record and its pieces, with their abstract views.
use crate::keyed::{distinct_keys, lookup, nonnegative_values, pairs, KeyedEntry};
use vstd::prelude::*;

verus! {

/// Identity and progress of a player.
#[derive(Debug, Clone, Default)]
pub struct PlayerBase {
    pub player_id: u64,
    pub player_name: String,
    pub player_level: u32,
}

/// An item stack in the bag.
#[derive(Debug, Clone, Copy, Default)]
pub struct PlayerBagItem {
    pub item_id: u32,
    pub item_count: u32,
}

/// The currencies a bag can hold; `value` gives the wire number.
#[derive(Debug, Clone, Copy, PartialEq, Eq, Structural)]
pub enum PlayerBagMoneyType {
    Unspecified,
    Gold,
    Diamond,
}

/// The balance of one currency; `money_type` holds the wire number of a
/// `PlayerBagMoneyType`.
#[derive(Debug, Clone, Copy, Default)]
pub struct PlayerBagMoney {
    pub money_type: i32,
    pub money_count: u32,
}

/// Items and money of a player.
#[derive(Debug, Clone, Default)]
pub struct PlayerBag {
    pub items: Vec<PlayerBagItem>,
    pub money: Vec<PlayerBagMoney>,
}

/// An unlocked skill and its level.
#[derive(Debug, Clone, Copy, Default)]
pub struct PlayerSkill {
    pub skill_id: u32,
    pub skill_level: u32,
}

/// Unspent skill points and unlocked skills.
#[derive(Debug, Clone, Default)]
pub struct PlayerSkillData {
    pub skill_points: u32,
    pub skills: Vec<PlayerSkill>,
}

/// An owned piece of equipment and its level.
#[derive(Debug, Clone, Copy, Default)]
pub struct PlayerEquip {
    pub equip_id: u32,
    pub equip_level: u32,
}

/// Owned equipment.
#[derive(Debug, Clone, Default)]
pub struct PlayerEquipData {
    pub equips: Vec<PlayerEquip>,
}

/// The whole record of a player; every part may be absent.
#[derive(Debug, Clone, Default)]
pub struct PlayerData {
    pub player_base: Option<PlayerBase>,
    pub player_bag: Option<PlayerBag>,
    pub player_skill: Option<PlayerSkillData>,
    pub player_equip: Option<PlayerEquipData>,
}

/// Wire numbers of the currencies.
pub open spec fn money_type_number(t: PlayerBagMoneyType) -> i32 {
    match t {
        PlayerBagMoneyType::Unspecified => 0,
        PlayerBagMoneyType::Gold => 1,
        PlayerBagMoneyType::Diamond => 2,
    }
}

impl PlayerBagMoneyType {
    /// The wire number of this currency.
    pub fn value(self) -> (v: i32)
        ensures
            v == money_type_number(self),
    {
        match self {
            PlayerBagMoneyType::Unspecified => 0,
            PlayerBagMoneyType::Gold => 1,
            PlayerBagMoneyType::Diamond => 2,
        }
    }

    /// The currency with a wire number; unknown numbers give `Unspecified`.
    pub fn from_number(n: i32) -> (t: PlayerBagMoneyType)
        ensures
            t == (if n == 1 {
                PlayerBagMoneyType::Gold
            } else if n == 2 {
                PlayerBagMoneyType::Diamond
            } else {
                PlayerBagMoneyType::Unspecified
            }),
    {
        if n == 1 {
            PlayerBagMoneyType::Gold
        } else if n == 2 {
            PlayerBagMoneyType::Diamond
        } else {
            PlayerBagMoneyType::Unspecified
        }
    }
}

pub struct PlayerBaseView {
    pub player_id: u64,
    pub player_name: Seq<char>,
    pub player_level: u32,
}

/// Items and money as `(key, value)` pairs.
pub struct PlayerBagView {
    pub items: Seq<(int, int)>,
    pub money: Seq<(int, int)>,
}

/// Skill points, and skills as `(skill id, level)` pairs.
pub struct PlayerSkillDataView {
    pub skill_points: u32,
    pub skills: Seq<(int, int)>,
}

/// Equipment as `(equip id, level)` pairs.
pub struct PlayerEquipDataView {
    pub equips: Seq<(int, int)>,
}

/// A player record seen as values: strings as characters, lists as sequences.
pub struct PlayerDataView {
    pub player_base: Option<PlayerBaseView>,
    pub player_bag: Option<PlayerBagView>,
    pub player_skill: Option<PlayerSkillDataView>,
    pub player_equip: Option<PlayerEquipDataView>,
}

impl View for PlayerBase {
    type V = PlayerBaseView;

    open spec fn view(&self) -> PlayerBaseView {
        PlayerBaseView {
            player_id: self.player_id,
            player_name: self.player_name@,
            player_level: self.player_level,
        }
    }
}

impl View for PlayerBag {
    type V = PlayerBagView;

    open spec fn view(&self) -> PlayerBagView {
        PlayerBagView { items: pairs(self.items@), money: pairs(self.money@) }
    }
}

impl View for PlayerSkillData {
    type V = PlayerSkillDataView;

    open spec fn view(&self) -> PlayerSkillDataView {
        PlayerSkillDataView { skill_points: self.skill_points, skills: pairs(self.skills@) }
    }
}

impl View for PlayerEquipData {
    type V = PlayerEquipDataView;

    open spec fn view(&self) -> PlayerEquipDataView {
        PlayerEquipDataView { equips: pairs(self.equips@) }
    }
}

impl View for PlayerData {
    type V = PlayerDataView;

    open spec fn view(&self) -> PlayerDataView {
        PlayerDataView {
            player_base: match self.player_base {
                Some(b) => Some(b@),
                None => None,
            },
            player_bag: match self.player_bag {
                Some(b) => Some(b@),
                None => None,
            },
            player_skill: match self.player_skill {
                Some(s) => Some(s@),
                None => None,
            },
            player_equip: match self.player_equip {
                Some(e) => Some(e@),
                None => None,
            },
        }
    }
}

impl KeyedEntry for PlayerBagMoney {
    open spec fn key_of(&self) -> int {
        self.money_type as int
    }

    open spec fn value_of(&self) -> int {
        self.money_count as int
    }

    fn key(&self) -> (k: i64) {
        self.money_type as i64
    }

    fn value(&self) -> (v: u32) {
        self.money_count
    }

    fn with_value(&self, v: u32) -> (e: Self) {
        PlayerBagMoney { money_type: self.money_type, money_count: v }
    }
}

impl KeyedEntry for PlayerBagItem {
    open spec fn key_of(&self) -> int {
        self.item_id as int
    }

    open spec fn value_of(&self) -> int {
        self.item_count as int
    }

    fn key(&self) -> (k: i64) {
        self.item_id as i64
    }

    fn value(&self) -> (v: u32) {
        self.item_count
    }

    fn with_value(&self, v: u32) -> (e: Self) {
        PlayerBagItem { item_id: self.item_id, item_count: v }
    }
}

impl KeyedEntry for PlayerSkill {
    open spec fn key_of(&self) -> int {
        self.skill_id as int
    }

    open spec fn value_of(&self) -> int {
        self.skill_level as int
    }

    fn key(&self) -> (k: i64) {
        self.skill_id as i64
    }

    fn value(&self) -> (v: u32) {
        self.skill_level
    }

    fn with_value(&self, v: u32) -> (e: Self) {
        PlayerSkill { skill_id: self.skill_id, skill_level: v }
    }
}

impl KeyedEntry for PlayerEquip {
    open spec fn key_of(&self) -> int {
        self.equip_id as int
    }

    open spec fn value_of(&self) -> int {
        self.equip_level as int
    }

    fn key(&self) -> (k: i64) {
        self.equip_id as i64
    }

    fn value(&self) -> (v: u32) {
        self.equip_level
    }

    fn with_value(&self, v: u32) -> (e: Self) {
        PlayerEquip { equip_id: self.equip_id, equip_level: v }
    }
}

impl PlayerDataView {
    /// The player id, 0 without a base.
    pub open spec fn id(self) -> u64 {
        match self.player_base {
            Some(b) => b.player_id,
            None => 0,
        }
    }

    /// The player name, empty without a base.
    pub open spec fn name(self) -> Seq<char> {
        match self.player_base {
            Some(b) => b.player_name,
            None => Seq::empty(),
        }
    }

    /// The level, 0 without a base.
    pub open spec fn level(self) -> u32 {
        match self.player_base {
            Some(b) => b.player_level,
            None => 0,
        }
    }

    /// The money entries, none without a bag.
    pub open spec fn money(self) -> Seq<(int, int)> {
        match self.player_bag {
            Some(b) => b.money,
            None => Seq::empty(),
        }
    }

    /// The item entries, none without a bag.
    pub open spec fn items(self) -> Seq<(int, int)> {
        match self.player_bag {
            Some(b) => b.items,
            None => Seq::empty(),
        }
    }

    /// The unspent skill points, 0 without skill data.
    pub open spec fn skill_points(self) -> u32 {
        match self.player_skill {
            Some(s) => s.skill_points,
            None => 0,
        }
    }

    /// The unlocked skills, none without skill data.
    pub open spec fn skills(self) -> Seq<(int, int)> {
        match self.player_skill {
            Some(s) => s.skills,
            None => Seq::empty(),
        }
    }

    /// The owned equipment, none without equipment data.
    pub open spec fn equips(self) -> Seq<(int, int)> {
        match self.player_equip {
            Some(e) => e.equips,
            None => Seq::empty(),
        }
    }

    /// The balance of a currency: the first entry of that currency, or 0.
    pub open spec fn money_count(self, money_type: int) -> int {
        lookup(self.money(), money_type)
    }

    /// The count of an item: the first stack of that item, or 0.
    pub open spec fn item_count(self, item_id: int) -> int {
        lookup(self.items(), item_id)
    }

    /// The level of a skill: the first entry of that skill, or 0.
    pub open spec fn skill_level(self, skill_id: int) -> int {
        lookup(self.skills(), skill_id)
    }

    /// The level of an equipment: the first entry of that equipment, or 0.
    pub open spec fn equip_level(self, equip_id: int) -> int {
        lookup(self.equips(), equip_id)
    }

    /// Every value in every keyed list is at least 0, as for every real record.
    pub open spec fn counts_nonnegative(self) -> bool {
        &&& nonnegative_values(self.money())
        &&& nonnegative_values(self.items())
        &&& nonnegative_values(self.skills())
        &&& nonnegative_values(self.equips())
    }

    /// Every keyed list holds each key at most once.
    pub open spec fn well_formed(self) -> bool {
        &&& distinct_keys(self.money())
        &&& distinct_keys(self.items())
        &&& distinct_keys(self.skills())
        &&& distinct_keys(self.equips())
    }
}

/// A copy of a list of plain entries.
pub fn copy_entries<T: Copy>(v: &Vec<T>) -> (r: Vec<T>)
    ensures
        r@ == v@,
{
    let mut r: Vec<T> = Vec::new();
    let n = v.len();
    for i in 0..n
        invariant
            n == v@.len(),
            r@ == v@.take(i as int),
    {
        r.push(v[i]);
        assert(v@.take(i as int).push(v@[i as int]) =~= v@.take(i + 1));
    }
    assert(v@.take(n as int) =~= v@);
    r
}

impl PlayerData {
    /// An independent copy of this record.
    pub fn snapshot(&self) -> (r: PlayerData)
        ensures
            r@ == self@,
    {
        let player_base = match &self.player_base {
            Some(b) => Some(
                PlayerBase {
                    player_id: b.player_id,
                    player_name: b.player_name.clone(),
                    player_level: b.player_level,
                },
            ),
            None => None,
        };
        let player_bag = match &self.player_bag {
            Some(b) => Some(PlayerBag { items: copy_entries(&b.items), money: copy_entries(&b.money) }),
            None => None,
        };
        let player_skill = match &self.player_skill {
            Some(s) => Some(
                PlayerSkillData { skill_points: s.skill_points, skills: copy_entries(&s.skills) },
            ),
            None => None,
        };
        let player_equip = match &self.player_equip {
            Some(e) => Some(PlayerEquipData { equips: copy_entries(&e.equips) }),
            None => None,
        };
        PlayerData { player_base, player_bag, player_skill, player_equip }
    }
}

/// The view of every record has nonnegative counts.
pub proof fn lemma_counts_nonnegative(d: PlayerData)
    ensures
        d@.counts_nonnegative(),
{
    let v = d@;
    assert forall|i: int| 0 <= i < v.money().len() implies 0 <= (#[trigger] v.money()[i]).1 by {}
    assert forall|i: int| 0 <= i < v.items().len() implies 0 <= (#[trigger] v.items()[i]).1 by {}
    assert forall|i: int| 0 <= i < v.skills().len() implies 0 <= (#[trigger] v.skills()[i]).1 by {}
    assert forall|i: int| 0 <= i < v.equips().len() implies 0 <= (#[trigger] v.equips()[i]).1 by {}
}

} // verus!
