//! Snapshot diffs of player records: what a client needs to bring its cached
//! copy of a record from the state before a request to the state after it.
//!
//! A change of a keyed list is written `(op, key, value)`: `op` is the wire
//! number of a `DeltaOp`; money changes always carry the upsert number.
use crate::keyed::{
    contains_key, distinct_keys, has_key, lemma_has_key_push, lemma_lookup_absent,
    lemma_lookup_distinct, lemma_lookup_present, lemma_lookup_push, lemma_lookup_push_last, lookup,
    nonnegative_values, pairs, value_of_key,
};
use crate::model::{
    PlayerBagItem, PlayerBagMoney, PlayerData, PlayerDataView, PlayerEquip, PlayerSkill,
};
use vstd::prelude::*;

verus! {

/// How a keyed entry changed; `value` gives the wire number.
#[derive(Debug, Clone, Copy, PartialEq, Eq, Structural)]
pub enum DeltaOp {
    Unspecified,
    Upsert,
    Delete,
}

/// Wire numbers of the change kinds.
pub open spec fn delta_op_number(op: DeltaOp) -> i32 {
    match op {
        DeltaOp::Unspecified => 0,
        DeltaOp::Upsert => 1,
        DeltaOp::Delete => 2,
    }
}

impl DeltaOp {
    /// The wire number of this change kind.
    pub fn value(self) -> (v: i32)
        ensures
            v == delta_op_number(self),
    {
        match self {
            DeltaOp::Unspecified => 0,
            DeltaOp::Upsert => 1,
            DeltaOp::Delete => 2,
        }
    }
}

/// The wire number of an upsert.
pub open spec fn upsert_op() -> int {
    1
}

/// The wire number of a deletion.
pub open spec fn delete_op() -> int {
    2
}

/// A changed level; absent means unchanged.
#[derive(Debug, Clone, Copy, Default)]
pub struct PlayerBaseDelta {
    pub player_level: Option<u32>,
}

/// The new balance of a currency.
#[derive(Debug, Clone, Copy, Default)]
pub struct PlayerBagMoneyDelta {
    pub money_type: i32,
    pub money_count: u32,
}

/// An item stack set to a new count, or deleted.
#[derive(Debug, Clone, Copy, Default)]
pub struct PlayerBagItemDelta {
    pub op: i32,
    pub item_id: u32,
    pub item_count: u32,
}

/// Changes of money and items.
#[derive(Debug, Clone, Default)]
pub struct PlayerBagDelta {
    pub money_changes: Vec<PlayerBagMoneyDelta>,
    pub item_changes: Vec<PlayerBagItemDelta>,
}

/// A skill set to a new level, or deleted.
#[derive(Debug, Clone, Copy, Default)]
pub struct PlayerSkillDelta {
    pub op: i32,
    pub skill_id: u32,
    pub skill_level: u32,
}

/// Changed skill points (absent means unchanged) and skill changes.
#[derive(Debug, Clone, Default)]
pub struct PlayerSkillDataDelta {
    pub skill_points: Option<u32>,
    pub skill_changes: Vec<PlayerSkillDelta>,
}

/// A piece of equipment set to a new level, or deleted.
#[derive(Debug, Clone, Copy, Default)]
pub struct PlayerEquipDelta {
    pub op: i32,
    pub equip_id: u32,
    pub equip_level: u32,
}

/// Equipment changes.
#[derive(Debug, Clone, Default)]
pub struct PlayerEquipDataDelta {
    pub equip_changes: Vec<PlayerEquipDelta>,
}

/// All changes of a record; a part that did not change is absent.
#[derive(Debug, Clone, Default)]
pub struct PlayerDataDelta {
    pub base: Option<PlayerBaseDelta>,
    pub bag: Option<PlayerBagDelta>,
    pub skill: Option<PlayerSkillDataDelta>,
    pub equip: Option<PlayerEquipDataDelta>,
}

/// Money changes as `(op, currency, count)`.
pub open spec fn money_change_triples(s: Seq<PlayerBagMoneyDelta>) -> Seq<(int, int, int)> {
    s.map_values(|d: PlayerBagMoneyDelta| (upsert_op(), d.money_type as int, d.money_count as int))
}

/// Item changes as `(op, item id, count)`.
pub open spec fn item_change_triples(s: Seq<PlayerBagItemDelta>) -> Seq<(int, int, int)> {
    s.map_values(|d: PlayerBagItemDelta| (d.op as int, d.item_id as int, d.item_count as int))
}

/// Skill changes as `(op, skill id, level)`.
pub open spec fn skill_change_triples(s: Seq<PlayerSkillDelta>) -> Seq<(int, int, int)> {
    s.map_values(|d: PlayerSkillDelta| (d.op as int, d.skill_id as int, d.skill_level as int))
}

/// Equipment changes as `(op, equip id, level)`.
pub open spec fn equip_change_triples(s: Seq<PlayerEquipDelta>) -> Seq<(int, int, int)> {
    s.map_values(|d: PlayerEquipDelta| (d.op as int, d.equip_id as int, d.equip_level as int))
}

pub struct PlayerBagDeltaView {
    pub money_changes: Seq<(int, int, int)>,
    pub item_changes: Seq<(int, int, int)>,
}

pub struct PlayerSkillDataDeltaView {
    pub skill_points: Option<u32>,
    pub skill_changes: Seq<(int, int, int)>,
}

pub struct PlayerEquipDataDeltaView {
    pub equip_changes: Seq<(int, int, int)>,
}

/// A delta with its change lists as triples.
pub struct PlayerDataDeltaView {
    pub base: Option<PlayerBaseDelta>,
    pub bag: Option<PlayerBagDeltaView>,
    pub skill: Option<PlayerSkillDataDeltaView>,
    pub equip: Option<PlayerEquipDataDeltaView>,
}

impl View for PlayerBagDelta {
    type V = PlayerBagDeltaView;

    open spec fn view(&self) -> PlayerBagDeltaView {
        PlayerBagDeltaView {
            money_changes: money_change_triples(self.money_changes@),
            item_changes: item_change_triples(self.item_changes@),
        }
    }
}

impl View for PlayerSkillDataDelta {
    type V = PlayerSkillDataDeltaView;

    open spec fn view(&self) -> PlayerSkillDataDeltaView {
        PlayerSkillDataDeltaView {
            skill_points: self.skill_points,
            skill_changes: skill_change_triples(self.skill_changes@),
        }
    }
}

impl View for PlayerEquipDataDelta {
    type V = PlayerEquipDataDeltaView;

    open spec fn view(&self) -> PlayerEquipDataDeltaView {
        PlayerEquipDataDeltaView { equip_changes: equip_change_triples(self.equip_changes@) }
    }
}

impl View for PlayerDataDelta {
    type V = PlayerDataDeltaView;

    open spec fn view(&self) -> PlayerDataDeltaView {
        PlayerDataDeltaView {
            base: self.base,
            bag: match self.bag {
                Some(b) => Some(b@),
                None => None,
            },
            skill: match self.skill {
                Some(s) => Some(s@),
                None => None,
            },
            equip: match self.equip {
                Some(e) => Some(e@),
                None => None,
            },
        }
    }
}

/// Upserts for the entries of `after`, in order, whose value differs from the
/// value of their key in `before`.
pub open spec fn upserts(before: Seq<(int, int)>, after: Seq<(int, int)>) -> Seq<(int, int, int)>
    decreases after.len(),
{
    if after.len() == 0 {
        Seq::empty()
    } else {
        let rest = upserts(before, after.drop_last());
        let e = after.last();
        if e.1 != lookup(before, e.0) {
            rest.push((upsert_op(), e.0, e.1))
        } else {
            rest
        }
    }
}

/// Deletions for the entries of `before`, in order, whose key is gone from `after`.
pub open spec fn deletes(before: Seq<(int, int)>, after: Seq<(int, int)>) -> Seq<(int, int, int)>
    decreases before.len(),
{
    if before.len() == 0 {
        Seq::empty()
    } else {
        let rest = deletes(before.drop_last(), after);
        let e = before.last();
        if !has_key(after, e.0) {
            rest.push((delete_op(), e.0, 0))
        } else {
            rest
        }
    }
}

/// Upserts to 0 for the entries of `before`, in order, whose key is gone from
/// `after` and whose value was above 0.
pub open spec fn zeroings(before: Seq<(int, int)>, after: Seq<(int, int)>) -> Seq<(int, int, int)>
    decreases before.len(),
{
    if before.len() == 0 {
        Seq::empty()
    } else {
        let rest = zeroings(before.drop_last(), after);
        let e = before.last();
        if !has_key(after, e.0) && e.1 > 0 {
            rest.push((upsert_op(), e.0, 0))
        } else {
            rest
        }
    }
}

/// Money changes between two records.
pub open spec fn money_changes(before: PlayerDataView, after: PlayerDataView) -> Seq<(int, int, int)> {
    upserts(before.money(), after.money()) + zeroings(before.money(), after.money())
}

/// Item changes between two records.
pub open spec fn item_changes(before: PlayerDataView, after: PlayerDataView) -> Seq<(int, int, int)> {
    upserts(before.items(), after.items()) + deletes(before.items(), after.items())
}

/// Skill changes between two records.
pub open spec fn skill_changes(before: PlayerDataView, after: PlayerDataView) -> Seq<(int, int, int)> {
    upserts(before.skills(), after.skills()) + deletes(before.skills(), after.skills())
}

/// Equipment changes between two records.
pub open spec fn equip_changes(before: PlayerDataView, after: PlayerDataView) -> Seq<(int, int, int)> {
    upserts(before.equips(), after.equips()) + deletes(before.equips(), after.equips())
}

/// The level part of a diff.
pub open spec fn base_part(before: PlayerDataView, after: PlayerDataView) -> Option<PlayerBaseDelta> {
    if before.level() != after.level() {
        Some(PlayerBaseDelta { player_level: Some(after.level()) })
    } else {
        None
    }
}

/// The bag part of a diff.
pub open spec fn bag_part(before: PlayerDataView, after: PlayerDataView) -> Option<PlayerBagDeltaView> {
    let m = money_changes(before, after);
    let i = item_changes(before, after);
    if m.len() == 0 && i.len() == 0 {
        None
    } else {
        Some(PlayerBagDeltaView { money_changes: m, item_changes: i })
    }
}

/// The skill part of a diff.
pub open spec fn skill_part(before: PlayerDataView, after: PlayerDataView) -> Option<PlayerSkillDataDeltaView> {
    let changed = before.skill_points() != after.skill_points();
    let s = skill_changes(before, after);
    if !changed && s.len() == 0 {
        None
    } else {
        Some(
            PlayerSkillDataDeltaView {
                skill_points: if changed {
                    Some(after.skill_points())
                } else {
                    None
                },
                skill_changes: s,
            },
        )
    }
}

/// The equipment part of a diff.
pub open spec fn equip_part(before: PlayerDataView, after: PlayerDataView) -> Option<PlayerEquipDataDeltaView> {
    let e = equip_changes(before, after);
    if e.len() == 0 {
        None
    } else {
        Some(PlayerEquipDataDeltaView { equip_changes: e })
    }
}

/// The diff of two records: absent where no part changed.
pub open spec fn diff(before: PlayerDataView, after: PlayerDataView) -> Option<PlayerDataDeltaView> {
    let base = base_part(before, after);
    let bag = bag_part(before, after);
    let skill = skill_part(before, after);
    let equip = equip_part(before, after);
    if base is None && bag is None && skill is None && equip is None {
        None
    } else {
        Some(PlayerDataDeltaView { base, bag, skill, equip })
    }
}

/// Compares two records and gives the changes that bring the first to the
/// second, or `None` where nothing changed.
pub fn diff_player_data(before: &PlayerData, after: &PlayerData) -> (r: Option<PlayerDataDelta>)
    ensures
        match r {
            Some(d) => diff(before@, after@) == Some(d@),
            None => diff(before@, after@) is None,
        },
{
    let base = diff_base(before, after);
    let bag = diff_bag(before, after);
    let skill = diff_skill(before, after);
    let equip = diff_equip(before, after);
    if base.is_none() && bag.is_none() && skill.is_none() && equip.is_none() {
        return None;
    }
    Some(PlayerDataDelta { base, bag, skill, equip })
}

// Only the level is compared; id and name do not change at run time.
fn diff_base(before: &PlayerData, after: &PlayerData) -> (r: Option<PlayerBaseDelta>)
    ensures
        r == base_part(before@, after@),
{
    let before_level = match &before.player_base {
        Some(b) => b.player_level,
        None => 0,
    };
    let after_level = match &after.player_base {
        Some(b) => b.player_level,
        None => 0,
    };
    if before_level == after_level {
        return None;
    }
    Some(PlayerBaseDelta { player_level: Some(after_level) })
}

fn diff_bag(before: &PlayerData, after: &PlayerData) -> (r: Option<PlayerBagDelta>)
    ensures
        match r {
            Some(b) => bag_part(before@, after@) == Some(b@),
            None => bag_part(before@, after@) is None,
        },
{
    let money_changes = diff_money(before, after);
    let item_changes = diff_items(before, after);
    if money_changes.len() == 0 && item_changes.len() == 0 {
        return None;
    }
    Some(PlayerBagDelta { money_changes, item_changes })
}

fn money_of<'a>(d: &'a PlayerData, empty: &'a Vec<PlayerBagMoney>) -> (r: &'a Vec<PlayerBagMoney>)
    requires
        empty@.len() == 0,
    ensures
        pairs(r@) == d@.money(),
{
    match &d.player_bag {
        Some(b) => &b.money,
        None => {
            assert(pairs(empty@) =~= Seq::empty());
            empty
        },
    }
}

fn items_of<'a>(d: &'a PlayerData, empty: &'a Vec<PlayerBagItem>) -> (r: &'a Vec<PlayerBagItem>)
    requires
        empty@.len() == 0,
    ensures
        pairs(r@) == d@.items(),
{
    match &d.player_bag {
        Some(b) => &b.items,
        None => {
            assert(pairs(empty@) =~= Seq::empty());
            empty
        },
    }
}

fn skills_of<'a>(d: &'a PlayerData, empty: &'a Vec<PlayerSkill>) -> (r: &'a Vec<PlayerSkill>)
    requires
        empty@.len() == 0,
    ensures
        pairs(r@) == d@.skills(),
{
    match &d.player_skill {
        Some(s) => &s.skills,
        None => {
            assert(pairs(empty@) =~= Seq::empty());
            empty
        },
    }
}

fn equips_of<'a>(d: &'a PlayerData, empty: &'a Vec<PlayerEquip>) -> (r: &'a Vec<PlayerEquip>)
    requires
        empty@.len() == 0,
    ensures
        pairs(r@) == d@.equips(),
{
    match &d.player_equip {
        Some(e) => &e.equips,
        None => {
            assert(pairs(empty@) =~= Seq::empty());
            empty
        },
    }
}

fn diff_money(before: &PlayerData, after: &PlayerData) -> (r: Vec<PlayerBagMoneyDelta>)
    ensures
        money_change_triples(r@) == money_changes(before@, after@),
{
    let empty_before: Vec<PlayerBagMoney> = Vec::new();
    let empty_after: Vec<PlayerBagMoney> = Vec::new();
    let before_money = money_of(before, &empty_before);
    let after_money = money_of(after, &empty_after);
    let ghost bp = pairs(before_money@);
    let ghost ap = pairs(after_money@);
    let mut changes: Vec<PlayerBagMoneyDelta> = Vec::new();

    let n = after_money.len();
    for i in 0..n
        invariant
            n == after_money@.len(),
            bp == pairs(before_money@),
            ap == pairs(after_money@),
            money_change_triples(changes@) == upserts(bp, ap.take(i as int)),
    {
        let am = after_money[i];
        let before_count = value_of_key(before_money, am.money_type as i64);
        assert(ap.take(i + 1).drop_last() =~= ap.take(i as int));
        assert(ap.take(i + 1).last() == ap[i as int]);
        if am.money_count != before_count {
            let d = PlayerBagMoneyDelta { money_type: am.money_type, money_count: am.money_count };
            let ghost prev = changes@;
            changes.push(d);
            assert(money_change_triples(changes@) =~= money_change_triples(prev).push(
                (upsert_op(), d.money_type as int, d.money_count as int),
            ));
        }
    }
    assert(ap.take(n as int) =~= ap);
    let ghost ups = money_change_triples(changes@);

    let m = before_money.len();
    for i in 0..m
        invariant
            m == before_money@.len(),
            bp == pairs(before_money@),
            ap == pairs(after_money@),
            money_change_triples(changes@) == ups + zeroings(bp.take(i as int), ap),
    {
        let bm = before_money[i];
        let exists_in_after = contains_key(after_money, bm.money_type as i64);
        assert(bp.take(i + 1).drop_last() =~= bp.take(i as int));
        assert(bp.take(i + 1).last() == bp[i as int]);
        if !exists_in_after && bm.money_count > 0 {
            let d = PlayerBagMoneyDelta { money_type: bm.money_type, money_count: 0 };
            let ghost prev = changes@;
            changes.push(d);
            assert(money_change_triples(changes@) =~= money_change_triples(prev).push(
                (upsert_op(), d.money_type as int, 0),
            ));
            assert(ups + zeroings(bp.take(i + 1), ap) =~= (ups + zeroings(bp.take(i as int), ap)).push(
                (upsert_op(), d.money_type as int, 0),
            ));
        }
    }
    assert(bp.take(m as int) =~= bp);
    changes
}

fn diff_items(before: &PlayerData, after: &PlayerData) -> (r: Vec<PlayerBagItemDelta>)
    ensures
        item_change_triples(r@) == item_changes(before@, after@),
{
    let empty_before: Vec<PlayerBagItem> = Vec::new();
    let empty_after: Vec<PlayerBagItem> = Vec::new();
    let before_items = items_of(before, &empty_before);
    let after_items = items_of(after, &empty_after);
    let ghost bp = pairs(before_items@);
    let ghost ap = pairs(after_items@);
    let upsert = DeltaOp::Upsert.value();
    let delete = DeltaOp::Delete.value();
    let mut changes: Vec<PlayerBagItemDelta> = Vec::new();

    // Items in after that are new or changed are upserted.
    let n = after_items.len();
    for i in 0..n
        invariant
            n == after_items@.len(),
            bp == pairs(before_items@),
            ap == pairs(after_items@),
            upsert == upsert_op(),
            item_change_triples(changes@) == upserts(bp, ap.take(i as int)),
    {
        let ai = after_items[i];
        let before_count = value_of_key(before_items, ai.item_id as i64);
        assert(ap.take(i + 1).drop_last() =~= ap.take(i as int));
        assert(ap.take(i + 1).last() == ap[i as int]);
        if ai.item_count != before_count {
            let d = PlayerBagItemDelta { op: upsert, item_id: ai.item_id, item_count: ai.item_count };
            let ghost prev = changes@;
            changes.push(d);
            assert(item_change_triples(changes@) =~= item_change_triples(prev).push(
                (upsert_op(), d.item_id as int, d.item_count as int),
            ));
        }
    }
    assert(ap.take(n as int) =~= ap);
    let ghost ups = item_change_triples(changes@);

    // Items in before but not in after are deleted.
    let m = before_items.len();
    for i in 0..m
        invariant
            m == before_items@.len(),
            bp == pairs(before_items@),
            ap == pairs(after_items@),
            delete == delete_op(),
            item_change_triples(changes@) == ups + deletes(bp.take(i as int), ap),
    {
        let bi = before_items[i];
        let exists_in_after = contains_key(after_items, bi.item_id as i64);
        assert(bp.take(i + 1).drop_last() =~= bp.take(i as int));
        assert(bp.take(i + 1).last() == bp[i as int]);
        if !exists_in_after {
            let d = PlayerBagItemDelta { op: delete, item_id: bi.item_id, item_count: 0 };
            let ghost prev = changes@;
            changes.push(d);
            assert(item_change_triples(changes@) =~= item_change_triples(prev).push(
                (delete_op(), d.item_id as int, 0),
            ));
            assert(ups + deletes(bp.take(i + 1), ap) =~= (ups + deletes(bp.take(i as int), ap)).push(
                (delete_op(), d.item_id as int, 0),
            ));
        }
    }
    assert(bp.take(m as int) =~= bp);
    changes
}

fn diff_skill(before: &PlayerData, after: &PlayerData) -> (r: Option<PlayerSkillDataDelta>)
    ensures
        match r {
            Some(s) => skill_part(before@, after@) == Some(s@),
            None => skill_part(before@, after@) is None,
        },
{
    let before_points = match &before.player_skill {
        Some(s) => s.skill_points,
        None => 0,
    };
    let after_points = match &after.player_skill {
        Some(s) => s.skill_points,
        None => 0,
    };
    let empty_before: Vec<PlayerSkill> = Vec::new();
    let empty_after: Vec<PlayerSkill> = Vec::new();
    let before_skills = skills_of(before, &empty_before);
    let after_skills = skills_of(after, &empty_after);
    let ghost bp = pairs(before_skills@);
    let ghost ap = pairs(after_skills@);
    let upsert = DeltaOp::Upsert.value();
    let delete = DeltaOp::Delete.value();
    let points_changed = before_points != after_points;
    let mut skill_changes: Vec<PlayerSkillDelta> = Vec::new();

    let n = after_skills.len();
    for i in 0..n
        invariant
            n == after_skills@.len(),
            bp == pairs(before_skills@),
            ap == pairs(after_skills@),
            upsert == upsert_op(),
            skill_change_triples(skill_changes@) == upserts(bp, ap.take(i as int)),
    {
        let s = after_skills[i];
        let before_level = value_of_key(before_skills, s.skill_id as i64);
        assert(ap.take(i + 1).drop_last() =~= ap.take(i as int));
        assert(ap.take(i + 1).last() == ap[i as int]);
        if s.skill_level != before_level {
            let d = PlayerSkillDelta { op: upsert, skill_id: s.skill_id, skill_level: s.skill_level };
            let ghost prev = skill_changes@;
            skill_changes.push(d);
            assert(skill_change_triples(skill_changes@) =~= skill_change_triples(prev).push(
                (upsert_op(), d.skill_id as int, d.skill_level as int),
            ));
        }
    }
    assert(ap.take(n as int) =~= ap);
    let ghost ups = skill_change_triples(skill_changes@);

    let m = before_skills.len();
    for i in 0..m
        invariant
            m == before_skills@.len(),
            bp == pairs(before_skills@),
            ap == pairs(after_skills@),
            delete == delete_op(),
            skill_change_triples(skill_changes@) == ups + deletes(bp.take(i as int), ap),
    {
        let bs = before_skills[i];
        let exists_in_after = contains_key(after_skills, bs.skill_id as i64);
        assert(bp.take(i + 1).drop_last() =~= bp.take(i as int));
        assert(bp.take(i + 1).last() == bp[i as int]);
        if !exists_in_after {
            let d = PlayerSkillDelta { op: delete, skill_id: bs.skill_id, skill_level: 0 };
            let ghost prev = skill_changes@;
            skill_changes.push(d);
            assert(skill_change_triples(skill_changes@) =~= skill_change_triples(prev).push(
                (delete_op(), d.skill_id as int, 0),
            ));
            assert(ups + deletes(bp.take(i + 1), ap) =~= (ups + deletes(bp.take(i as int), ap)).push(
                (delete_op(), d.skill_id as int, 0),
            ));
        }
    }
    assert(bp.take(m as int) =~= bp);

    if !points_changed && skill_changes.len() == 0 {
        return None;
    }
    Some(
        PlayerSkillDataDelta {
            skill_points: if points_changed {
                Some(after_points)
            } else {
                None
            },
            skill_changes,
        },
    )
}


fn diff_equip(before: &PlayerData, after: &PlayerData) -> (r: Option<PlayerEquipDataDelta>)
    ensures
        match r {
            Some(e) => equip_part(before@, after@) == Some(e@),
            None => equip_part(before@, after@) is None,
        },
{
    let empty_before: Vec<PlayerEquip> = Vec::new();
    let empty_after: Vec<PlayerEquip> = Vec::new();
    let before_equips = equips_of(before, &empty_before);
    let after_equips = equips_of(after, &empty_after);
    let ghost bp = pairs(before_equips@);
    let ghost ap = pairs(after_equips@);
    let upsert = DeltaOp::Upsert.value();
    let delete = DeltaOp::Delete.value();
    let mut equip_changes: Vec<PlayerEquipDelta> = Vec::new();

    let n = after_equips.len();
    for i in 0..n
        invariant
            n == after_equips@.len(),
            bp == pairs(before_equips@),
            ap == pairs(after_equips@),
            upsert == upsert_op(),
            equip_change_triples(equip_changes@) == upserts(bp, ap.take(i as int)),
    {
        let e = after_equips[i];
        let before_level = value_of_key(before_equips, e.equip_id as i64);
        assert(ap.take(i + 1).drop_last() =~= ap.take(i as int));
        assert(ap.take(i + 1).last() == ap[i as int]);
        if e.equip_level != before_level {
            let d = PlayerEquipDelta { op: upsert, equip_id: e.equip_id, equip_level: e.equip_level };
            let ghost prev = equip_changes@;
            equip_changes.push(d);
            assert(equip_change_triples(equip_changes@) =~= equip_change_triples(prev).push(
                (upsert_op(), d.equip_id as int, d.equip_level as int),
            ));
        }
    }
    assert(ap.take(n as int) =~= ap);
    let ghost ups = equip_change_triples(equip_changes@);

    let m = before_equips.len();
    for i in 0..m
        invariant
            m == before_equips@.len(),
            bp == pairs(before_equips@),
            ap == pairs(after_equips@),
            delete == delete_op(),
            equip_change_triples(equip_changes@) == ups + deletes(bp.take(i as int), ap),
    {
        let be = before_equips[i];
        let exists_in_after = contains_key(after_equips, be.equip_id as i64);
        assert(bp.take(i + 1).drop_last() =~= bp.take(i as int));
        assert(bp.take(i + 1).last() == bp[i as int]);
        if !exists_in_after {
            let d = PlayerEquipDelta { op: delete, equip_id: be.equip_id, equip_level: 0 };
            let ghost prev = equip_changes@;
            equip_changes.push(d);
            assert(equip_change_triples(equip_changes@) =~= equip_change_triples(prev).push(
                (delete_op(), d.equip_id as int, 0),
            ));
            assert(ups + deletes(bp.take(i + 1), ap) =~= (ups + deletes(bp.take(i as int), ap)).push(
                (delete_op(), d.equip_id as int, 0),
            ));
        }
    }
    assert(bp.take(m as int) =~= bp);

    if equip_changes.len() == 0 {
        return None;
    }
    Some(PlayerEquipDataDelta { equip_changes })
}

/// The last change of key `k` in a change list, if any.
pub open spec fn last_change(changes: Seq<(int, int, int)>, k: int) -> Option<(int, int, int)>
    decreases changes.len(),
{
    if changes.len() == 0 {
        None
    } else if changes.last().1 == k {
        Some(changes.last())
    } else {
        last_change(changes.drop_last(), k)
    }
}

/// What key `k` reads after a keyed list is brought up to date by applying
/// changes in order: the last change of the key decides, a deletion reading as
/// 0; a key that no change names keeps its value.
pub open spec fn applied(before: Seq<(int, int)>, changes: Seq<(int, int, int)>, k: int) -> int {
    match last_change(changes, k) {
        Some(c) => if c.0 == delete_op() {
            0
        } else {
            c.2
        },
        None => lookup(before, k),
    }
}

/// The level a cached record has once a delta is applied to it.
pub open spec fn level_after(before: PlayerDataView, delta: Option<PlayerDataDeltaView>) -> u32 {
    match delta {
        Some(d) => match d.base {
            Some(b) => match b.player_level {
                Some(l) => l,
                None => before.level(),
            },
            None => before.level(),
        },
        None => before.level(),
    }
}

/// The balance of a currency in a cached record once a delta is applied to it.
pub open spec fn money_after(before: PlayerDataView, delta: Option<PlayerDataDeltaView>, k: int) -> int {
    match delta {
        Some(d) => match d.bag {
            Some(b) => applied(before.money(), b.money_changes, k),
            None => before.money_count(k),
        },
        None => before.money_count(k),
    }
}

/// The count of an item in a cached record once a delta is applied to it.
pub open spec fn item_after(before: PlayerDataView, delta: Option<PlayerDataDeltaView>, k: int) -> int {
    match delta {
        Some(d) => match d.bag {
            Some(b) => applied(before.items(), b.item_changes, k),
            None => before.item_count(k),
        },
        None => before.item_count(k),
    }
}

/// The skill points of a cached record once a delta is applied to it.
pub open spec fn points_after(before: PlayerDataView, delta: Option<PlayerDataDeltaView>) -> u32 {
    match delta {
        Some(d) => match d.skill {
            Some(s) => match s.skill_points {
                Some(p) => p,
                None => before.skill_points(),
            },
            None => before.skill_points(),
        },
        None => before.skill_points(),
    }
}

/// The level of a skill in a cached record once a delta is applied to it.
pub open spec fn skill_after(before: PlayerDataView, delta: Option<PlayerDataDeltaView>, k: int) -> int {
    match delta {
        Some(d) => match d.skill {
            Some(s) => applied(before.skills(), s.skill_changes, k),
            None => before.skill_level(k),
        },
        None => before.skill_level(k),
    }
}

/// The level of a piece of equipment in a cached record once a delta is
/// applied to it.
pub open spec fn equip_after(before: PlayerDataView, delta: Option<PlayerDataDeltaView>, k: int) -> int {
    match delta {
        Some(d) => match d.equip {
            Some(e) => applied(before.equips(), e.equip_changes, k),
            None => before.equip_level(k),
        },
        None => before.equip_level(k),
    }
}

/// Some entry of `s` with key `k` has a value above 0.
pub open spec fn has_positive(s: Seq<(int, int)>, k: int) -> bool {
    exists|i: int| 0 <= i < s.len() && (#[trigger] s[i]).0 == k && s[i].1 > 0
}

proof fn lemma_last_change_concat(a: Seq<(int, int, int)>, b: Seq<(int, int, int)>, k: int)
    ensures
        last_change(a + b, k) == match last_change(b, k) {
            Some(c) => Some(c),
            None => last_change(a, k),
        },
    decreases b.len(),
{
    if b.len() == 0 {
        assert(a + b =~= a);
    } else {
        assert((a + b).drop_last() =~= a + b.drop_last());
        assert((a + b).last() == b.last());
        lemma_last_change_concat(a, b.drop_last(), k);
    }
}

proof fn lemma_distinct_drop_last(s: Seq<(int, int)>)
    requires
        distinct_keys(s),
        s.len() > 0,
    ensures
        distinct_keys(s.drop_last()),
        !has_key(s.drop_last(), s.last().0),
{
    let t = s.drop_last();
    assert forall|i: int, j: int| 0 <= i < j < t.len() implies #[trigger] t[i].0
        != #[trigger] t[j].0 by {
        assert(t[i] == s[i] && t[j] == s[j]);
        assert(s[i].0 != s[j].0);
    }
    if has_key(t, s.last().0) {
        let i = choose|i: int| 0 <= i < t.len() && (#[trigger] t[i]).0 == s.last().0;
        assert(t[i] == s[i]);
        assert(s[i].0 != s[s.len() - 1].0);
    }
}

proof fn lemma_last_change_upserts(before: Seq<(int, int)>, after: Seq<(int, int)>, k: int)
    requires
        distinct_keys(after),
    ensures
        last_change(upserts(before, after), k) == if has_key(after, k) && lookup(after, k)
            != lookup(before, k) {
            Some((upsert_op(), k, lookup(after, k)))
        } else {
            None::<(int, int, int)>
        },
    decreases after.len(),
{
    if after.len() == 0 {
        assert(!has_key(after, k));
    } else {
        let t = after.drop_last();
        let e = after.last();
        lemma_distinct_drop_last(after);
        lemma_last_change_upserts(before, t, k);
        lemma_lookup_push_last(after);
        lemma_lookup_push(t, e, k);
        lemma_has_key_push(t, e, k);
        let rest = upserts(before, t);
        if e.1 != lookup(before, e.0) {
            assert(rest.push((upsert_op(), e.0, e.1)).drop_last() =~= rest);
        }
    }
}

proof fn lemma_last_change_deletes(before: Seq<(int, int)>, after: Seq<(int, int)>, k: int)
    ensures
        last_change(deletes(before, after), k) == if !has_key(after, k) && has_key(before, k) {
            Some((delete_op(), k, 0))
        } else {
            None::<(int, int, int)>
        },
    decreases before.len(),
{
    if before.len() == 0 {
        assert(!has_key(before, k));
    } else {
        let t = before.drop_last();
        let e = before.last();
        lemma_last_change_deletes(t, after, k);
        lemma_lookup_push_last(before);
        lemma_has_key_push(t, e, k);
        let rest = deletes(t, after);
        if !has_key(after, e.0) {
            assert(rest.push((delete_op(), e.0, 0)).drop_last() =~= rest);
        }
    }
}

proof fn lemma_last_change_zeroings(before: Seq<(int, int)>, after: Seq<(int, int)>, k: int)
    ensures
        last_change(zeroings(before, after), k) == if !has_key(after, k) && has_positive(before, k) {
            Some((upsert_op(), k, 0))
        } else {
            None::<(int, int, int)>
        },
    decreases before.len(),
{
    if before.len() == 0 {
        assert(!has_positive(before, k));
    } else {
        let t = before.drop_last();
        let e = before.last();
        lemma_last_change_zeroings(t, after, k);
        lemma_lookup_push_last(before);
        let rest = zeroings(t, after);
        if !has_key(after, e.0) && e.1 > 0 {
            assert(rest.push((upsert_op(), e.0, 0)).drop_last() =~= rest);
        }
        if has_positive(t, k) {
            let i = choose|i: int| 0 <= i < t.len() && (#[trigger] t[i]).0 == k && t[i].1 > 0;
            assert(before[i] == t[i]);
        }
        if has_positive(before, k) && !(e.0 == k && e.1 > 0) {
            let i = choose|i: int| 0 <= i < before.len() && (#[trigger] before[i]).0 == k && before[i].1 > 0;
            assert(i < t.len());
            assert(t[i] == before[i]);
        }
        if e.0 == k && e.1 > 0 {
            assert(before[before.len() - 1] == e);
        }
    }
}

proof fn lemma_applied_upserts_deletes(before: Seq<(int, int)>, after: Seq<(int, int)>, k: int)
    requires
        distinct_keys(after),
    ensures
        applied(before, upserts(before, after) + deletes(before, after), k) == lookup(after, k),
{
    lemma_last_change_concat(upserts(before, after), deletes(before, after), k);
    lemma_last_change_upserts(before, after, k);
    lemma_last_change_deletes(before, after, k);
    if !has_key(after, k) {
        lemma_lookup_absent(after, k);
        if !has_key(before, k) {
            lemma_lookup_absent(before, k);
        }
    }
}

proof fn lemma_applied_upserts_zeroings(before: Seq<(int, int)>, after: Seq<(int, int)>, k: int)
    requires
        distinct_keys(after),
        nonnegative_values(before),
    ensures
        applied(before, upserts(before, after) + zeroings(before, after), k) == lookup(after, k),
{
    lemma_last_change_concat(upserts(before, after), zeroings(before, after), k);
    lemma_last_change_upserts(before, after, k);
    lemma_last_change_zeroings(before, after, k);
    if !has_key(after, k) {
        lemma_lookup_absent(after, k);
        if !has_positive(before, k) {
            if has_key(before, k) {
                let i = lemma_lookup_present(before, k);
                assert(before[i].1 >= 0);
            } else {
                lemma_lookup_absent(before, k);
            }
        }
    }
}

/// A diff brings a cached record up to date: applying the diff of `before`
/// and `after` to `before` gives the level, skill points, balances, item
/// counts, skill levels and equipment levels of `after`, wherever `after` holds each key at most once
/// in its keyed lists.
pub proof fn lemma_diff_then_apply(before: PlayerDataView, after: PlayerDataView)
    requires
        after.well_formed(),
        before.counts_nonnegative(),
    ensures
        level_after(before, diff(before, after)) == after.level(),
        points_after(before, diff(before, after)) == after.skill_points(),
        forall|k: int| #[trigger] money_after(before, diff(before, after), k) == after.money_count(k),
        forall|k: int| #[trigger] item_after(before, diff(before, after), k) == after.item_count(k),
        forall|k: int| #[trigger] skill_after(before, diff(before, after), k) == after.skill_level(k),
        forall|k: int| #[trigger] equip_after(before, diff(before, after), k) == after.equip_level(k),
{
    assert forall|k: int| #[trigger] money_after(before, diff(before, after), k) == after.money_count(k) by {
        lemma_applied_upserts_zeroings(before.money(), after.money(), k);
        lemma_last_change_upserts(before.money(), after.money(), k);
        lemma_last_change_zeroings(before.money(), after.money(), k);
        lemma_last_change_concat(upserts(before.money(), after.money()), zeroings(before.money(), after.money()), k);
    }
    assert forall|k: int| #[trigger] item_after(before, diff(before, after), k) == after.item_count(k) by {
        lemma_applied_upserts_deletes(before.items(), after.items(), k);
        lemma_last_change_concat(upserts(before.items(), after.items()), deletes(before.items(), after.items()), k);
    }
    assert forall|k: int| #[trigger] skill_after(before, diff(before, after), k) == after.skill_level(k) by {
        lemma_applied_upserts_deletes(before.skills(), after.skills(), k);
        lemma_last_change_concat(upserts(before.skills(), after.skills()), deletes(before.skills(), after.skills()), k);
    }
    assert forall|k: int| #[trigger] equip_after(before, diff(before, after), k) == after.equip_level(k) by {
        lemma_applied_upserts_deletes(before.equips(), after.equips(), k);
        lemma_last_change_concat(upserts(before.equips(), after.equips()), deletes(before.equips(), after.equips()), k);
    }
}

proof fn lemma_no_upserts_on_self(s: Seq<(int, int)>, n: int)
    requires
        distinct_keys(s),
        0 <= n <= s.len(),
    ensures
        upserts(s, s.take(n)).len() == 0,
    decreases n,
{
    if n > 0 {
        assert(s.take(n).drop_last() =~= s.take(n - 1));
        assert(s.take(n).last() == s[n - 1]);
        lemma_lookup_distinct(s, n - 1);
        lemma_no_upserts_on_self(s, n - 1);
    }
}

proof fn lemma_no_removals_on_self(s: Seq<(int, int)>, n: int)
    requires
        0 <= n <= s.len(),
    ensures
        deletes(s.take(n), s).len() == 0,
        zeroings(s.take(n), s).len() == 0,
    decreases n,
{
    if n > 0 {
        assert(s.take(n).drop_last() =~= s.take(n - 1));
        assert(s.take(n).last() == s[n - 1]);
        assert(has_key(s, s[n - 1].0));
        lemma_no_removals_on_self(s, n - 1);
    }
}

/// A record that did not change gives no delta, wherever it holds each key at
/// most once in its keyed lists.
pub proof fn lemma_diff_of_unchanged_is_none(d: PlayerDataView)
    requires
        d.well_formed(),
    ensures
        diff(d, d) is None,
{
    assert(d.money().take(d.money().len() as int) =~= d.money());
    assert(d.items().take(d.items().len() as int) =~= d.items());
    assert(d.skills().take(d.skills().len() as int) =~= d.skills());
    assert(d.equips().take(d.equips().len() as int) =~= d.equips());
    lemma_no_upserts_on_self(d.money(), d.money().len() as int);
    lemma_no_upserts_on_self(d.items(), d.items().len() as int);
    lemma_no_upserts_on_self(d.skills(), d.skills().len() as int);
    lemma_no_upserts_on_self(d.equips(), d.equips().len() as int);
    lemma_no_removals_on_self(d.money(), d.money().len() as int);
    lemma_no_removals_on_self(d.items(), d.items().len() as int);
    lemma_no_removals_on_self(d.skills(), d.skills().len() as int);
    lemma_no_removals_on_self(d.equips(), d.equips().len() as int);
}

/// No entry of a keyed list has the value 0.
pub open spec fn no_zero_values(s: Seq<(int, int)>) -> bool {
    forall|i: int| 0 <= i < s.len() ==> (#[trigger] s[i]).1 != 0
}

/// Two keyed lists read the same for every key.
pub open spec fn same_lookups(b: Seq<(int, int)>, a: Seq<(int, int)>) -> bool {
    forall|k: int| #[trigger] lookup(b, k) == lookup(a, k)
}

/// Two records hold the same values: level, skill points, and for every key
/// the balance, item count, skill level and equipment level.
pub open spec fn same_values(before: PlayerDataView, after: PlayerDataView) -> bool {
    &&& before.level() == after.level()
    &&& before.skill_points() == after.skill_points()
    &&& same_lookups(before.money(), after.money())
    &&& same_lookups(before.items(), after.items())
    &&& same_lookups(before.skills(), after.skills())
    &&& same_lookups(before.equips(), after.equips())
}

proof fn lemma_no_upserts_when_same(b: Seq<(int, int)>, a: Seq<(int, int)>, n: int)
    requires
        distinct_keys(a),
        same_lookups(b, a),
        0 <= n <= a.len(),
    ensures
        upserts(b, a.take(n)).len() == 0,
    decreases n,
{
    if n > 0 {
        assert(a.take(n).drop_last() =~= a.take(n - 1));
        assert(a.take(n).last() == a[n - 1]);
        lemma_lookup_distinct(a, n - 1);
        assert(lookup(b, a[n - 1].0) == lookup(a, a[n - 1].0));
        lemma_no_upserts_when_same(b, a, n - 1);
    }
}

proof fn lemma_no_removals_when_same(b: Seq<(int, int)>, a: Seq<(int, int)>, n: int)
    requires
        distinct_keys(b),
        same_lookups(b, a),
        0 <= n <= b.len(),
    ensures
        no_zero_values(b) ==> deletes(b.take(n), a).len() == 0,
        nonnegative_values(b) ==> zeroings(b.take(n), a).len() == 0,
    decreases n,
{
    if n > 0 {
        assert(b.take(n).drop_last() =~= b.take(n - 1));
        assert(b.take(n).last() == b[n - 1]);
        lemma_lookup_distinct(b, n - 1);
        let k = b[n - 1].0;
        assert(lookup(b, k) == lookup(a, k));
        if b[n - 1].1 != 0 && !has_key(a, k) {
            lemma_lookup_absent(a, k);
        }
        lemma_no_removals_when_same(b, a, n - 1);
    }
}

/// A diff is absent exactly where the two records hold the same values,
/// wherever both hold each key at most once in their keyed lists and no item,
/// skill or equipment entry of `before` has the value 0.
pub proof fn lemma_diff_none_iff_same_values(before: PlayerDataView, after: PlayerDataView)
    requires
        before.well_formed(),
        after.well_formed(),
        before.counts_nonnegative(),
        no_zero_values(before.items()),
        no_zero_values(before.skills()),
        no_zero_values(before.equips()),
    ensures
        diff(before, after) is None <==> same_values(before, after),
{
    if same_values(before, after) {
        assert(after.money().take(after.money().len() as int) =~= after.money());
        assert(after.items().take(after.items().len() as int) =~= after.items());
        assert(after.skills().take(after.skills().len() as int) =~= after.skills());
        assert(after.equips().take(after.equips().len() as int) =~= after.equips());
        assert(before.money().take(before.money().len() as int) =~= before.money());
        assert(before.items().take(before.items().len() as int) =~= before.items());
        assert(before.skills().take(before.skills().len() as int) =~= before.skills());
        assert(before.equips().take(before.equips().len() as int) =~= before.equips());
        lemma_no_upserts_when_same(before.money(), after.money(), after.money().len() as int);
        lemma_no_upserts_when_same(before.items(), after.items(), after.items().len() as int);
        lemma_no_upserts_when_same(before.skills(), after.skills(), after.skills().len() as int);
        lemma_no_upserts_when_same(before.equips(), after.equips(), after.equips().len() as int);
        lemma_no_removals_when_same(before.money(), after.money(), before.money().len() as int);
        lemma_no_removals_when_same(before.items(), after.items(), before.items().len() as int);
        lemma_no_removals_when_same(before.skills(), after.skills(), before.skills().len() as int);
        lemma_no_removals_when_same(before.equips(), after.equips(), before.equips().len() as int);
    }
    if diff(before, after) is None {
        lemma_diff_then_apply(before, after);
        assert forall|k: int| #[trigger] lookup(before.money(), k) == lookup(after.money(), k) by {
            assert(money_after(before, diff(before, after), k) == after.money_count(k));
        }
        assert forall|k: int| #[trigger] lookup(before.items(), k) == lookup(after.items(), k) by {
            assert(item_after(before, diff(before, after), k) == after.item_count(k));
        }
        assert forall|k: int| #[trigger] lookup(before.skills(), k) == lookup(after.skills(), k) by {
            assert(skill_after(before, diff(before, after), k) == after.skill_level(k));
        }
        assert forall|k: int| #[trigger] lookup(before.equips(), k) == lookup(after.equips(), k) by {
            assert(equip_after(before, diff(before, after), k) == after.equip_level(k));
        }
    }
}

} // verus!
