//! A loaded player: all operations on a player's record go through here.
use crate::keyed::{
    contains_key, find_index, has_key, lemma_has_key_push, lemma_lookup_nonnegative, lemma_lookup_push,
    lemma_pairs_push,
    lemma_lookup_remove_key, lemma_remove_key_distinct, lemma_upsert, remove_entries, remove_key, set_value_at, upsert,
    lookup, value_of_key,
};
use crate::model::{
    money_type_number, PlayerBag, PlayerBagItem, PlayerBagMoney, PlayerBagMoneyType, PlayerBagView,
    PlayerBase, PlayerBaseView, PlayerData, PlayerDataView, PlayerEquip, PlayerEquipData,
    PlayerEquipDataView, PlayerSkill, PlayerSkillData, PlayerSkillDataView,
};
use vstd::prelude::*;

verus! {

/// Gold paid for a new piece of equipment.
pub const EQUIP_PRICE: u32 = 500;

/// Gold paid for one equipment level.
pub const EQUIP_UPGRADE_PRICE: u32 = 100;

/// `x` capped at the largest `u32`.
pub open spec fn saturated(x: int) -> u32 {
    if x > u32::MAX {
        u32::MAX
    } else {
        x as u32
    }
}

/// `d` with its money replaced; the bag exists afterwards.
pub open spec fn with_money(d: PlayerDataView, money: Seq<(int, int)>) -> PlayerDataView {
    PlayerDataView { player_bag: Some(PlayerBagView { items: d.items(), money }), ..d }
}

/// `d` with its items replaced; the bag exists afterwards.
pub open spec fn with_items(d: PlayerDataView, items: Seq<(int, int)>) -> PlayerDataView {
    PlayerDataView { player_bag: Some(PlayerBagView { items, money: d.money() }), ..d }
}

/// `d` with its skill data replaced; the skill data exists afterwards.
pub open spec fn with_skills(d: PlayerDataView, points: u32, skills: Seq<(int, int)>) -> PlayerDataView {
    PlayerDataView {
        player_skill: Some(PlayerSkillDataView { skill_points: points, skills }),
        ..d
    }
}

/// `d` with its equipment replaced; the equipment data exists afterwards.
pub open spec fn with_equips(d: PlayerDataView, equips: Seq<(int, int)>) -> PlayerDataView {
    PlayerDataView { player_equip: Some(PlayerEquipDataView { equips }), ..d }
}

/// `d` with its base replaced; the base exists afterwards.
pub open spec fn with_base(d: PlayerDataView, id: u64, name: Seq<char>, level: u32) -> PlayerDataView {
    PlayerDataView {
        player_base: Some(PlayerBaseView { player_id: id, player_name: name, player_level: level }),
        ..d
    }
}

/// The record after taking `amount` of a currency, where that succeeds.
pub open spec fn money_taken(d: PlayerDataView, k: int, amount: u32) -> PlayerDataView {
    with_money(d, upsert(d.money(), k, d.money_count(k) - amount))
}

/// Taking `amount` of currency `k` fails: the currency is missing or short.
pub open spec fn money_take_fails(d: PlayerDataView, k: int, amount: u32) -> bool {
    !has_key(d.money(), k) || d.money_count(k) < amount
}

/// The message of a failed take of money.
pub open spec fn money_take_error(d: PlayerDataView, k: int) -> Seq<char> {
    if !has_key(d.money(), k) {
        "money type not found"@
    } else {
        "insufficient money"@
    }
}

/// A result whose error message is seen as characters.
pub open spec fn result_view(r: Result<(u32, u32), &str>) -> Result<(u32, u32), Seq<char>> {
    match r {
        Ok(x) => Ok(x),
        Err(e) => Err(e@),
    }
}

/// What unlocking skill `k` gives, and the record afterwards.
pub open spec fn unlock_skill_outcome(o: PlayerDataView, k: u32) -> (Result<(u32, u32), Seq<char>>, PlayerDataView) {
    if has_key(o.skills(), k as int) {
        (Err("skill already unlocked"@), o)
    } else if o.skill_points() < 1 {
        (Err("insufficient skill points"@), with_skills(o, o.skill_points(), o.skills()))
    } else {
        (Ok((k, 1)), with_skills(o, (o.skill_points() - 1) as u32, o.skills().push((k as int, 1))))
    }
}

/// What upgrading skill `k` gives, and the record afterwards.
pub open spec fn upgrade_skill_outcome(o: PlayerDataView, k: u32) -> (Result<(u32, u32), Seq<char>>, PlayerDataView) {
    if !has_key(o.skills(), k as int) {
        (Err("skill not unlocked"@), with_skills(o, o.skill_points(), o.skills()))
    } else if o.skill_points() < 1 {
        (Err("insufficient skill points"@), with_skills(o, o.skill_points(), o.skills()))
    } else {
        let level = saturated(o.skill_level(k as int) + 1);
        (
            Ok((k, level)),
            with_skills(o, (o.skill_points() - 1) as u32, upsert(o.skills(), k as int, level as int)),
        )
    }
}

/// What buying equipment `k` gives, and the record afterwards.
pub open spec fn buy_equip_outcome(o: PlayerDataView, k: u32) -> (Result<(u32, u32), Seq<char>>, PlayerDataView) {
    if has_key(o.equips(), k as int) {
        (Err("equip already owned"@), o)
    } else if money_take_fails(o, 1, EQUIP_PRICE) {
        (Err(money_take_error(o, 1)), with_money(o, o.money()))
    } else {
        (Ok((k, 1)), with_equips(money_taken(o, 1, EQUIP_PRICE), o.equips().push((k as int, 1))))
    }
}

/// What upgrading equipment `k` gives, and the record afterwards.
pub open spec fn upgrade_equip_outcome(o: PlayerDataView, k: u32) -> (Result<(u32, u32), Seq<char>>, PlayerDataView) {
    if !has_key(o.equips(), k as int) {
        (Err("equip not owned"@), o)
    } else if money_take_fails(o, 1, EQUIP_UPGRADE_PRICE) {
        (Err(money_take_error(o, 1)), with_money(o, o.money()))
    } else {
        let level = saturated(o.equip_level(k as int) + 1);
        (
            Ok((k, level)),
            with_equips(money_taken(o, 1, EQUIP_UPGRADE_PRICE), upsert(o.equips(), k as int, level as int)),
        )
    }
}

/// A loaded player instance, wrapping its record.
pub struct Player {
    data: PlayerData,
}

impl View for Player {
    type V = PlayerDataView;

    closed spec fn view(&self) -> PlayerDataView {
        self.data@
    }
}

impl Player {
    /// Wraps a record.
    pub fn new(data: PlayerData) -> (p: Player)
        ensures
            p@ == data@,
    {
        Player { data }
    }

    /// The record.
    pub fn data(&self) -> (d: &PlayerData)
        ensures
            d@ == self@,
    {
        &self.data
    }

    /// The record, for changes in place.
    pub fn data_mut(&mut self) -> (d: &mut PlayerData)
        ensures
            d@ == old(self)@,
            final(self)@ == final(d)@,
    {
        &mut self.data
    }

    // ---- base ----

    /// The player id, 0 without a base.
    pub fn player_id(&self) -> (r: u64)
        ensures
            r == self@.id(),
    {
        match &self.data.player_base {
            Some(b) => b.player_id,
            None => 0,
        }
    }

    /// The player name, empty without a base.
    pub fn player_name(&self) -> (r: &str)
        ensures
            r@ == self@.name(),
    {
        match &self.data.player_base {
            Some(b) => b.player_name.as_str(),
            None => {
                proof {
                    reveal_strlit("");
                }
                ""
            },
        }
    }

    fn ensure_base(&mut self)
        ensures
            final(self)@ == with_base(old(self)@, old(self)@.id(), old(self)@.name(), old(self)@.level()),
    {
        if self.data.player_base.is_none() {
            self.data.player_base = Some(
                PlayerBase { player_id: 0, player_name: String::new(), player_level: 0 },
            );
        }
    }

    fn take_base(&mut self) -> (b: PlayerBase)
        ensures
            b@ == (PlayerBaseView {
                player_id: old(self)@.id(),
                player_name: old(self)@.name(),
                player_level: old(self)@.level(),
            }),
            final(self)@ == (PlayerDataView { player_base: None, ..old(self)@ }),
    {
        self.ensure_base();
        match self.data.player_base.take() {
            Some(b) => b,
            None => PlayerBase { player_id: 0, player_name: String::new(), player_level: 0 },
        }
    }

    /// Renames the player; a missing base is created first.
    pub fn set_player_name(&mut self, name: String)
        ensures
            old(self)@.well_formed() ==> final(self)@.well_formed(),
            final(self)@ == with_base(old(self)@, old(self)@.id(), name@, old(self)@.level()),
            final(self)@.level() == old(self)@.level(),
            final(self)@.id() == old(self)@.id(),
            final(self)@.name() == name@,
            final(self)@.player_bag == old(self)@.player_bag,
            final(self)@.player_skill == old(self)@.player_skill,
            final(self)@.player_equip == old(self)@.player_equip,
    {
        let mut b = self.take_base();
        b.player_name = name;
        self.data.player_base = Some(b);
    }

    /// The level, 0 without a base.
    pub fn level(&self) -> (r: u32)
        ensures
            r == self@.level(),
    {
        match &self.data.player_base {
            Some(b) => b.player_level,
            None => 0,
        }
    }

    /// Sets the level; a missing base is created first.
    pub fn set_level(&mut self, level: u32)
        ensures
            old(self)@.well_formed() ==> final(self)@.well_formed(),
            final(self)@ == with_base(old(self)@, old(self)@.id(), old(self)@.name(), level),
            final(self)@.level() == level,
            final(self)@.id() == old(self)@.id(),
            final(self)@.name() == old(self)@.name(),
            final(self)@.player_bag == old(self)@.player_bag,
            final(self)@.player_skill == old(self)@.player_skill,
            final(self)@.player_equip == old(self)@.player_equip,
    {
        let mut b = self.take_base();
        b.player_level = level;
        self.data.player_base = Some(b);
    }

    /// Raises the level by `delta`, saturating, and returns the new level.
    pub fn add_level(&mut self, delta: u32) -> (r: u32)
        ensures
            old(self)@.well_formed() ==> final(self)@.well_formed(),
            r == saturated(old(self)@.level() + delta),
            final(self)@ == with_base(old(self)@, old(self)@.id(), old(self)@.name(), r),
            final(self)@.level() == r,
            final(self)@.id() == old(self)@.id(),
            final(self)@.name() == old(self)@.name(),
            final(self)@.player_bag == old(self)@.player_bag,
            final(self)@.player_skill == old(self)@.player_skill,
            final(self)@.player_equip == old(self)@.player_equip,
    {
        let mut b = self.take_base();
        b.player_level = b.player_level.saturating_add(delta);
        let r = b.player_level;
        self.data.player_base = Some(b);
        r
    }

    /// Experience goes straight into levels.
    pub fn add_exp(&mut self, exp: u32) -> (r: u32)
        ensures
            old(self)@.well_formed() ==> final(self)@.well_formed(),
            r == saturated(old(self)@.level() + exp),
            final(self)@ == with_base(old(self)@, old(self)@.id(), old(self)@.name(), r),
            final(self)@.level() == r,
            final(self)@.id() == old(self)@.id(),
            final(self)@.name() == old(self)@.name(),
            final(self)@.player_bag == old(self)@.player_bag,
            final(self)@.player_skill == old(self)@.player_skill,
            final(self)@.player_equip == old(self)@.player_equip,
    {
        self.add_level(exp)
    }

    // ---- money and items ----

    fn take_bag(&mut self) -> (b: PlayerBag)
        ensures
            b@ == (PlayerBagView { items: old(self)@.items(), money: old(self)@.money() }),
            final(self)@ == (PlayerDataView { player_bag: None, ..old(self)@ }),
    {
        match self.data.player_bag.take() {
            Some(b) => b,
            None => {
                let b = PlayerBag { items: Vec::new(), money: Vec::new() };
                assert(b@.items =~= Seq::empty() && b@.money =~= Seq::empty());
                b
            },
        }
    }

    /// The balance of a currency, 0 where it has no entry.
    pub fn get_money(&self, money_type: PlayerBagMoneyType) -> (r: u32)
        ensures
            r == self@.money_count(money_type_number(money_type) as int),
    {
        let k = money_type.value();
        match &self.data.player_bag {
            Some(b) => value_of_key(&b.money, k as i64),
            None => 0,
        }
    }

    /// Adds `amount` to a currency, saturating, and returns the new balance; a
    /// currency without an entry gets one.
    pub fn add_money(&mut self, money_type: PlayerBagMoneyType, amount: u32) -> (r: u32)
        ensures
            old(self)@.well_formed() ==> final(self)@.well_formed(),
            r == saturated(old(self)@.money_count(money_type_number(money_type) as int) + amount),
            final(self)@ == with_money(
                old(self)@,
                upsert(old(self)@.money(), money_type_number(money_type) as int, r as int),
            ),
            has_key(final(self)@.money(), money_type_number(money_type) as int),
            final(self)@.money_count(money_type_number(money_type) as int) == r,
            keeps_other_keys(old(self)@.money(), final(self)@.money(), money_type_number(money_type) as int),
            final(self)@.items() == old(self)@.items(),
            final(self)@.player_base == old(self)@.player_base,
            final(self)@.player_skill == old(self)@.player_skill,
            final(self)@.player_equip == old(self)@.player_equip,
    {
        proof {
            let k = money_type_number(money_type) as int;
            lemma_set_key(old(self)@.money(), k, saturated(old(self)@.money_count(k) + amount) as int);
        }
        let k = money_type.value();
        let mut bag = self.take_bag();
        let r = match find_index(&bag.money, k as i64) {
            Some(i) => {
                let n = bag.money[i].money_count.saturating_add(amount);
                set_value_at(&mut bag.money, i, n);
                n
            },
            None => {
                let ghost before = bag.money@;
                bag.money.push(PlayerBagMoney { money_type: k, money_count: amount });
                proof {
                    lemma_pairs_push(before, PlayerBagMoney { money_type: k, money_count: amount });
                }
                amount
            },
        };
        self.data.player_bag = Some(bag);
        r
    }

    /// Takes `amount` of a currency and returns the new balance; fails, with
    /// only a missing bag created, where the currency has no entry or too little.
    pub fn sub_money(&mut self, money_type: PlayerBagMoneyType, amount: u32) -> (r: Result<u32, &'static str>)
        ensures
            old(self)@.well_formed() ==> final(self)@.well_formed(),
            ({
                let o = old(self)@;
                let k = money_type_number(money_type) as int;
                match r {
                    Ok(n) => !money_take_fails(o, k, amount) && n == o.money_count(k) - amount
                        && final(self)@ == money_taken(o, k, amount),
                    Err(e) => money_take_fails(o, k, amount) && e@ == money_take_error(o, k)
                        && final(self)@ == with_money(o, o.money()),
                }
            }),
            ({
                let o = old(self)@;
                let p = final(self)@;
                let k = money_type_number(money_type) as int;
                &&& r is Ok <==> has_key(o.money(), k) && o.money_count(k) >= amount
                &&& r matches Ok(n) ==> {
                    &&& n == o.money_count(k) - amount
                    &&& has_key(p.money(), k)
                    &&& p.money_count(k) == n
                    &&& keeps_other_keys(o.money(), p.money(), k)
                }
                &&& r matches Err(e) ==> p.money() == o.money() && e@ == if has_key(o.money(), k) {
                    "insufficient money"@
                } else {
                    "money type not found"@
                }
            }),
            final(self)@.items() == old(self)@.items(),
            final(self)@.player_base == old(self)@.player_base,
            final(self)@.player_skill == old(self)@.player_skill,
            final(self)@.player_equip == old(self)@.player_equip,
    {
        proof {
            let k = money_type_number(money_type) as int;
            lemma_set_key(old(self)@.money(), k, old(self)@.money_count(k) - amount);
        }
        let k = money_type.value();
        let mut bag = self.take_bag();
        match find_index(&bag.money, k as i64) {
            None => {
                self.data.player_bag = Some(bag);
                Err("money type not found")
            },
            Some(i) => {
                let c = bag.money[i].money_count;
                if c < amount {
                    self.data.player_bag = Some(bag);
                    Err("insufficient money")
                } else {
                    set_value_at(&mut bag.money, i, c - amount);
                    self.data.player_bag = Some(bag);
                    Ok(c - amount)
                }
            },
        }
    }

    /// The count of an item, 0 where it has no stack.
    pub fn get_item_count(&self, item_id: u32) -> (r: u32)
        ensures
            r == self@.item_count(item_id as int),
    {
        match &self.data.player_bag {
            Some(b) => value_of_key(&b.items, item_id as i64),
            None => 0,
        }
    }

    /// Adds `count` of an item, saturating, and returns the new count; an item
    /// without a stack gets one.
    pub fn add_item(&mut self, item_id: u32, count: u32) -> (r: u32)
        ensures
            old(self)@.well_formed() ==> final(self)@.well_formed(),
            r == saturated(old(self)@.item_count(item_id as int) + count),
            final(self)@ == with_items(
                old(self)@,
                upsert(old(self)@.items(), item_id as int, r as int),
            ),
            has_key(final(self)@.items(), item_id as int),
            final(self)@.item_count(item_id as int) == r,
            keeps_other_keys(old(self)@.items(), final(self)@.items(), item_id as int),
            final(self)@.money() == old(self)@.money(),
            final(self)@.player_base == old(self)@.player_base,
            final(self)@.player_skill == old(self)@.player_skill,
            final(self)@.player_equip == old(self)@.player_equip,
    {
        proof {
            let k = item_id as int;
            lemma_set_key(old(self)@.items(), k, saturated(old(self)@.item_count(k) + count) as int);
        }
        let mut bag = self.take_bag();
        let r = match find_index(&bag.items, item_id as i64) {
            Some(i) => {
                let n = bag.items[i].item_count.saturating_add(count);
                set_value_at(&mut bag.items, i, n);
                n
            },
            None => {
                let ghost before = bag.items@;
                bag.items.push(PlayerBagItem { item_id, item_count: count });
                proof {
                    lemma_pairs_push(before, PlayerBagItem { item_id, item_count: count });
                }
                count
            },
        };
        self.data.player_bag = Some(bag);
        r
    }

    /// Takes `count` of an item and returns what is left; a stack that reaches
    /// zero leaves the bag. Fails, with only a missing bag created, where the
    /// item has no stack or too few.
    pub fn sub_item(&mut self, item_id: u32, count: u32) -> (r: Result<u32, &'static str>)
        ensures
            old(self)@.well_formed() ==> final(self)@.well_formed(),
            ({
                let o = old(self)@;
                let k = item_id as int;
                match r {
                    Ok(n) => has_key(o.items(), k) && o.item_count(k) >= count && n == o.item_count(k)
                        - count && final(self)@ == with_items(
                        o,
                        if n == 0 {
                            remove_key(o.items(), k)
                        } else {
                            upsert(o.items(), k, n as int)
                        },
                    ),
                    Err(e) => (!has_key(o.items(), k) || o.item_count(k) < count) && e@ == (if !has_key(
                        o.items(),
                        k,
                    ) {
                        "item not found"@
                    } else {
                        "insufficient item count"@
                    }) && final(self)@ == with_items(o, o.items()),
                }
            }),
            ({
                let o = old(self)@;
                let p = final(self)@;
                let k = item_id as int;
                &&& r is Ok <==> has_key(o.items(), k) && o.item_count(k) >= count
                &&& r matches Ok(n) ==> {
                    &&& n == o.item_count(k) - count
                    &&& n == 0 ==> !has_key(p.items(), k)
                    &&& n > 0 ==> has_key(p.items(), k) && p.item_count(k) == n
                    &&& keeps_other_keys(o.items(), p.items(), k)
                }
                &&& r is Err ==> p.items() == o.items()
            }),
            final(self)@.money() == old(self)@.money(),
            final(self)@.player_base == old(self)@.player_base,
            final(self)@.player_skill == old(self)@.player_skill,
            final(self)@.player_equip == old(self)@.player_equip,
    {
        proof {
            let k = item_id as int;
            lemma_set_key(old(self)@.items(), k, old(self)@.item_count(k) - count);
            lemma_drop_key(old(self)@.items(), k);
        }
        let mut bag = self.take_bag();
        match find_index(&bag.items, item_id as i64) {
            None => {
                self.data.player_bag = Some(bag);
                Err("item not found")
            },
            Some(i) => {
                let c = bag.items[i].item_count;
                if c < count {
                    self.data.player_bag = Some(bag);
                    Err("insufficient item count")
                } else {
                    let remaining = c - count;
                    if remaining == 0 {
                        let kept = remove_entries(&bag.items, item_id as i64);
                        proof {
                            if old(self)@.well_formed() {
                                lemma_remove_key_distinct(old(self)@.items(), item_id as int);
                            }
                        }
                        bag.items = kept;
                    } else {
                        set_value_at(&mut bag.items, i, remaining);
                    }
                    self.data.player_bag = Some(bag);
                    Ok(remaining)
                }
            },
        }
    }

    /// Gold balance.
    pub fn gold(&self) -> (r: u32)
        ensures
            r == self@.money_count(1),
    {
        self.get_money(PlayerBagMoneyType::Gold)
    }

    /// Adds gold; see `add_money`.
    pub fn add_gold(&mut self, amount: u32) -> (r: u32)
        ensures
            old(self)@.well_formed() ==> final(self)@.well_formed(),
            r == saturated(old(self)@.money_count(1) + amount),
            final(self)@ == with_money(old(self)@, upsert(old(self)@.money(), 1, r as int)),
            has_key(final(self)@.money(), 1),
            final(self)@.money_count(1) == r,
            keeps_other_keys(old(self)@.money(), final(self)@.money(), 1),
            final(self)@.items() == old(self)@.items(),
            final(self)@.player_base == old(self)@.player_base,
            final(self)@.player_skill == old(self)@.player_skill,
            final(self)@.player_equip == old(self)@.player_equip,
    {
        self.add_money(PlayerBagMoneyType::Gold, amount)
    }

    /// Takes gold; see `sub_money`.
    pub fn sub_gold(&mut self, amount: u32) -> (r: Result<u32, &'static str>)
        ensures
            old(self)@.well_formed() ==> final(self)@.well_formed(),
            ({
                let o = old(self)@;
                match r {
                    Ok(n) => !money_take_fails(o, 1, amount) && n == o.money_count(1) - amount
                        && final(self)@ == money_taken(o, 1, amount),
                    Err(e) => money_take_fails(o, 1, amount) && e@ == money_take_error(o, 1)
                        && final(self)@ == with_money(o, o.money()),
                }
            }),
            ({
                let o = old(self)@;
                let p = final(self)@;
                let k = 1;
                &&& r is Ok <==> has_key(o.money(), k) && o.money_count(k) >= amount
                &&& r matches Ok(n) ==> {
                    &&& n == o.money_count(k) - amount
                    &&& has_key(p.money(), k)
                    &&& p.money_count(k) == n
                    &&& keeps_other_keys(o.money(), p.money(), k)
                }
                &&& r matches Err(e) ==> p.money() == o.money() && e@ == if has_key(o.money(), k) {
                    "insufficient money"@
                } else {
                    "money type not found"@
                }
            }),
            final(self)@.items() == old(self)@.items(),
            final(self)@.player_base == old(self)@.player_base,
            final(self)@.player_skill == old(self)@.player_skill,
            final(self)@.player_equip == old(self)@.player_equip,
    {
        self.sub_money(PlayerBagMoneyType::Gold, amount)
    }

    /// Diamond balance.
    pub fn diamond(&self) -> (r: u32)
        ensures
            r == self@.money_count(2),
    {
        self.get_money(PlayerBagMoneyType::Diamond)
    }

    /// Adds diamonds; see `add_money`.
    pub fn add_diamond(&mut self, amount: u32) -> (r: u32)
        ensures
            old(self)@.well_formed() ==> final(self)@.well_formed(),
            r == saturated(old(self)@.money_count(2) + amount),
            final(self)@ == with_money(old(self)@, upsert(old(self)@.money(), 2, r as int)),
            has_key(final(self)@.money(), 2),
            final(self)@.money_count(2) == r,
            keeps_other_keys(old(self)@.money(), final(self)@.money(), 2),
            final(self)@.items() == old(self)@.items(),
            final(self)@.player_base == old(self)@.player_base,
            final(self)@.player_skill == old(self)@.player_skill,
            final(self)@.player_equip == old(self)@.player_equip,
    {
        self.add_money(PlayerBagMoneyType::Diamond, amount)
    }

    /// Takes diamonds; see `sub_money`.
    pub fn sub_diamond(&mut self, amount: u32) -> (r: Result<u32, &'static str>)
        ensures
            old(self)@.well_formed() ==> final(self)@.well_formed(),
            ({
                let o = old(self)@;
                match r {
                    Ok(n) => !money_take_fails(o, 2, amount) && n == o.money_count(2) - amount
                        && final(self)@ == money_taken(o, 2, amount),
                    Err(e) => money_take_fails(o, 2, amount) && e@ == money_take_error(o, 2)
                        && final(self)@ == with_money(o, o.money()),
                }
            }),
            ({
                let o = old(self)@;
                let p = final(self)@;
                let k = 2;
                &&& r is Ok <==> has_key(o.money(), k) && o.money_count(k) >= amount
                &&& r matches Ok(n) ==> {
                    &&& n == o.money_count(k) - amount
                    &&& has_key(p.money(), k)
                    &&& p.money_count(k) == n
                    &&& keeps_other_keys(o.money(), p.money(), k)
                }
                &&& r matches Err(e) ==> p.money() == o.money() && e@ == if has_key(o.money(), k) {
                    "insufficient money"@
                } else {
                    "money type not found"@
                }
            }),
            final(self)@.items() == old(self)@.items(),
            final(self)@.player_base == old(self)@.player_base,
            final(self)@.player_skill == old(self)@.player_skill,
            final(self)@.player_equip == old(self)@.player_equip,
    {
        self.sub_money(PlayerBagMoneyType::Diamond, amount)
    }

    // ---- skills ----

    fn take_skill(&mut self) -> (sk: PlayerSkillData)
        ensures
            sk@ == (PlayerSkillDataView {
                skill_points: old(self)@.skill_points(),
                skills: old(self)@.skills(),
            }),
            final(self)@ == (PlayerDataView { player_skill: None, ..old(self)@ }),
    {
        match self.data.player_skill.take() {
            Some(sk) => sk,
            None => {
                let sk = PlayerSkillData { skill_points: 0, skills: Vec::new() };
                assert(sk@.skills =~= Seq::empty());
                sk
            },
        }
    }

    /// Unspent skill points, 0 without skill data.
    pub fn skill_points(&self) -> (r: u32)
        ensures
            r == self@.skill_points(),
    {
        match &self.data.player_skill {
            Some(sk) => sk.skill_points,
            None => 0,
        }
    }

    /// Grants skill points, saturating, and returns the new total; missing
    /// skill data is created first.
    pub fn add_skill_points(&mut self, amount: u32) -> (r: u32)
        ensures
            old(self)@.well_formed() ==> final(self)@.well_formed(),
            r == saturated(old(self)@.skill_points() + amount),
            final(self)@ == with_skills(old(self)@, r, old(self)@.skills()),
            final(self)@.skill_points() == r,
            final(self)@.skills() == old(self)@.skills(),
            final(self)@.player_bag == old(self)@.player_bag,
            final(self)@.player_base == old(self)@.player_base,
            final(self)@.player_equip == old(self)@.player_equip,
    {
        let mut sk = self.take_skill();
        sk.skill_points = sk.skill_points.saturating_add(amount);
        self.data.player_skill = Some(sk);
        self.skill_points()
    }

    /// The level of an unlocked skill, `None` for a skill not unlocked.
    pub fn skill_level(&self, skill_id: u32) -> (r: Option<u32>)
        ensures
            r == (if has_key(self@.skills(), skill_id as int) {
                Some(self@.skill_level(skill_id as int) as u32)
            } else {
                None
            }),
    {
        match &self.data.player_skill {
            Some(sk) => match find_index(&sk.skills, skill_id as i64) {
                Some(i) => Some(sk.skills[i].skill_level),
                None => None,
            },
            None => None,
        }
    }

    /// Unlocks a skill at level 1 for one skill point. Fails, unchanged, where
    /// it is unlocked already; fails, with only missing skill data created,
    /// where no point is left.
    pub fn unlock_skill(&mut self, skill_id: u32) -> (r: Result<(u32, u32), &'static str>)
        ensures
            old(self)@.well_formed() ==> final(self)@.well_formed(),
            (result_view(r), final(self)@) == unlock_skill_outcome(old(self)@, skill_id),
    {
        if self.skill_level(skill_id).is_some() {
            return Err("skill already unlocked");
        }
        let mut sk = self.take_skill();
        if sk.skill_points < 1 {
            self.data.player_skill = Some(sk);
            return Err("insufficient skill points");
        }
        sk.skill_points = sk.skill_points - 1;
        let ghost before = sk.skills@;
        sk.skills.push(PlayerSkill { skill_id, skill_level: 1 });
        proof {
            lemma_pairs_push(before, PlayerSkill { skill_id, skill_level: 1 });
        }
        self.data.player_skill = Some(sk);
        Ok((skill_id, 1))
    }

    /// Raises an unlocked skill by one level, saturating, for one skill point,
    /// and returns the skill and its new level. Fails, with only missing skill
    /// data created, where the skill is not unlocked or no point is left.
    pub fn upgrade_skill(&mut self, skill_id: u32) -> (r: Result<(u32, u32), &'static str>)
        ensures
            old(self)@.well_formed() ==> final(self)@.well_formed(),
            (result_view(r), final(self)@) == upgrade_skill_outcome(old(self)@, skill_id),
    {
        let mut sk = self.take_skill();
        match find_index(&sk.skills, skill_id as i64) {
            None => {
                self.data.player_skill = Some(sk);
                Err("skill not unlocked")
            },
            Some(i) => {
                if sk.skill_points < 1 {
                    self.data.player_skill = Some(sk);
                    return Err("insufficient skill points");
                }
                sk.skill_points = sk.skill_points - 1;
                let level = sk.skills[i].skill_level.saturating_add(1);
                set_value_at(&mut sk.skills, i, level);
                self.data.player_skill = Some(sk);
                Ok((skill_id, level))
            },
        }
    }

    // ---- equipment ----

    fn take_equip(&mut self) -> (eq: PlayerEquipData)
        ensures
            eq@ == (PlayerEquipDataView { equips: old(self)@.equips() }),
            final(self)@ == (PlayerDataView { player_equip: None, ..old(self)@ }),
    {
        match self.data.player_equip.take() {
            Some(eq) => eq,
            None => {
                let eq = PlayerEquipData { equips: Vec::new() };
                assert(eq@.equips =~= Seq::empty());
                eq
            },
        }
    }

    fn owns_equip(&self, equip_id: u32) -> (r: bool)
        ensures
            r == has_key(self@.equips(), equip_id as int),
    {
        match &self.data.player_equip {
            Some(eq) => contains_key(&eq.equips, equip_id as i64),
            None => false,
        }
    }

    /// The level of an owned piece of equipment, `None` for one not owned.
    pub fn equip_level(&self, equip_id: u32) -> (r: Option<u32>)
        ensures
            r == (if has_key(self@.equips(), equip_id as int) {
                Some(self@.equip_level(equip_id as int) as u32)
            } else {
                None
            }),
    {
        match &self.data.player_equip {
            Some(eq) => match find_index(&eq.equips, equip_id as i64) {
                Some(i) => Some(eq.equips[i].equip_level),
                None => None,
            },
            None => None,
        }
    }

    /// Buys a piece of equipment at level 1 for `EQUIP_PRICE` gold. Fails,
    /// unchanged, where it is owned already; fails as `sub_gold` does where the
    /// gold does not suffice.
    pub fn buy_equip(&mut self, equip_id: u32) -> (r: Result<(u32, u32), &'static str>)
        ensures
            old(self)@.well_formed() ==> final(self)@.well_formed(),
            (result_view(r), final(self)@) == buy_equip_outcome(old(self)@, equip_id),
    {
        if self.owns_equip(equip_id) {
            return Err("equip already owned");
        }
        match self.sub_gold(EQUIP_PRICE) {
            Err(e) => Err(e),
            Ok(_) => {
                let mut eq = self.take_equip();
                let ghost before = eq.equips@;
                eq.equips.push(PlayerEquip { equip_id, equip_level: 1 });
                proof {
                    lemma_pairs_push(before, PlayerEquip { equip_id, equip_level: 1 });
                }
                self.data.player_equip = Some(eq);
                Ok((equip_id, 1))
            },
        }
    }

    /// Raises an owned piece of equipment by one level, saturating, for
    /// `EQUIP_UPGRADE_PRICE` gold. Fails, unchanged, where it is not owned;
    /// fails as `sub_gold` does where the gold does not suffice.
    pub fn upgrade_equip(&mut self, equip_id: u32) -> (r: Result<(u32, u32), &'static str>)
        ensures
            old(self)@.well_formed() ==> final(self)@.well_formed(),
            (result_view(r), final(self)@) == upgrade_equip_outcome(old(self)@, equip_id),
    {
        if !self.owns_equip(equip_id) {
            return Err("equip not owned");
        }
        match self.sub_gold(EQUIP_UPGRADE_PRICE) {
            Err(e) => Err(e),
            Ok(_) => {
                let mut eq = self.take_equip();
                match find_index(&eq.equips, equip_id as i64) {
                    Some(i) => {
                        let level = eq.equips[i].equip_level.saturating_add(1);
                        set_value_at(&mut eq.equips, i, level);
                        self.data.player_equip = Some(eq);
                        Ok((equip_id, level))
                    },
                    None => {
                        self.data.player_equip = Some(eq);
                        Err("equip not owned")
                    },
                }
            },
        }
    }
}

/// Adding an amount of a currency and then taking the same amount succeeds
/// and gives back every balance and everything else of before, wherever the
/// add did not saturate.
pub proof fn lemma_add_then_sub_money(o: PlayerDataView, k: int, amount: u32)
    requires
        o.counts_nonnegative(),
        o.money_count(k) + amount <= u32::MAX,
    ensures
        ({
            let a = with_money(o, upsert(o.money(), k, saturated(o.money_count(k) + amount) as int));
            let t = money_taken(a, k, amount);
            &&& !money_take_fails(a, k, amount)
            &&& forall|k2: int| #[trigger] t.money_count(k2) == o.money_count(k2)
            &&& t.items() == o.items()
            &&& t.player_base == o.player_base
            &&& t.player_skill == o.player_skill
            &&& t.player_equip == o.player_equip
        }),
{
    lemma_lookup_nonnegative(o.money(), k);
    let n = saturated(o.money_count(k) + amount) as int;
    let am = upsert(o.money(), k, n);
    lemma_upsert(o.money(), k, n);
    lemma_upsert(am, k, n - amount);
    assert(has_key(am, k));
}

/// Every key other than `k` occurs in `after` exactly where it occurs in
/// `before`, and reads the same value.
pub open spec fn keeps_other_keys(before: Seq<(int, int)>, after: Seq<(int, int)>, k: int) -> bool {
    &&& forall|k2: int| k2 != k ==> #[trigger] has_key(after, k2) == has_key(before, k2)
    &&& forall|k2: int| k2 != k ==> #[trigger] lookup(after, k2) == lookup(before, k2)
}

/// `level` is one above `old`, or the largest `u32` where that would not fit.
pub open spec fn one_level_up(old: int, level: u32) -> bool {
    if old < u32::MAX {
        level == old + 1
    } else {
        level == u32::MAX
    }
}

/// Setting key `k` of a keyed list to `v`: `k` then occurs with value `v`,
/// and every other key is as it was.
pub proof fn lemma_set_key(s: Seq<(int, int)>, k: int, v: int)
    ensures
        has_key(upsert(s, k, v), k),
        lookup(upsert(s, k, v), k) == v,
        keeps_other_keys(s, upsert(s, k, v), k),
{
    lemma_upsert(s, k, v);
}

/// Dropping key `k` from a keyed list: `k` no longer occurs, and every other
/// key is as it was.
proof fn lemma_drop_key(s: Seq<(int, int)>, k: int)
    ensures
        !has_key(remove_key(s, k), k),
        keeps_other_keys(s, remove_key(s, k), k),
{
    lemma_lookup_remove_key(s, k, k);
    assert forall|k2: int| k2 != k implies #[trigger] lookup(remove_key(s, k), k2) == lookup(s, k2) by {
        lemma_lookup_remove_key(s, k, k2);
    }
}

/// Saturating addition: a sum of counts that fits is kept, one that does not
/// becomes the largest `u32`.
pub proof fn lemma_saturated(x: int)
    requires
        0 <= x,
    ensures
        x <= u32::MAX ==> saturated(x) == x,
        x > u32::MAX ==> saturated(x) == u32::MAX,
{
}

/// What `keeps_other_keys` promises: any key but `k` occurs afterwards exactly
/// where it occurred before, with the same value.
pub proof fn lemma_keeps_other_keys(before: Seq<(int, int)>, after: Seq<(int, int)>, k: int, k2: int)
    requires
        keeps_other_keys(before, after, k),
        k2 != k,
    ensures
        has_key(after, k2) == has_key(before, k2),
        lookup(after, k2) == lookup(before, k2),
{
}

/// What `one_level_up` promises: the old level plus one, capped at the
/// largest `u32`.
pub proof fn lemma_one_level_up(old: int, level: u32)
    requires
        one_level_up(old, level),
    ensures
        old < u32::MAX ==> level == old + 1,
        old >= u32::MAX ==> level == u32::MAX,
{
}

/// Upgrading equipment `k` succeeds exactly where it is owned and at least
/// 100 gold is at hand. It then answers `(k, level)` with `level` one above
/// the old level, raises that piece and no other to `level`, takes exactly
/// 100 gold and leaves every other balance, the items, the skills and the
/// base alone. A failed upgrade changes no equipment, no balance and nothing
/// else, and says why. (Every value of a real record is at least 0.)
pub proof fn lemma_upgrade_equip_law(o: PlayerDataView, k: u32)
    requires
        o.counts_nonnegative(),
    ensures
        ({
            let (r, p) = upgrade_equip_outcome(o, k);
            let owned = has_key(o.equips(), k as int);
            let gold_ok = has_key(o.money(), 1) && o.money_count(1) >= 100;
            &&& r is Ok <==> owned && gold_ok
            &&& !owned ==> r == Err::<(u32, u32), Seq<char>>("equip not owned"@)
            &&& owned && !has_key(o.money(), 1) ==> r == Err::<(u32, u32), Seq<char>>("money type not found"@)
            &&& owned && has_key(o.money(), 1) && !gold_ok ==> r == Err::<(u32, u32), Seq<char>>(
                "insufficient money"@,
            )
            &&& r matches Ok((id, level)) ==> {
                &&& id == k
                &&& one_level_up(o.equip_level(k as int), level)
                &&& has_key(p.equips(), k as int)
                &&& p.equip_level(k as int) == level
                &&& keeps_other_keys(o.equips(), p.equips(), k as int)
                &&& p.money_count(1) == o.money_count(1) - 100
                &&& keeps_other_keys(o.money(), p.money(), 1)
            }
            &&& r is Err ==> p.equips() == o.equips() && p.money() == o.money()
            &&& p.items() == o.items()
            &&& p.player_skill == o.player_skill
            &&& p.player_base == o.player_base
        }),
{
    let ki = k as int;
    lemma_lookup_nonnegative(o.equips(), ki);
    if has_key(o.equips(), ki) && !money_take_fails(o, 1, EQUIP_UPGRADE_PRICE) {
        let level = saturated(o.equip_level(ki) + 1);
        lemma_upsert(o.equips(), ki, level as int);
        lemma_upsert(o.money(), 1, o.money_count(1) - EQUIP_UPGRADE_PRICE);
    }
}

/// Buying equipment `k` succeeds exactly where it is not owned yet and at
/// least 500 gold is at hand. It then answers `(k, 1)`, adds `k` at level 1,
/// keeps every piece owned before at its level, takes exactly 500 gold and
/// leaves every other balance, the items, the skills and the base alone. A
/// failed purchase changes no equipment, no balance and nothing else, and
/// says why.
pub proof fn lemma_buy_equip_law(o: PlayerDataView, k: u32)
    ensures
        ({
            let (r, p) = buy_equip_outcome(o, k);
            let owned = has_key(o.equips(), k as int);
            let gold_ok = has_key(o.money(), 1) && o.money_count(1) >= 500;
            &&& r is Ok <==> !owned && gold_ok
            &&& owned ==> r == Err::<(u32, u32), Seq<char>>("equip already owned"@)
            &&& !owned && !has_key(o.money(), 1) ==> r == Err::<(u32, u32), Seq<char>>("money type not found"@)
            &&& !owned && has_key(o.money(), 1) && !gold_ok ==> r == Err::<(u32, u32), Seq<char>>(
                "insufficient money"@,
            )
            &&& r is Ok ==> {
                &&& r == Ok::<(u32, u32), Seq<char>>((k, 1))
                &&& has_key(p.equips(), k as int)
                &&& p.equip_level(k as int) == 1
                &&& keeps_other_keys(o.equips(), p.equips(), k as int)
                &&& p.money_count(1) == o.money_count(1) - 500
                &&& keeps_other_keys(o.money(), p.money(), 1)
            }
            &&& r is Err ==> p.equips() == o.equips() && p.money() == o.money()
            &&& p.items() == o.items()
            &&& p.player_skill == o.player_skill
            &&& p.player_base == o.player_base
        }),
{
    let ki = k as int;
    if !has_key(o.equips(), ki) && !money_take_fails(o, 1, EQUIP_PRICE) {
        lemma_upsert(o.money(), 1, o.money_count(1) - EQUIP_PRICE);
        lemma_lookup_push(o.equips(), (ki, 1), ki);
        assert forall|k2: int| k2 != ki implies #[trigger] has_key(o.equips().push((ki, 1)), k2) == has_key(
            o.equips(),
            k2,
        ) by {
            lemma_has_key_push(o.equips(), (ki, 1), k2);
        }
        assert forall|k2: int| k2 != ki implies #[trigger] lookup(o.equips().push((ki, 1)), k2) == lookup(
            o.equips(),
            k2,
        ) by {
            lemma_lookup_push(o.equips(), (ki, 1), k2);
        }
        lemma_has_key_push(o.equips(), (ki, 1), ki);
    }
}

/// Unlocking skill `k` succeeds exactly where it is not unlocked yet and a
/// skill point is left. It then answers `(k, 1)`, adds `k` at level 1, keeps
/// every skill unlocked before at its level, spends exactly one point and
/// leaves the money, the items, the equipment and the base alone. A failed
/// unlock changes no skill and no points, and says why.
pub proof fn lemma_unlock_skill_law(o: PlayerDataView, k: u32)
    ensures
        ({
            let (r, p) = unlock_skill_outcome(o, k);
            let unlocked = has_key(o.skills(), k as int);
            &&& r is Ok <==> !unlocked && o.skill_points() >= 1
            &&& unlocked ==> r == Err::<(u32, u32), Seq<char>>("skill already unlocked"@)
            &&& !unlocked && o.skill_points() == 0 ==> r == Err::<(u32, u32), Seq<char>>(
                "insufficient skill points"@,
            )
            &&& r is Ok ==> {
                &&& r == Ok::<(u32, u32), Seq<char>>((k, 1))
                &&& has_key(p.skills(), k as int)
                &&& p.skill_level(k as int) == 1
                &&& keeps_other_keys(o.skills(), p.skills(), k as int)
                &&& p.skill_points() == o.skill_points() - 1
            }
            &&& r is Err ==> p.skills() == o.skills() && p.skill_points() == o.skill_points()
            &&& p.player_bag == o.player_bag
            &&& p.player_equip == o.player_equip
            &&& p.player_base == o.player_base
        }),
{
    let ki = k as int;
    if !has_key(o.skills(), ki) && o.skill_points() >= 1 {
        lemma_lookup_push(o.skills(), (ki, 1), ki);
        assert forall|k2: int| k2 != ki implies #[trigger] has_key(o.skills().push((ki, 1)), k2) == has_key(
            o.skills(),
            k2,
        ) by {
            lemma_has_key_push(o.skills(), (ki, 1), k2);
        }
        assert forall|k2: int| k2 != ki implies #[trigger] lookup(o.skills().push((ki, 1)), k2) == lookup(
            o.skills(),
            k2,
        ) by {
            lemma_lookup_push(o.skills(), (ki, 1), k2);
        }
        lemma_has_key_push(o.skills(), (ki, 1), ki);
    }
}

/// Upgrading skill `k` succeeds exactly where it is unlocked and a skill
/// point is left. It then answers `(k, level)` with `level` one above the old
/// level, raises that skill and no other to `level`, spends exactly one point
/// and leaves the money, the items, the equipment and the base alone. A
/// failed upgrade changes no skill and no points, and says why.
pub proof fn lemma_upgrade_skill_law(o: PlayerDataView, k: u32)
    requires
        o.counts_nonnegative(),
    ensures
        ({
            let (r, p) = upgrade_skill_outcome(o, k);
            let unlocked = has_key(o.skills(), k as int);
            &&& r is Ok <==> unlocked && o.skill_points() >= 1
            &&& !unlocked ==> r == Err::<(u32, u32), Seq<char>>("skill not unlocked"@)
            &&& unlocked && o.skill_points() == 0 ==> r == Err::<(u32, u32), Seq<char>>(
                "insufficient skill points"@,
            )
            &&& r matches Ok((id, level)) ==> {
                &&& id == k
                &&& one_level_up(o.skill_level(k as int), level)
                &&& has_key(p.skills(), k as int)
                &&& p.skill_level(k as int) == level
                &&& keeps_other_keys(o.skills(), p.skills(), k as int)
                &&& p.skill_points() == o.skill_points() - 1
            }
            &&& r is Err ==> p.skills() == o.skills() && p.skill_points() == o.skill_points()
            &&& p.player_bag == o.player_bag
            &&& p.player_equip == o.player_equip
            &&& p.player_base == o.player_base
        }),
{
    let ki = k as int;
    lemma_lookup_nonnegative(o.skills(), ki);
    if has_key(o.skills(), ki) && o.skill_points() >= 1 {
        let level = saturated(o.skill_level(ki) + 1);
        lemma_upsert(o.skills(), ki, level as int);
    }
}

} // verus!
