//! The pool of loaded players, keyed by player id.
use crate::keyed::pairs;
use crate::model::{
    PlayerBag, PlayerBagItem, PlayerBagMoney, PlayerBagView, PlayerBase, PlayerBaseView, PlayerData,
    PlayerDataView,
};
use crate::player::Player;
use std::collections::hash_map::Entry;
use std::collections::HashMap;
use vstd::prelude::*;

verus! {

broadcast use vstd::std_specs::hash::group_hash_axioms;

/// Loaded players by id.
pub struct PlayerPool {
    players: HashMap<u64, Player>,
}

impl View for PlayerPool {
    type V = Map<u64, PlayerDataView>;

    closed spec fn view(&self) -> Map<u64, PlayerDataView> {
        self.players@.map_values(|p: Player| p@)
    }
}

/// The record of the sample player `alice`.
pub open spec fn alice_view() -> PlayerDataView {
    PlayerDataView {
        player_base: Some(PlayerBaseView { player_id: 1, player_name: "alice"@, player_level: 10 }),
        player_bag: Some(PlayerBagView { items: seq![(1001int, 5int)], money: seq![(1int, 1000int)] }),
        player_skill: None,
        player_equip: None,
    }
}

/// The record of the sample player `bob`.
pub open spec fn bob_view() -> PlayerDataView {
    PlayerDataView {
        player_base: Some(PlayerBaseView { player_id: 2, player_name: "bob"@, player_level: 20 }),
        player_bag: Some(
            PlayerBagView {
                items: seq![(2001int, 3int), (2002int, 1int)],
                money: seq![(1int, 500int), (2int, 50int)],
            },
        ),
        player_skill: None,
        player_equip: None,
    }
}

impl PlayerPool {
    /// An empty pool.
    pub fn new() -> (r: PlayerPool)
        ensures
            r@ == Map::<u64, PlayerDataView>::empty(),
    {
        let r = PlayerPool { players: HashMap::new() };
        assert(r@ =~= Map::<u64, PlayerDataView>::empty());
        r
    }

    /// The pool the server starts with: `alice` (id 1) and `bob` (id 2).
    pub fn with_sample_players() -> (r: PlayerPool)
        ensures
            r@ == Map::<u64, PlayerDataView>::empty().insert(1, alice_view()).insert(2, bob_view()),
    {
        let mut pool = PlayerPool::new();

        let mut alice_items: Vec<PlayerBagItem> = Vec::new();
        alice_items.push(PlayerBagItem { item_id: 1001, item_count: 5 });
        let mut alice_money: Vec<PlayerBagMoney> = Vec::new();
        alice_money.push(PlayerBagMoney { money_type: 1, money_count: 1000 });
        let alice = PlayerData {
            player_base: Some(
                PlayerBase { player_id: 1, player_name: "alice".to_string(), player_level: 10 },
            ),
            player_bag: Some(PlayerBag { items: alice_items, money: alice_money }),
            player_skill: None,
            player_equip: None,
        };
        assert(pairs(alice_items@) =~= seq![(1001int, 5int)]);
        assert(pairs(alice_money@) =~= seq![(1int, 1000int)]);
        assert(alice@ == alice_view());
        pool.load(alice);

        let mut bob_items: Vec<PlayerBagItem> = Vec::new();
        bob_items.push(PlayerBagItem { item_id: 2001, item_count: 3 });
        bob_items.push(PlayerBagItem { item_id: 2002, item_count: 1 });
        let mut bob_money: Vec<PlayerBagMoney> = Vec::new();
        bob_money.push(PlayerBagMoney { money_type: 1, money_count: 500 });
        bob_money.push(PlayerBagMoney { money_type: 2, money_count: 50 });
        let bob = PlayerData {
            player_base: Some(
                PlayerBase { player_id: 2, player_name: "bob".to_string(), player_level: 20 },
            ),
            player_bag: Some(PlayerBag { items: bob_items, money: bob_money }),
            player_skill: None,
            player_equip: None,
        };
        assert(pairs(bob_items@) =~= seq![(2001int, 3int), (2002int, 1int)]);
        assert(pairs(bob_money@) =~= seq![(1int, 500int), (2int, 50int)]);
        assert(bob@ == bob_view());
        pool.load(bob);
        pool
    }

    /// Puts a player in the pool under its own id; a player already there under
    /// that id is replaced and handed back.
    pub fn add(&mut self, player: Player) -> (r: Option<Player>)
        ensures
            final(self)@ == old(self)@.insert(player@.id(), player@),
            match r {
                Some(p) => old(self)@.contains_key(player@.id()) && p@ == old(self)@[player@.id()],
                None => !old(self)@.contains_key(player@.id()),
            },
    {
        let id = player.player_id();
        let r = self.players.insert(id, player);
        assert(self@ =~= old(self)@.insert(player@.id(), player@));
        r
    }

    /// Creates a player from a record and adds it; see `add`.
    pub fn load(&mut self, data: PlayerData) -> (r: Option<Player>)
        ensures
            final(self)@ == old(self)@.insert(data@.id(), data@),
            match r {
                Some(p) => old(self)@.contains_key(data@.id()) && p@ == old(self)@[data@.id()],
                None => !old(self)@.contains_key(data@.id()),
            },
    {
        let player = Player::new(data);
        self.add(player)
    }

    /// Unloads a player and hands it back.
    pub fn remove(&mut self, player_id: u64) -> (r: Option<Player>)
        ensures
            final(self)@ == old(self)@.remove(player_id),
            match r {
                Some(p) => old(self)@.contains_key(player_id) && p@ == old(self)@[player_id],
                None => !old(self)@.contains_key(player_id),
            },
    {
        let r = self.players.remove(&player_id);
        assert(self@ =~= old(self)@.remove(player_id));
        r
    }

    /// The player with an id, if loaded.
    pub fn get(&self, player_id: u64) -> (r: Option<&Player>)
        ensures
            match r {
                Some(p) => self@.contains_key(player_id) && p@ == self@[player_id],
                None => !self@.contains_key(player_id),
            },
    {
        self.players.get(&player_id)
    }

    /// The player with an id, if loaded, for changes in place.
    pub fn get_mut(&mut self, player_id: u64) -> (r: Option<&mut Player>)
        ensures
            match r {
                Some(p) => old(self)@.contains_key(player_id) && p@ == old(self)@[player_id]
                    && final(self)@ == old(self)@.insert(player_id, final(p)@),
                None => !old(self)@.contains_key(player_id) && final(self)@ == old(self)@,
            },
    {
        match self.players.entry(player_id) {
            Entry::Occupied(e) => Some(e.into_mut()),
            Entry::Vacant(_) => None,
        }
    }

    /// The number of loaded players.
    pub fn len(&self) -> (r: usize)
        ensures
            r == self@.len(),
    {
        assert(self@.dom() =~= self.players@.dom());
        self.players.len()
    }

    /// Whether no player is loaded.
    pub fn is_empty(&self) -> (r: bool)
        ensures
            r == (self@.len() == 0),
    {
        assert(self@.dom() =~= self.players@.dom());
        self.players.is_empty()
    }

    /// Whether a player is loaded.
    pub fn contains(&self, player_id: u64) -> (r: bool)
        ensures
            r == self@.contains_key(player_id),
    {
        self.players.contains_key(&player_id)
    }
}

} // verus!
