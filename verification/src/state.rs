//! The process-wide game state: one record store per entity kind plus the
//! shared monotonic identifier counter, the per-kind CRUD operations, and the
//! two cross-entity transactions.
//!
//! Every operation runs to completion on an exclusively held state, so each
//! is atomic by construction: it either completes and its effect is exactly
//! what the contract states, or it fails and the state is untouched.

use crate::entity::Achievement;
use crate::entity::AchievementModel;
use crate::entity::AchievementPayload;
use crate::entity::InventoryItem;
use crate::entity::InventoryItemModel;
use crate::entity::InventoryItemPayload;
use crate::entity::Player;
use crate::entity::PlayerModel;
use crate::entity::PlayerPayload;
use crate::errors::achievement_not_found_text;
use crate::errors::earn_achievement_not_found_text;
use crate::errors::earn_player_not_found_text;
use crate::errors::item_not_found_text;
use crate::errors::not_found_msg;
use crate::errors::player_not_found_text;
use crate::errors::Error;
use crate::store::RecordStore;
use vstd::prelude::*;

verus! {

/// The whole persistent state: three identifier-keyed stores and the counter
/// they all draw identifiers from.
pub struct GameState {
    counter: u64,
    players: RecordStore<Player>,
    achievements: RecordStore<Achievement>,
    inventory: RecordStore<InventoryItem>,
}

impl GameState {
    /// The last identifier handed out; identifiers start at 1.
    pub closed spec fn id_counter(self) -> u64 {
        self.counter
    }

    /// The stored players, by identifier.
    pub closed spec fn players(self) -> Map<u64, PlayerModel> {
        self.players.contents()
    }

    /// The stored player identifiers, ascending.
    pub closed spec fn player_ids(self) -> Seq<u64> {
        self.players.key_seq()
    }

    /// The stored players in ascending identifier order: what a full read
    /// returns.
    pub open spec fn player_list(self) -> Seq<PlayerModel> {
        Seq::new(self.player_ids().len(), |i: int| self.players()[self.player_ids()[i]])
    }

    /// The stored achievements, by identifier.
    pub closed spec fn achievements(self) -> Map<u64, AchievementModel> {
        self.achievements.contents()
    }

    /// The stored achievement identifiers, ascending.
    pub closed spec fn achievement_ids(self) -> Seq<u64> {
        self.achievements.key_seq()
    }

    /// The stored achievements in ascending identifier order.
    pub open spec fn achievement_list(self) -> Seq<AchievementModel> {
        Seq::new(self.achievement_ids().len(), |i: int| self.achievements()[self.achievement_ids()[i]])
    }

    /// The stored inventory items, by identifier.
    pub closed spec fn inventory(self) -> Map<u64, InventoryItemModel> {
        self.inventory.contents()
    }

    /// The stored inventory item identifiers, ascending.
    pub closed spec fn inventory_ids(self) -> Seq<u64> {
        self.inventory.key_seq()
    }

    /// The stored inventory items in ascending identifier order.
    pub open spec fn inventory_list(self) -> Seq<InventoryItemModel> {
        Seq::new(self.inventory_ids().len(), |i: int| self.inventory()[self.inventory_ids()[i]])
    }

    spec fn stores_well_formed(self) -> bool {
        &&& self.players.well_formed()
        &&& self.achievements.well_formed()
        &&& self.inventory.well_formed()
    }

    /// The state invariant: every stored identifier was drawn from the shared
    /// counter (so none exceeds it), every record is keyed by its own embedded
    /// identifier, and each kind's identifier sequence indexes its map.
    pub closed spec fn well_formed(self) -> bool {
        &&& self.stores_well_formed()
        &&& self.bounded_ids()
    }

    /// The publicly visible part of the invariant: every mapped identifier is
    /// at most the counter, keys its own record, and appears in its kind's
    /// identifier sequence; each identifier sequence is strictly ascending
    /// (hence duplicate-free) and lists only mapped identifiers.
    pub open spec fn bounded_ids(self) -> bool {
        &&& forall|id: u64|
            #[trigger] self.players().dom().contains(id) ==> id <= self.id_counter()
                && self.players()[id].id == id && self.player_ids().contains(id)
        &&& forall|id: u64|
            #[trigger] self.achievements().dom().contains(id) ==> id <= self.id_counter()
                && self.achievements()[id].id == id && self.achievement_ids().contains(id)
        &&& forall|id: u64|
            #[trigger] self.inventory().dom().contains(id) ==> id <= self.id_counter()
                && self.inventory()[id].id == id && self.inventory_ids().contains(id)
        &&& forall|i: int, j: int|
            0 <= i < j < self.player_ids().len() ==> self.player_ids()[i] < self.player_ids()[j]
        &&& forall|i: int, j: int|
            0 <= i < j < self.achievement_ids().len() ==> self.achievement_ids()[i]
                < self.achievement_ids()[j]
        &&& forall|i: int, j: int|
            0 <= i < j < self.inventory_ids().len() ==> self.inventory_ids()[i]
                < self.inventory_ids()[j]
        &&& forall|i: int|
            0 <= i < self.player_ids().len() ==> self.players().dom().contains(
                #[trigger] self.player_ids()[i],
            )
        &&& forall|i: int|
            0 <= i < self.achievement_ids().len() ==> self.achievements().dom().contains(
                #[trigger] self.achievement_ids()[i],
            )
        &&& forall|i: int|
            0 <= i < self.inventory_ids().len() ==> self.inventory().dom().contains(
                #[trigger] self.inventory_ids()[i],
            )
        &&& self.achievement_refs_exist()
    }

    /// Every identifier in a stored player's achievement list names an
    /// achievement that exists in the achievement store.
    pub open spec fn achievement_refs_exist(self) -> bool {
        forall|id: u64, k: int|
            self.players().dom().contains(id) && 0 <= k < self.players()[id].achievements.len()
                ==> self.achievements().dom().contains(
                #[trigger] self.players()[id].achievements[k],
            )
    }

    /// The invariant implies its visible part.
    pub proof fn lemma_well_formed_bounded(self)
        requires
            self.well_formed(),
        ensures
            self.bounded_ids(),
    {
    }

    /// A fresh state: empty stores, counter zero.
    pub fn new() -> (r: GameState)
        ensures
            r.well_formed(),
            r.id_counter() == 0,
            r.players() == Map::<u64, PlayerModel>::empty(),
            r.achievements() == Map::<u64, AchievementModel>::empty(),
            r.inventory() == Map::<u64, InventoryItemModel>::empty(),
            r.player_ids() == Seq::<u64>::empty(),
            r.achievement_ids() == Seq::<u64>::empty(),
            r.inventory_ids() == Seq::<u64>::empty(),
    {
        GameState {
            counter: 0,
            players: RecordStore::new(),
            achievements: RecordStore::new(),
            inventory: RecordStore::new(),
        }
    }

    /// Reads the counter: the last identifier handed out, 0 in a fresh state.
    pub fn current_id_counter(&self) -> (c: u64)
        ensures
            c == self.id_counter(),
    {
        self.counter
    }

    /// Allocates the next identifier: strictly greater than every identifier
    /// handed out before, shared by all entity kinds.
    fn next_id(&mut self) -> (id: u64)
        requires
            old(self).well_formed(),
            old(self).id_counter() < u64::MAX,
        ensures
            final(self).well_formed(),
            id == old(self).id_counter() + 1,
            final(self).id_counter() == id,
            final(self).players() == old(self).players(),
            final(self).achievements() == old(self).achievements(),
            final(self).inventory() == old(self).inventory(),
            final(self).player_ids() == old(self).player_ids(),
            final(self).achievement_ids() == old(self).achievement_ids(),
            final(self).inventory_ids() == old(self).inventory_ids(),
    {
        self.counter = self.counter + 1;
        proof {
            assert forall|id: u64| #[trigger] self.players().dom().contains(id) implies id
                <= self.id_counter() && self.players()[id].id == id by {
                assert(old(self).players().dom().contains(id));
            }
            assert forall|id: u64| #[trigger] self.achievements().dom().contains(id) implies id
                <= self.id_counter() && self.achievements()[id].id == id by {
                assert(old(self).achievements().dom().contains(id));
            }
            assert forall|id: u64| #[trigger] self.inventory().dom().contains(id) implies id
                <= self.id_counter() && self.inventory()[id].id == id by {
                assert(old(self).inventory().dom().contains(id));
            }
            assert forall|id: u64, k: int|
                self.players().dom().contains(id) && 0 <= k < self.players()[id].achievements.len()
                implies self.achievements().dom().contains(
                #[trigger] self.players()[id].achievements[k],
            ) by {
                assert(old(self).players().dom().contains(id));
                assert(old(self).achievements().dom().contains(
                    old(self).players()[id].achievements[k],
                ));
            }
        }
        self.counter
    }
}

/// Searches a plain vector for a value.
fn vec_contains_u64(v: &Vec<u64>, x: u64) -> (b: bool)
    ensures
        b == v@.contains(x),
{
    let n = v.len();
    let mut i: usize = 0;
    #[verifier::loop_isolation(false)]
    while i < n
        invariant
            n == v@.len(),
            i <= n,
            forall|j: int| 0 <= j < i ==> v@[j] != x,
        decreases n - i,
    {
        if v[i] == x {
            proof {
                assert(v@[i as int] == x);
            }
            return true;
        }
        i += 1;
    }
    proof {
        if v@.contains(x) {
            let j = choose|j: int| 0 <= j < v@.len() && v@[j] == x;
            assert(v@[j] != x);
        }
    }
    false
}

impl GameState {
    /// Internal player lookup: the stored record, cloned.
    pub fn _get_player(&self, id: u64) -> (r: Option<Player>)
        requires
            self.well_formed(),
        ensures
            match r {
                Some(p) => self.players().dom().contains(id) && p@ == self.players()[id],
                None => !self.players().dom().contains(id),
            },
    {
        match self.players.get(id) {
            Some(p) => Some(p.clone()),
            None => None,
        }
    }

    /// Internal player upsert, keyed by the record's own identifier, which
    /// must have been drawn from the shared counter.
    pub fn do_insert_player(&mut self, player: &Player)
        requires
            old(self).well_formed(),
            player.id <= old(self).id_counter(),
            forall|k: int|
                0 <= k < player@.achievements.len() ==> old(self).achievements().dom().contains(
                    #[trigger] player@.achievements[k],
                ),
        ensures
            final(self).well_formed(),
            final(self).id_counter() == old(self).id_counter(),
            final(self).players() == old(self).players().insert(player.id, player@),
            final(self).achievements() == old(self).achievements(),
            final(self).inventory() == old(self).inventory(),
            final(self).achievement_ids() == old(self).achievement_ids(),
            final(self).inventory_ids() == old(self).inventory_ids(),
            old(self).players().dom().contains(player.id) ==> final(self).player_ids() == old(self).player_ids(),
            !old(self).players().dom().contains(player.id) ==> final(self).player_ids().len()
                == old(self).player_ids().len() + 1,
            (forall|i: int|
                0 <= i < old(self).player_ids().len() ==> old(self).player_ids()[i] < player.id)
                ==> final(self).player_ids() == old(self).player_ids().push(player.id),
    {
        self.players.insert(player.id, player.clone());
        proof {
            assert forall|id: u64| #[trigger] self.players().dom().contains(id) implies id
                <= self.id_counter() && self.players()[id].id == id by {
                if id != player.id {
                    assert(old(self).players().dom().contains(id));
                }
            }
            assert forall|id: u64| #[trigger] self.achievements().dom().contains(id) implies id
                <= self.id_counter() && self.achievements()[id].id == id by {
                assert(old(self).achievements().dom().contains(id));
            }
            assert forall|id: u64| #[trigger] self.inventory().dom().contains(id) implies id
                <= self.id_counter() && self.inventory()[id].id == id by {
                assert(old(self).inventory().dom().contains(id));
            }
            assert forall|id: u64, k: int|
                self.players().dom().contains(id) && 0 <= k < self.players()[id].achievements.len()
                implies self.achievements().dom().contains(
                #[trigger] self.players()[id].achievements[k],
            ) by {
                if id == player.id {
                    assert(self.players()[id] == player@);
                } else {
                    assert(old(self).players().dom().contains(id));
                    assert(old(self).achievements().dom().contains(
                        old(self).players()[id].achievements[k],
                    ));
                }
            }
        }
    }

    /// Internal achievement lookup: the stored record, cloned.
    pub fn _get_achievement(&self, id: u64) -> (r: Option<Achievement>)
        requires
            self.well_formed(),
        ensures
            match r {
                Some(a) => self.achievements().dom().contains(id) && a@ == self.achievements()[id],
                None => !self.achievements().dom().contains(id),
            },
    {
        match self.achievements.get(id) {
            Some(a) => Some(a.clone()),
            None => None,
        }
    }

    /// Internal achievement upsert, keyed by the record's own identifier,
    /// which must have been drawn from the shared counter.
    pub fn do_insert_achievement(&mut self, achievement: &Achievement)
        requires
            old(self).well_formed(),
            achievement.id <= old(self).id_counter(),
        ensures
            final(self).well_formed(),
            final(self).id_counter() == old(self).id_counter(),
            final(self).achievements() == old(self).achievements().insert(
                achievement.id,
                achievement@,
            ),
            final(self).players() == old(self).players(),
            final(self).inventory() == old(self).inventory(),
            final(self).player_ids() == old(self).player_ids(),
            final(self).inventory_ids() == old(self).inventory_ids(),
            old(self).achievements().dom().contains(achievement.id) ==> final(self).achievement_ids() == old(self).achievement_ids(),
            (forall|i: int|
                0 <= i < old(self).achievement_ids().len() ==> old(self).achievement_ids()[i]
                    < achievement.id) ==> final(self).achievement_ids() == old(self).achievement_ids().push(achievement.id),
    {
        self.achievements.insert(achievement.id, achievement.clone());
        proof {
            assert forall|id: u64| #[trigger] self.players().dom().contains(id) implies id
                <= self.id_counter() && self.players()[id].id == id by {
                assert(old(self).players().dom().contains(id));
            }
            assert forall|id: u64| #[trigger] self.achievements().dom().contains(id) implies id
                <= self.id_counter() && self.achievements()[id].id == id by {
                if id != achievement.id {
                    assert(old(self).achievements().dom().contains(id));
                }
            }
            assert forall|id: u64| #[trigger] self.inventory().dom().contains(id) implies id
                <= self.id_counter() && self.inventory()[id].id == id by {
                assert(old(self).inventory().dom().contains(id));
            }
            assert forall|id: u64, k: int|
                self.players().dom().contains(id) && 0 <= k < self.players()[id].achievements.len()
                implies self.achievements().dom().contains(
                #[trigger] self.players()[id].achievements[k],
            ) by {
                assert(old(self).players().dom().contains(id));
                assert(old(self).achievements().dom().contains(
                    old(self).players()[id].achievements[k],
                ));
            }
        }
    }

    /// Internal inventory lookup: the stored record, cloned.
    pub fn _get_inventory_item(&self, id: u64) -> (r: Option<InventoryItem>)
        requires
            self.well_formed(),
        ensures
            match r {
                Some(it) => self.inventory().dom().contains(id) && it@ == self.inventory()[id],
                None => !self.inventory().dom().contains(id),
            },
    {
        match self.inventory.get(id) {
            Some(it) => Some(it.clone()),
            None => None,
        }
    }

    /// Internal inventory upsert, keyed by the record's own identifier, which
    /// must have been drawn from the shared counter.
    pub fn do_insert_inventory_item(&mut self, item: &InventoryItem)
        requires
            old(self).well_formed(),
            item.id <= old(self).id_counter(),
        ensures
            final(self).well_formed(),
            final(self).id_counter() == old(self).id_counter(),
            final(self).inventory() == old(self).inventory().insert(item.id, item@),
            final(self).players() == old(self).players(),
            final(self).achievements() == old(self).achievements(),
            final(self).player_ids() == old(self).player_ids(),
            final(self).achievement_ids() == old(self).achievement_ids(),
            old(self).inventory().dom().contains(item.id) ==> final(self).inventory_ids() == old(self).inventory_ids(),
            (forall|i: int|
                0 <= i < old(self).inventory_ids().len() ==> old(self).inventory_ids()[i]
                    < item.id) ==> final(self).inventory_ids() == old(self).inventory_ids().push(
                item.id,
            ),
    {
        self.inventory.insert(item.id, item.clone());
        proof {
            assert forall|id: u64| #[trigger] self.players().dom().contains(id) implies id
                <= self.id_counter() && self.players()[id].id == id by {
                assert(old(self).players().dom().contains(id));
            }
            assert forall|id: u64| #[trigger] self.achievements().dom().contains(id) implies id
                <= self.id_counter() && self.achievements()[id].id == id by {
                assert(old(self).achievements().dom().contains(id));
            }
            assert forall|id: u64| #[trigger] self.inventory().dom().contains(id) implies id
                <= self.id_counter() && self.inventory()[id].id == id by {
                if id != item.id {
                    assert(old(self).inventory().dom().contains(id));
                }
            }
            assert forall|id: u64, k: int|
                self.players().dom().contains(id) && 0 <= k < self.players()[id].achievements.len()
                implies self.achievements().dom().contains(
                #[trigger] self.players()[id].achievements[k],
            ) by {
                assert(old(self).players().dom().contains(id));
                assert(old(self).achievements().dom().contains(
                    old(self).players()[id].achievements[k],
                ));
            }
        }
    }
}

impl GameState {
    /// Creates a player with a fresh identifier, level 1, no experience, no
    /// achievements, and the given creation time. Always succeeds.
    pub fn create_player(&mut self, payload: PlayerPayload, now: u64) -> (r: Option<Player>)
        requires
            old(self).well_formed(),
            old(self).id_counter() < u64::MAX,
        ensures
            final(self).well_formed(),
            final(self).id_counter() == old(self).id_counter() + 1,
            final(self).achievements() == old(self).achievements(),
            final(self).inventory() == old(self).inventory(),
            final(self).achievement_ids() == old(self).achievement_ids(),
            final(self).inventory_ids() == old(self).inventory_ids(),
            r matches Some(p) && ({
                &&& p@.id == old(self).id_counter() + 1
                &&& p@.username == payload.username@
                &&& p@.level == 1
                &&& p@.experience == 0
                &&& p@.created_at == now
                &&& p@.achievements == Seq::<u64>::empty()
                &&& !old(self).players().dom().contains(p@.id)
                &&& final(self).players() == old(self).players().insert(p@.id, p@)
                &&& final(self).player_ids() == old(self).player_ids().push(p@.id)
            }),
    {
        let id = self.next_id();
        let player = Player {
            id,
            username: payload.username,
            level: 1,
            experience: 0,
            created_at: now,
            achievements: Vec::new(),
        };
        proof {
            assert(player@.achievements =~= Seq::<u64>::empty());
            assert forall|i: int| 0 <= i < self.player_ids().len() implies self.player_ids()[i]
                < player.id by {
                assert(self.players().dom().contains(self.player_ids()[i]));
            }
        }
        self.do_insert_player(&player);
        Some(player)
    }

    /// Looks a player up by identifier.
    pub fn get_player(&self, id: u64) -> (r: Result<Player, Error>)
        requires
            self.well_formed(),
        ensures
            match r {
                Ok(p) => self.players().dom().contains(id) && p@ == self.players()[id],
                Err(e) => !self.players().dom().contains(id) && (e matches Error::NotFound { msg }
                    && msg@ == player_not_found_text(id)),
            },
    {
        match self._get_player(id) {
            Some(player) => Ok(player),
            None => Err(
                Error::NotFound { msg: not_found_msg("Player with id=", id, " not found.") },
            ),
        }
    }

    /// Returns every player in ascending identifier order, or `NotFound` when
    /// the player store is empty.
    #[verifier::loop_isolation(false)]
    pub fn get_all_players(&self) -> (r: Result<Vec<Player>, Error>)
        requires
            self.well_formed(),
        ensures
            match r {
                Ok(v) => self.player_ids().len() > 0 && v@.len() == self.player_list().len()
                    && forall|i: int| 0 <= i < v@.len() ==> v@[i]@ == self.player_list()[i],
                Err(e) => self.player_ids().len() == 0 && self.players() == Map::<
                    u64,
                    PlayerModel,
                >::empty() && (e matches Error::NotFound { msg }
                    && msg@ == ("No players found.")@),
            },
    {
        let n = self.players.num_records();
        if n == 0 {
            return Err(Error::NotFound { msg: "No players found.".to_owned() });
        }
        let mut out: Vec<Player> = Vec::new();
        let mut i: usize = 0;
        while i < n
            invariant
                i <= n,
                out@.len() == i,
                forall|j: int| 0 <= j < i ==> out@[j]@ == self.player_list()[j],
            decreases n - i,
        {
            let p = self.players.record_at(i);
            out.push(p.clone());
            i += 1;
        }
        Ok(out)
    }

    /// Overwrites a player's level; any value is accepted, including a
    /// decrease.
    pub fn update_player_level(&mut self, id: u64, new_level: u32) -> (r: Result<Player, Error>)
        requires
            old(self).well_formed(),
        ensures
            final(self).well_formed(),
            final(self).id_counter() == old(self).id_counter(),
            final(self).achievements() == old(self).achievements(),
            final(self).inventory() == old(self).inventory(),
            final(self).achievement_ids() == old(self).achievement_ids(),
            final(self).inventory_ids() == old(self).inventory_ids(),
            match r {
                Ok(p) => {
                    &&& old(self).players().dom().contains(id)
                    &&& p@ == (PlayerModel { level: new_level, ..old(self).players()[id] })
                    &&& final(self).players() == old(self).players().insert(id, p@)
                    &&& final(self).player_ids() == old(self).player_ids()
                },
                Err(e) => {
                    &&& !old(self).players().dom().contains(id)
                    &&& *final(self) == *old(self)
                    &&& e matches Error::NotFound { msg } && msg@ == player_not_found_text(id)
                },
            },
    {
        match self._get_player(id) {
            Some(mut player) => {
                player.level = new_level;
                proof {
                    assert(player@ =~= (PlayerModel { level: new_level, ..old(self).players()[id] }));
                }
                self.do_insert_player(&player);
                Ok(player)
            },
            None => Err(
                Error::NotFound { msg: not_found_msg("Player with id=", id, " not found.") },
            ),
        }
    }

    /// Creates an achievement with a fresh identifier. Always succeeds.
    pub fn create_achievement(&mut self, payload: AchievementPayload) -> (r: Option<Achievement>)
        requires
            old(self).well_formed(),
            old(self).id_counter() < u64::MAX,
        ensures
            final(self).well_formed(),
            final(self).id_counter() == old(self).id_counter() + 1,
            final(self).players() == old(self).players(),
            final(self).inventory() == old(self).inventory(),
            final(self).player_ids() == old(self).player_ids(),
            final(self).inventory_ids() == old(self).inventory_ids(),
            r matches Some(a) && ({
                &&& a@.id == old(self).id_counter() + 1
                &&& a@.name == payload.name@
                &&& a@.description == payload.description@
                &&& a@.points == payload.points
                &&& !old(self).achievements().dom().contains(a@.id)
                &&& final(self).achievements() == old(self).achievements().insert(a@.id, a@)
                &&& final(self).achievement_ids() == old(self).achievement_ids().push(a@.id)
            }),
    {
        let id = self.next_id();
        let achievement = Achievement {
            id,
            name: payload.name,
            description: payload.description,
            points: payload.points,
        };
        proof {
            assert forall|i: int|
                0 <= i < self.achievement_ids().len() implies self.achievement_ids()[i]
                < achievement.id by {
                assert(self.achievements().dom().contains(self.achievement_ids()[i]));
            }
        }
        self.do_insert_achievement(&achievement);
        Some(achievement)
    }

    /// Looks an achievement up by identifier.
    pub fn get_achievement(&self, id: u64) -> (r: Result<Achievement, Error>)
        requires
            self.well_formed(),
        ensures
            match r {
                Ok(a) => self.achievements().dom().contains(id) && a@ == self.achievements()[id],
                Err(e) => !self.achievements().dom().contains(id) && (e matches Error::NotFound {
                    msg } && msg@ == achievement_not_found_text(id)),
            },
    {
        match self._get_achievement(id) {
            Some(achievement) => Ok(achievement),
            None => Err(
                Error::NotFound { msg: not_found_msg("Achievement with id=", id, " not found.") },
            ),
        }
    }

    /// Returns every achievement in ascending identifier order, or `NotFound`
    /// when the achievement store is empty.
    #[verifier::loop_isolation(false)]
    pub fn get_all_achievements(&self) -> (r: Result<Vec<Achievement>, Error>)
        requires
            self.well_formed(),
        ensures
            match r {
                Ok(v) => self.achievement_ids().len() > 0 && v@.len()
                    == self.achievement_list().len() && forall|i: int|
                    0 <= i < v@.len() ==> v@[i]@ == self.achievement_list()[i],
                Err(e) => self.achievement_ids().len() == 0 && self.achievements() == Map::<
                    u64,
                    AchievementModel,
                >::empty() && (e matches Error::NotFound { msg }
                    && msg@ == ("No achievements found.")@),
            },
    {
        let n = self.achievements.num_records();
        if n == 0 {
            return Err(Error::NotFound { msg: "No achievements found.".to_owned() });
        }
        let mut out: Vec<Achievement> = Vec::new();
        let mut i: usize = 0;
        while i < n
            invariant
                i <= n,
                out@.len() == i,
                forall|j: int| 0 <= j < i ==> out@[j]@ == self.achievement_list()[j],
            decreases n - i,
        {
            let a = self.achievements.record_at(i);
            out.push(a.clone());
            i += 1;
        }
        Ok(out)
    }

    /// Creates an inventory item with a fresh identifier and the given
    /// creation time. Always succeeds.
    pub fn create_inventory_item(&mut self, payload: InventoryItemPayload, now: u64) -> (r: Option<
        InventoryItem,
    >)
        requires
            old(self).well_formed(),
            old(self).id_counter() < u64::MAX,
        ensures
            final(self).well_formed(),
            final(self).id_counter() == old(self).id_counter() + 1,
            final(self).players() == old(self).players(),
            final(self).achievements() == old(self).achievements(),
            final(self).player_ids() == old(self).player_ids(),
            final(self).achievement_ids() == old(self).achievement_ids(),
            r matches Some(it) && ({
                &&& it@.id == old(self).id_counter() + 1
                &&& it@.name == payload.name@
                &&& it@.description == payload.description@
                &&& it@.quantity == payload.quantity
                &&& it@.created_at == now
                &&& !old(self).inventory().dom().contains(it@.id)
                &&& final(self).inventory() == old(self).inventory().insert(it@.id, it@)
                &&& final(self).inventory_ids() == old(self).inventory_ids().push(it@.id)
            }),
    {
        let id = self.next_id();
        let item = InventoryItem {
            id,
            name: payload.name,
            description: payload.description,
            quantity: payload.quantity,
            created_at: now,
        };
        proof {
            assert forall|i: int| 0 <= i < self.inventory_ids().len() implies self.inventory_ids()[
                i
            ] < item.id by {
                assert(self.inventory().dom().contains(self.inventory_ids()[i]));
            }
        }
        self.do_insert_inventory_item(&item);
        Some(item)
    }

    /// Looks an inventory item up by identifier.
    pub fn get_inventory_item(&self, id: u64) -> (r: Result<InventoryItem, Error>)
        requires
            self.well_formed(),
        ensures
            match r {
                Ok(it) => self.inventory().dom().contains(id) && it@ == self.inventory()[id],
                Err(e) => !self.inventory().dom().contains(id) && (e matches Error::NotFound { msg }
                    && msg@ == item_not_found_text(id)),
            },
    {
        match self._get_inventory_item(id) {
            Some(item) => Ok(item),
            None => Err(
                Error::NotFound {
                    msg: not_found_msg("Inventory item with id=", id, " not found."),
                },
            ),
        }
    }

    /// Returns every inventory item in ascending identifier order, or
    /// `NotFound` when the inventory store is empty.
    #[verifier::loop_isolation(false)]
    pub fn get_all_inventory_items(&self) -> (r: Result<Vec<InventoryItem>, Error>)
        requires
            self.well_formed(),
        ensures
            match r {
                Ok(v) => self.inventory_ids().len() > 0 && v@.len() == self.inventory_list().len()
                    && forall|i: int| 0 <= i < v@.len() ==> v@[i]@ == self.inventory_list()[i],
                Err(e) => self.inventory_ids().len() == 0 && self.inventory() == Map::<
                    u64,
                    InventoryItemModel,
                >::empty() && (e matches Error::NotFound { msg }
                    && msg@ == ("No inventory items found.")@),
            },
    {
        let n = self.inventory.num_records();
        if n == 0 {
            return Err(Error::NotFound { msg: "No inventory items found.".to_owned() });
        }
        let mut out: Vec<InventoryItem> = Vec::new();
        let mut i: usize = 0;
        while i < n
            invariant
                i <= n,
                out@.len() == i,
                forall|j: int| 0 <= j < i ==> out@[j]@ == self.inventory_list()[j],
            decreases n - i,
        {
            let it = self.inventory.record_at(i);
            out.push(it.clone());
            i += 1;
        }
        Ok(out)
    }
}


/// The full behaviour of `earn_achievement`: how the state after relates to
/// the state before and to the result. Player lookup precedes achievement
/// lookup; an already-held achievement is an idempotent no-op; an experience
/// total below the achievement's points threshold is rejected without any
/// mutation; otherwise the achievement identifier is appended to the player's
/// achievement list.
pub open spec fn earn_transition(
    pre: GameState,
    post: GameState,
    player_id: u64,
    achievement_id: u64,
    r: Result<Player, Error>,
) -> bool {
    &&& post.well_formed()
    &&& post.id_counter() == pre.id_counter()
    &&& post.achievements() == pre.achievements()
    &&& post.inventory() == pre.inventory()
    &&& post.achievement_ids() == pre.achievement_ids()
    &&& post.inventory_ids() == pre.inventory_ids()
    &&& if !pre.players().dom().contains(player_id) {
        post == pre && match r {
            Err(Error::NotFound { msg }) => msg@ == earn_player_not_found_text(player_id),
            _ => false,
        }
    } else if !pre.achievements().dom().contains(achievement_id) {
        post == pre && match r {
            Err(Error::NotFound { msg }) => msg@ == earn_achievement_not_found_text(
                achievement_id,
            ),
            _ => false,
        }
    } else if pre.players()[player_id].achievements.contains(achievement_id) {
        post == pre && match r {
            Ok(p) => p@ == pre.players()[player_id],
            _ => false,
        }
    } else if pre.players()[player_id].experience < pre.achievements()[achievement_id].points
        as u64 {
        post == pre && match r {
            Err(Error::InsufficientExperience { msg }) => msg@ == (
            "Player does not have enough experience to earn the achievement")@,
            _ => false,
        }
    } else {
        match r {
            Ok(p) => {
                &&& p@ == (PlayerModel {
                    achievements: pre.players()[player_id].achievements.push(achievement_id),
                    ..pre.players()[player_id]
                })
                &&& post.players() == pre.players().insert(player_id, p@)
                &&& post.player_ids() == pre.player_ids()
            },
            _ => false,
        }
    }
}

/// The full behaviour of `use_inventory_item`. Player lookup precedes item
/// lookup; an experience total that would overflow is rejected with no
/// mutation to either store; otherwise the player's experience grows by the
/// item's quantity and the item is deleted, both or neither.
pub open spec fn use_item_transition(
    pre: GameState,
    post: GameState,
    player_id: u64,
    item_id: u64,
    r: Result<Player, Error>,
) -> bool {
    &&& post.well_formed()
    &&& post.id_counter() == pre.id_counter()
    &&& post.achievements() == pre.achievements()
    &&& post.achievement_ids() == pre.achievement_ids()
    &&& if !pre.players().dom().contains(player_id) {
        post == pre && match r {
            Err(Error::NotFound { msg }) => msg@ == player_not_found_text(player_id),
            _ => false,
        }
    } else if !pre.inventory().dom().contains(item_id) {
        post == pre && match r {
            Err(Error::NotFound { msg }) => msg@ == item_not_found_text(item_id),
            _ => false,
        }
    } else if pre.players()[player_id].experience + pre.inventory()[item_id].quantity as u64
        > u64::MAX {
        post == pre && match r {
            Err(Error::InvalidOperation { msg }) => msg@ == ("Player experience overflow.")@,
            _ => false,
        }
    } else {
        match r {
            Ok(p) => {
                &&& p@ == (PlayerModel {
                    experience: (pre.players()[player_id].experience + pre.inventory()[
                        item_id
                    ].quantity as u64) as u64,
                    ..pre.players()[player_id]
                })
                &&& post.players() == pre.players().insert(player_id, p@)
                &&& post.player_ids() == pre.player_ids()
                &&& post.inventory() == pre.inventory().remove(item_id)
                &&& exists|j: int|
                    0 <= j < pre.inventory_ids().len() && pre.inventory_ids()[j] == item_id
                        && post.inventory_ids() == pre.inventory_ids().remove(j)
            },
            _ => false,
        }
    }
}

/// The map described by a list of player records keyed by their embedded
/// identifiers, a later record with the same identifier winning.
pub open spec fn players_map_of(l: Seq<Player>) -> Map<u64, PlayerModel>
    decreases l.len(),
{
    if l.len() == 0 {
        Map::empty()
    } else {
        players_map_of(l.drop_last()).insert(l.last().id, l.last()@)
    }
}

/// The map described by a list of achievement records, later entries winning.
pub open spec fn achievements_map_of(l: Seq<Achievement>) -> Map<u64, AchievementModel>
    decreases l.len(),
{
    if l.len() == 0 {
        Map::empty()
    } else {
        achievements_map_of(l.drop_last()).insert(l.last().id, l.last()@)
    }
}

/// The map described by a list of inventory item records, later entries
/// winning.
pub open spec fn items_map_of(l: Seq<InventoryItem>) -> Map<u64, InventoryItemModel>
    decreases l.len(),
{
    if l.len() == 0 {
        Map::empty()
    } else {
        items_map_of(l.drop_last()).insert(l.last().id, l.last()@)
    }
}

/// What a persisted snapshot must satisfy to be restored: every identifier
/// was drawn from the counter, and every achievement reference in a player's
/// list resolves against the snapshot's achievements.
pub open spec fn restorable(
    counter: u64,
    players: Seq<Player>,
    achievements: Seq<Achievement>,
    items: Seq<InventoryItem>,
) -> bool {
    &&& forall|i: int| 0 <= i < achievements.len() ==> (#[trigger] achievements[i]).id <= counter
    &&& forall|i: int| 0 <= i < items.len() ==> (#[trigger] items[i]).id <= counter
    &&& forall|i: int| 0 <= i < players.len() ==> (#[trigger] players[i]).id <= counter
    &&& forall|i: int, k: int|
        0 <= i < players.len() && 0 <= k < players[i]@.achievements.len()
            ==> achievements_map_of(achievements).dom().contains(
            #[trigger] players[i]@.achievements[k],
        )
}

impl GameState {
    /// Rebuilds a state from a persisted snapshot: the counter watermark and
    /// the records of each kind. Validates what the state invariant demands
    /// and returns nothing if the snapshot violates it, so that a restored
    /// state is as well formed as one grown by the operations.
    #[verifier::loop_isolation(false)]
    pub fn restore(
        counter: u64,
        players: Vec<Player>,
        achievements: Vec<Achievement>,
        items: Vec<InventoryItem>,
    ) -> (r: Option<GameState>)
        ensures
            match r {
                Some(s) => {
                    &&& restorable(counter, players@, achievements@, items@)
                    &&& s.well_formed()
                    &&& s.id_counter() == counter
                    &&& s.players() == players_map_of(players@)
                    &&& s.achievements() == achievements_map_of(achievements@)
                    &&& s.inventory() == items_map_of(items@)
                },
                None => !restorable(counter, players@, achievements@, items@),
            },
    {
        let mut st = GameState {
            counter,
            players: RecordStore::new(),
            achievements: RecordStore::new(),
            inventory: RecordStore::new(),
        };
        let n_a = achievements.len();
        let mut i: usize = 0;
        while i < n_a
            invariant
                i <= n_a,
                st.well_formed(),
                st.id_counter() == counter,
                st.players() == Map::<u64, PlayerModel>::empty(),
                st.inventory() == Map::<u64, InventoryItemModel>::empty(),
                st.achievements() == achievements_map_of(achievements@.take(i as int)),
                forall|j: int| 0 <= j < i ==> (#[trigger] achievements@[j]).id <= counter,
            decreases n_a - i,
        {
            let a = &achievements[i];
            if a.id > counter {
                proof {
                    assert(!restorable(counter, players@, achievements@, items@)) by {
                        if restorable(counter, players@, achievements@, items@) {
                            assert(achievements@[i as int].id <= counter);
                        }
                    }
                }
                return None;
            }
            st.do_insert_achievement(a);
            proof {
                assert(achievements@.take(i + 1).drop_last() =~= achievements@.take(i as int));
                assert(achievements@.take(i + 1).last() == achievements@[i as int]);
            }
            i += 1;
        }
        proof {
            assert(achievements@.take(n_a as int) =~= achievements@);
        }
        let n_it = items.len();
        let mut i: usize = 0;
        while i < n_it
            invariant
                i <= n_it,
                st.well_formed(),
                st.id_counter() == counter,
                st.players() == Map::<u64, PlayerModel>::empty(),
                st.achievements() == achievements_map_of(achievements@),
                st.inventory() == items_map_of(items@.take(i as int)),
                forall|j: int| 0 <= j < i ==> (#[trigger] items@[j]).id <= counter,
            decreases n_it - i,
        {
            let it = &items[i];
            if it.id > counter {
                proof {
                    assert(!restorable(counter, players@, achievements@, items@)) by {
                        if restorable(counter, players@, achievements@, items@) {
                            assert(items@[i as int].id <= counter);
                        }
                    }
                }
                return None;
            }
            st.do_insert_inventory_item(it);
            proof {
                assert(items@.take(i + 1).drop_last() =~= items@.take(i as int));
                assert(items@.take(i + 1).last() == items@[i as int]);
            }
            i += 1;
        }
        proof {
            assert(items@.take(n_it as int) =~= items@);
        }
        let n_p = players.len();
        let mut i: usize = 0;
        while i < n_p
            invariant
                i <= n_p,
                st.well_formed(),
                st.id_counter() == counter,
                st.achievements() == achievements_map_of(achievements@),
                st.inventory() == items_map_of(items@),
                st.players() == players_map_of(players@.take(i as int)),
                forall|j: int| 0 <= j < i ==> (#[trigger] players@[j]).id <= counter,
                forall|j: int, k: int|
                    0 <= j < i && 0 <= k < players@[j]@.achievements.len()
                        ==> achievements_map_of(achievements@).dom().contains(
                        #[trigger] players@[j]@.achievements[k],
                    ),
            decreases n_p - i,
        {
            let p = &players[i];
            if p.id > counter {
                proof {
                    assert(!restorable(counter, players@, achievements@, items@)) by {
                        if restorable(counter, players@, achievements@, items@) {
                            assert(players@[i as int].id <= counter);
                        }
                    }
                }
                return None;
            }
            let n_refs = p.achievements.len();
            let mut k: usize = 0;
            while k < n_refs
                invariant
                    k <= n_refs,
                    n_refs == p.achievements@.len(),
                    forall|q: int|
                        0 <= q < k ==> st.achievements().dom().contains(
                            #[trigger] p.achievements@[q],
                        ),
                decreases n_refs - k,
            {
                match st._get_achievement(p.achievements[k]) {
                    Some(_) => {},
                    None => {
                        proof {
                            assert(!restorable(counter, players@, achievements@, items@)) by {
                                if restorable(counter, players@, achievements@, items@) {
                                    assert(achievements_map_of(achievements@).dom().contains(
                                        players@[i as int]@.achievements[k as int],
                                    ));
                                }
                            }
                        }
                        return None;
                    },
                }
                k += 1;
            }
            st.do_insert_player(p);
            proof {
                assert(players@.take(i + 1).drop_last() =~= players@.take(i as int));
                assert(players@.take(i + 1).last() == players@[i as int]);
            }
            i += 1;
        }
        proof {
            assert(players@.take(n_p as int) =~= players@);
        }
        Some(st)
    }
}

impl GameState {
    /// Awards an achievement to a player: validates both records and the
    /// experience threshold, then appends the achievement identifier to the
    /// player's list and persists the player — or fails with no mutation.
    pub fn earn_achievement(&mut self, player_id: u64, achievement_id: u64) -> (r: Result<
        Player,
        Error,
    >)
        requires
            old(self).well_formed(),
        ensures
            earn_transition(*old(self), *final(self), player_id, achievement_id, r),
    {
        let mut player = match self._get_player(player_id) {
            Some(p) => p,
            None => {
                return Err(
                    Error::NotFound {
                        msg: not_found_msg("Player with id=", player_id, " not found"),
                    },
                );
            },
        };
        let achievement = match self._get_achievement(achievement_id) {
            Some(a) => a,
            None => {
                return Err(
                    Error::NotFound {
                        msg: not_found_msg("Achievement with id=", achievement_id, " not found"),
                    },
                );
            },
        };
        if vec_contains_u64(&player.achievements, achievement_id) {
            return Ok(player);
        }
        if player.experience >= achievement.points as u64 {
            player.achievements.push(achievement_id);
            proof {
                assert(player@ =~= (PlayerModel {
                    achievements: old(self).players()[player_id].achievements.push(achievement_id),
                    ..old(self).players()[player_id]
                }));
            }
            self.do_insert_player(&player);
            Ok(player)
        } else {
            Err(
                Error::InsufficientExperience {
                    msg: "Player does not have enough experience to earn the achievement".to_owned(),
                },
            )
        }
    }

    /// Consumes an inventory item for a player: adds the item's quantity to
    /// the player's experience and deletes the item, or fails with no
    /// mutation to either store.
    pub fn use_inventory_item(&mut self, player_id: u64, item_id: u64) -> (r: Result<
        Player,
        Error,
    >)
        requires
            old(self).well_formed(),
        ensures
            use_item_transition(*old(self), *final(self), player_id, item_id, r),
    {
        let mut player = match self._get_player(player_id) {
            Some(p) => p,
            None => {
                return Err(
                    Error::NotFound {
                        msg: not_found_msg("Player with id=", player_id, " not found."),
                    },
                );
            },
        };
        let item = match self._get_inventory_item(item_id) {
            Some(it) => it,
            None => {
                return Err(
                    Error::NotFound {
                        msg: not_found_msg("Inventory item with id=", item_id, " not found."),
                    },
                );
            },
        };
        if player.experience > u64::MAX - item.quantity as u64 {
            return Err(Error::InvalidOperation { msg: "Player experience overflow.".to_owned() });
        }
        player.experience = player.experience + item.quantity as u64;
        proof {
            assert(player@ =~= (PlayerModel {
                experience: (old(self).players()[player_id].experience + old(self).inventory()[
                    item_id
                ].quantity as u64) as u64,
                ..old(self).players()[player_id]
            }));
        }
        self.do_insert_player(&player);
        self.inventory.remove(item_id);
        Ok(player)
    }
}

} // verus!
