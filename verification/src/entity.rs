//! The three entity kinds — players, achievements and inventory items — with
//! the creation payloads callers hand in, and the mathematical model of each
//! record that the contracts speak of.

use vstd::prelude::*;

verus! {

/// A player record. `experience` accrues by consuming inventory items;
/// `achievements` lists earned achievement identifiers in the order they were
/// earned, without duplicates.
pub struct Player {
    pub id: u64,
    pub username: String,
    pub level: u32,
    pub experience: u64,
    pub created_at: u64,
    pub achievements: Vec<u64>,
}

/// The mathematical content of a `Player`.
#[verifier::ext_equal]
pub struct PlayerModel {
    pub id: u64,
    pub username: Seq<char>,
    pub level: u32,
    pub experience: u64,
    pub created_at: u64,
    pub achievements: Seq<u64>,
}

impl View for Player {
    type V = PlayerModel;

    open spec fn view(&self) -> PlayerModel {
        PlayerModel {
            id: self.id,
            username: self.username@,
            level: self.level,
            experience: self.experience,
            created_at: self.created_at,
            achievements: self.achievements@,
        }
    }
}

impl Clone for Player {
    /// A clone carries the same mathematical content.
    fn clone(&self) -> (r: Self)
        ensures
            r@ == self@,
    {
        let r = Player {
            id: self.id,
            username: self.username.clone(),
            level: self.level,
            experience: self.experience,
            created_at: self.created_at,
            achievements: self.achievements.clone(),
        };
        proof {
            assert(r.achievements@ =~= self.achievements@);
            assert(r@ =~= self@);
        }
        r
    }
}

/// An achievement: immutable once created; `points` is the experience
/// threshold a player must have reached to earn it.
pub struct Achievement {
    pub id: u64,
    pub name: String,
    pub description: String,
    pub points: u32,
}

/// The mathematical content of an `Achievement`.
#[verifier::ext_equal]
pub struct AchievementModel {
    pub id: u64,
    pub name: Seq<char>,
    pub description: Seq<char>,
    pub points: u32,
}

impl View for Achievement {
    type V = AchievementModel;

    open spec fn view(&self) -> AchievementModel {
        AchievementModel {
            id: self.id,
            name: self.name@,
            description: self.description@,
            points: self.points,
        }
    }
}

impl Clone for Achievement {
    /// A clone carries the same mathematical content.
    fn clone(&self) -> (r: Self)
        ensures
            r@ == self@,
    {
        Achievement {
            id: self.id,
            name: self.name.clone(),
            description: self.description.clone(),
            points: self.points,
        }
    }
}

/// An inventory item: a shared global resource. `quantity` is the experience
/// it grants when consumed; consumption deletes the item entirely.
pub struct InventoryItem {
    pub id: u64,
    pub name: String,
    pub description: String,
    pub quantity: u32,
    pub created_at: u64,
}

/// The mathematical content of an `InventoryItem`.
#[verifier::ext_equal]
pub struct InventoryItemModel {
    pub id: u64,
    pub name: Seq<char>,
    pub description: Seq<char>,
    pub quantity: u32,
    pub created_at: u64,
}

impl View for InventoryItem {
    type V = InventoryItemModel;

    open spec fn view(&self) -> InventoryItemModel {
        InventoryItemModel {
            id: self.id,
            name: self.name@,
            description: self.description@,
            quantity: self.quantity,
            created_at: self.created_at,
        }
    }
}

impl Clone for InventoryItem {
    /// A clone carries the same mathematical content.
    fn clone(&self) -> (r: Self)
        ensures
            r@ == self@,
    {
        InventoryItem {
            id: self.id,
            name: self.name.clone(),
            description: self.description.clone(),
            quantity: self.quantity,
            created_at: self.created_at,
        }
    }
}

/// What a caller supplies to create a player.
pub struct PlayerPayload {
    pub username: String,
}

/// What a caller supplies to create an achievement.
pub struct AchievementPayload {
    pub name: String,
    pub description: String,
    pub points: u32,
}

/// What a caller supplies to create an inventory item.
pub struct InventoryItemPayload {
    pub name: String,
    pub description: String,
    pub quantity: u32,
}

} // verus!
