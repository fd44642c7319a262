//! The laws of the store, stated and proved over the contracts of the
//! operations: identifier uniqueness, idempotence of the achievement grant,
//! conservation under item consumption, threshold enforcement, and the
//! precedence of the player-not-found error in the two transactions.

use crate::entity::Player;
use crate::errors::earn_player_not_found_text;
use crate::errors::player_not_found_text;
use crate::errors::Error;
use crate::state::earn_transition;
use crate::state::use_item_transition;
use crate::state::GameState;
use vstd::prelude::*;

verus! {

/// In a well-formed state every stored identifier is at most the counter, so
/// any identifier above the counter — in particular the next one a create
/// operation returns — is absent from all three stores.
pub proof fn lemma_fresh_identifiers(s: GameState, id: u64)
    requires
        s.well_formed(),
        s.id_counter() < id,
    ensures
        !s.players().dom().contains(id),
        !s.achievements().dom().contains(id),
        !s.inventory().dom().contains(id),
{
    s.lemma_well_formed_bounded();
}

/// Identifier uniqueness across any sequence of create operations, of any mix
/// of entity kinds: a create returns `id_counter() + 1` and raises the
/// counter to it, and no operation lowers the counter. So a record created
/// when the counter stood at most at `counter_at_first` and one created
/// later, when the counter had reached at least `counter_at_second`, never
/// share an identifier.
pub proof fn lemma_identifier_uniqueness(
    counter_at_first: u64,
    counter_at_second: u64,
    first_id: u64,
    second_id: u64,
)
    requires
        first_id <= counter_at_first,
        counter_at_first <= counter_at_second,
        counter_at_second < second_id,
    ensures
        first_id != second_id,
{
}

/// A stored player's achievement list references only achievements that
/// exist in the achievement store: grants are validated, and achievements are
/// never deleted.
pub proof fn lemma_achievement_references_exist(s: GameState, player_id: u64, k: int)
    requires
        s.well_formed(),
        s.players().dom().contains(player_id),
        0 <= k < s.players()[player_id].achievements.len(),
    ensures
        s.achievements().dom().contains(s.players()[player_id].achievements[k]),
{
    s.lemma_well_formed_bounded();
}

/// Idempotent achievement grant: after a successful `earn_achievement`, an
/// identical second call returns a player with the same content and leaves
/// the state exactly as the first call left it.
pub proof fn lemma_earn_achievement_idempotent(
    s0: GameState,
    s1: GameState,
    s2: GameState,
    player_id: u64,
    achievement_id: u64,
    p1: Player,
    r2: Result<Player, Error>,
)
    requires
        s0.well_formed(),
        earn_transition(s0, s1, player_id, achievement_id, Ok(p1)),
        earn_transition(s1, s2, player_id, achievement_id, r2),
    ensures
        s2 == s1,
        r2 matches Ok(p2) && p2@ == p1@,
{
    if s0.players()[player_id].achievements.contains(achievement_id) {
        assert(s1 == s0);
        assert(s1.players()[player_id] == p1@);
    } else {
        assert(s1.players() == s0.players().insert(player_id, p1@));
        assert(s1.players()[player_id] == p1@);
        let n = s0.players()[player_id].achievements.len() as int;
        assert(p1@.achievements[n] == achievement_id);
        assert(p1@.achievements.contains(achievement_id));
    }
    assert(s1.players().dom().contains(player_id));
    assert(s1.players()[player_id].achievements.contains(achievement_id));
}

/// Conservation under consumption: after a successful `use_inventory_item`,
/// the item is gone from the inventory — no entry of a full scan carries its
/// identifier — and the experience of the returned and of the stored player
/// equals the prior experience plus the item's quantity.
pub proof fn lemma_consumption_conservation(
    s0: GameState,
    s1: GameState,
    player_id: u64,
    item_id: u64,
    p: Player,
)
    requires
        s0.well_formed(),
        use_item_transition(s0, s1, player_id, item_id, Ok(p)),
    ensures
        !s1.inventory().dom().contains(item_id),
        forall|i: int| 0 <= i < s1.inventory_list().len() ==> s1.inventory_list()[i].id != item_id,
        p@.experience == s0.players()[player_id].experience + s0.inventory()[item_id].quantity,
        s1.players().dom().contains(player_id),
        s1.players()[player_id].experience == p@.experience,
{
    s1.lemma_well_formed_bounded();
    assert forall|i: int|
        0 <= i < s1.inventory_list().len() implies s1.inventory_list()[i].id != item_id by {
        assert(s1.inventory().dom().contains(s1.inventory_ids()[i]));
    }
}

/// Threshold enforcement: when the player and the achievement exist, the
/// player does not yet hold the achievement (an already-held achievement is
/// answered by the idempotent no-op before the threshold is consulted), and
/// the player's experience is below the achievement's points,
/// `earn_achievement` fails with `InsufficientExperience` and changes
/// nothing — in particular the player's achievement list.
pub proof fn lemma_threshold_enforcement(
    s0: GameState,
    s1: GameState,
    player_id: u64,
    achievement_id: u64,
    r: Result<Player, Error>,
)
    requires
        s0.well_formed(),
        earn_transition(s0, s1, player_id, achievement_id, r),
        s0.players().dom().contains(player_id),
        s0.achievements().dom().contains(achievement_id),
        !s0.players()[player_id].achievements.contains(achievement_id),
        s0.players()[player_id].experience < s0.achievements()[achievement_id].points as u64,
    ensures
        s1 == s0,
        r matches Err(Error::InsufficientExperience { msg }) && msg@ == (
        "Player does not have enough experience to earn the achievement")@,
        s1.players()[player_id].achievements == s0.players()[player_id].achievements,
{
}

/// Not-found precedence in `earn_achievement`: when both identifiers are
/// absent, the reported error names the player.
pub proof fn lemma_not_found_precedence_earn(
    s0: GameState,
    s1: GameState,
    player_id: u64,
    achievement_id: u64,
    r: Result<Player, Error>,
)
    requires
        s0.well_formed(),
        earn_transition(s0, s1, player_id, achievement_id, r),
        !s0.players().dom().contains(player_id),
        !s0.achievements().dom().contains(achievement_id),
    ensures
        s1 == s0,
        r matches Err(Error::NotFound { msg }) && msg@ == earn_player_not_found_text(player_id),
{
}

/// Not-found precedence in `use_inventory_item`: when both identifiers are
/// absent, the reported error names the player.
pub proof fn lemma_not_found_precedence_use_item(
    s0: GameState,
    s1: GameState,
    player_id: u64,
    item_id: u64,
    r: Result<Player, Error>,
)
    requires
        s0.well_formed(),
        use_item_transition(s0, s1, player_id, item_id, r),
        !s0.players().dom().contains(player_id),
        !s0.inventory().dom().contains(item_id),
    ensures
        s1 == s0,
        r matches Err(Error::NotFound { msg }) && msg@ == player_not_found_text(player_id),
{
}

} // verus!
