//! The register of a game's players: a one-to-one pairing of identity tokens
//! and players, kept in a `bimap::BiHashMap`.

use vstd::prelude::*;
use bimap::BiHashMap;
use crate::identity::Identity;
use crate::player::Player;

verus! {

/// `bimap::BiHashMap`, of which nothing is known but what the functions
/// below say.
#[verifier::external_type_specification]
#[verifier::external_body]
#[verifier::reject_recursive_types(L)]
#[verifier::reject_recursive_types(R)]
#[verifier::reject_recursive_types(LS)]
#[verifier::reject_recursive_types(RS)]
pub struct ExBiHashMap<L, R, LS, RS>(BiHashMap<L, R, LS, RS>);

/// The pairs that a register holds, as a map from the bytes of a token to
/// the player that holds the token. The register tells tokens apart by their
/// bytes and players by their name: that is the equality that both types
/// derive.
pub uninterp spec fn pairs(registry: BiHashMap<Identity, Player>) -> Map<Seq<u8>, Player>;

/// Some token of `m` belongs to `player`.
pub open spec fn has_player(m: Map<Seq<u8>, Player>, player: Player) -> bool {
    exists|token: Seq<u8>| #[trigger] m.contains_pair(token, player)
}

/// No player holds two tokens of `m`.
pub open spec fn one_to_one(m: Map<Seq<u8>, Player>) -> bool {
    forall|a: Seq<u8>, b: Seq<u8>|
        #![trigger m[a], m[b]]
        m.dom().contains(a) && m.dom().contains(b) && m[a] == m[b] ==> a == b
}

/// `m` after `token` and `player` were paired: whatever pair held the token
/// or the player before is gone, and the new pair is there.
pub open spec fn paired(m: Map<Seq<u8>, Player>, token: Seq<u8>, player: Player) -> Map<
    Seq<u8>,
    Player,
> {
    Map::new(
        |t: Seq<u8>| t == token || (m.dom().contains(t) && m[t] != player),
        |t: Seq<u8>|
            if t == token {
                player
            } else {
                m[t]
            },
    )
}

/// `entries` lists the pairs of `m`, each once, in some order.
pub open spec fn lists(entries: Seq<(Identity, Player)>, m: Map<Seq<u8>, Player>) -> bool {
    &&& forall|i: int|
        0 <= i < entries.len() ==> m.contains_pair((#[trigger] entries[i]).0@, entries[i].1)
    &&& forall|i: int, j: int|
        0 <= i < j < entries.len() ==> (#[trigger] entries[i]).0@ != (#[trigger] entries[j]).0@
    &&& forall|t: Seq<u8>|
        m.dom().contains(t) ==> exists|i: int|
            0 <= i < entries.len() && (#[trigger] entries[i]).0@ == t
}

/// Pairing keeps a register one-to-one and finite, and the new pair is in it.
pub proof fn lemma_paired(m: Map<Seq<u8>, Player>, token: Seq<u8>, player: Player)
    requires
        m.dom().finite(),
        one_to_one(m),
    ensures
        paired(m, token, player).dom().finite(),
        one_to_one(paired(m, token, player)),
        paired(m, token, player).contains_pair(token, player),
        has_player(paired(m, token, player), player),
        forall|other: Player|
            other != player ==> (has_player(paired(m, token, player), other) <==> exists|t: Seq<u8>|
                t != token && #[trigger] m.contains_pair(t, other)),
{
    let after = paired(m, token, player);
    assert(after.dom().subset_of(m.dom().insert(token)));
    vstd::set_lib::lemma_set_subset_finite(m.dom().insert(token), after.dom());
    assert(after.contains_pair(token, player));
    assert forall|other: Player| other != player implies (has_player(after, other) <==> exists|
        t: Seq<u8>,
    |
        t != token && #[trigger] m.contains_pair(t, other)) by {
        if has_player(after, other) {
            let t = choose|t: Seq<u8>| #[trigger] after.contains_pair(t, other);
            assert(t != token && m.contains_pair(t, other));
        }
        if exists|t: Seq<u8>| t != token && #[trigger] m.contains_pair(t, other) {
            let t = choose|t: Seq<u8>| t != token && #[trigger] m.contains_pair(t, other);
            assert(after.contains_pair(t, other));
        }
    }
}

/// Where neither the token nor the player was in the register, pairing them
/// adds one pair and touches no other.
pub proof fn lemma_paired_grows(m: Map<Seq<u8>, Player>, token: Seq<u8>, player: Player)
    requires
        m.dom().finite(),
        !m.dom().contains(token),
        !has_player(m, player),
    ensures
        paired(m, token, player) == m.insert(token, player),
        paired(m, token, player).dom().len() == m.dom().len() + 1,
{
    assert forall|t: Seq<u8>| m.dom().contains(t) implies m[t] != player by {
        if m[t] == player {
            assert(m.contains_pair(t, player));
        }
    }
    assert(paired(m, token, player) =~= m.insert(token, player));
}

/// A one-to-one register of two players holds at most two pairs.
pub proof fn lemma_at_most_two(m: Map<Seq<u8>, Player>)
    requires
        m.dom().finite(),
        one_to_one(m),
    ensures
        m.dom().len() <= 2,
{
    let first = choose|t: Seq<u8>| #[trigger] m.contains_pair(t, Player::P1);
    let second = choose|t: Seq<u8>| #[trigger] m.contains_pair(t, Player::P2);
    let both = Set::<Seq<u8>>::empty().insert(first).insert(second);
    assert forall|t: Seq<u8>| m.dom().contains(t) implies both.contains(t) by {
        match m[t] {
            Player::P1 => {
                assert(m.contains_pair(t, Player::P1));
                assert(m[first] == m[t]);
            },
            Player::P2 => {
                assert(m.contains_pair(t, Player::P2));
                assert(m[second] == m[t]);
            },
        }
    }
    assert(m.dom().subset_of(both));
    vstd::set_lib::lemma_len_subset(m.dom(), both);
}

/// `BiHashMap::new`: a register without pairs.
#[verifier::external_body]
pub(crate) fn empty_registry() -> (registry: BiHashMap<Identity, Player>)
    ensures
        pairs(registry) == (Map::<Seq<u8>, Player>::empty()),
{
    BiHashMap::new()
}

/// `BiHashMap::contains_right`: whether a pair of the register holds the
/// player.
#[verifier::external_body]
pub(crate) fn contains_right(registry: &BiHashMap<Identity, Player>, player: &Player) -> (found:
    bool)
    ensures
        found == has_player(pairs(*registry), *player),
{
    registry.contains_right(player)
}

/// `BiHashMap::get_by_left`: the player paired with the token, if the
/// register holds the token.
#[verifier::external_body]
pub(crate) fn get_by_left(registry: &BiHashMap<Identity, Player>, token: &Identity) -> (player:
    Option<Player>)
    ensures
        player.is_some() == pairs(*registry).dom().contains(token@),
        player matches Some(p) ==> pairs(*registry)[token@] == p,
{
    registry.get_by_left(token).copied()
}

/// `BiHashMap::insert`: removes the pair that holds the token and the pair
/// that holds the player, if there are such pairs, then adds the new pair.
#[verifier::external_body]
pub(crate) fn insert(registry: &mut BiHashMap<Identity, Player>, token: Identity, player: Player)
    ensures
        pairs(*final(registry)) == paired(pairs(*old(registry)), token@, player),
{
    registry.insert(token, player);
}

/// `BiHashMap::iter`: walks the pairs of the register, each once, in an
/// order that is not fixed.
#[verifier::external_body]
pub(crate) fn entries(registry: &BiHashMap<Identity, Player>) -> (list: Vec<(Identity, Player)>)
    ensures
        lists(list@, pairs(*registry)),
{
    registry.iter().map(|(token, player)| (*token, *player)).collect()
}

} // verus!
