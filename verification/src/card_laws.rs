//! What holds of the cards as a whole.

use crate::laws::{law_seated_table_is_well_formed, seated};
use crate::model::GameView;
use vstd::prelude::*;

verus! {

/// The seats of the players who hold `role`.
pub open spec fn holders<C, R>(game: GameView<C, R>, role: Seq<char>) -> Set<usize> {
    game.players.dom().filter(|id: usize| game.players[id].role == role)
}

/// How many cards with `role` players hold or lie in the centre.
pub open spec fn cards<C, R>(game: GameView<C, R>, role: Seq<char>) -> nat {
    holders(game, role).len() + game.center_cards.to_multiset().count(role)
}

/// 1 where two roles are the same, else 0.
spec fn same(a: Seq<char>, b: Seq<char>) -> nat {
    if a == b {
        1
    } else {
        0
    }
}

proof fn lemma_new_card<C, R>(game: GameView<C, R>, id: usize, new: Seq<char>, role: Seq<char>)
    requires
        game.well_formed(),
        game.players.contains_key(id),
    ensures
        holders(game.with_role(id, new), role).len() + same(game.players[id].role, role)
            == holders(game, role).len() + same(new, role),
{
    let next = game.with_role(id, new);
    let old = game.players[id].role;
    let others = holders(game, role).remove(id);
    assert(next.players.dom() =~= game.players.dom());
    assert(holders(next, role).remove(id) =~= others);
    if old == role {
        assert(holders(game, role).contains(id));
        assert(holders(game, role) =~= others.insert(id));
    } else {
        assert(holders(game, role) =~= others);
    }
    if new == role {
        assert(holders(next, role) =~= others.insert(id));
    } else {
        assert(holders(next, role) =~= others);
    }
}

proof fn lemma_count_update(s: Seq<Seq<char>>, i: int, new: Seq<char>, role: Seq<char>)
    requires
        0 <= i < s.len(),
    ensures
        s.update(i, new).to_multiset().count(role) + same(s[i], role) == s.to_multiset().count(role)
            + same(new, role),
{
    let t = s.update(i, new);
    s.to_multiset_ensures();
    t.to_multiset_ensures();
    assert(t.remove(i) =~= s.remove(i));
    assert(t.remove(i).to_multiset() =~= t.to_multiset().remove(t[i]));
    assert(s.remove(i).to_multiset() =~= s.to_multiset().remove(s[i]));
    assert(t.contains(t[i]));
    assert(s.contains(s[i]));
    assert(t.to_multiset().count(new) > 0);
    assert(s.to_multiset().count(s[i]) > 0);
    assert(t.to_multiset().remove(new).count(role) == t.to_multiset().count(role) - same(
        new,
        role,
    ));
    assert(s.to_multiset().remove(s[i]).count(role) == s.to_multiset().count(role) - same(
        s[i],
        role,
    ));
}

/// When two players exchange cards, no card is lost and none is added.
pub proof fn law_exchange_keeps_cards<C, R>(
    game: GameView<C, R>,
    a: usize,
    b: usize,
    role: Seq<char>,
)
    requires
        game.well_formed(),
        game.players.contains_key(a),
        game.players.contains_key(b),
    ensures
        cards(game.swap_roles(a, b), role) == cards(game, role),
{
    let between = game.with_role(a, game.players[b].role);
    lemma_new_card(game, a, game.players[b].role, role);
    lemma_new_card(between, b, game.players[a].role, role);
}

/// When a player and the centre exchange cards, no card is lost and none is added.
pub proof fn law_center_exchange_keeps_cards<C, R>(
    game: GameView<C, R>,
    id: usize,
    index: int,
    role: Seq<char>,
)
    requires
        game.well_formed(),
        game.players.contains_key(id),
        0 <= index < game.center_cards.len(),
    ensures
        cards(game.swap_with_center(id, index), role) == cards(game, role),
{
    let card = game.center_cards[index];
    lemma_new_card(game, id, card, role);
    lemma_count_update(game.center_cards, index, game.players[id].role, role);
    assert(holders(game.swap_with_center(id, index), role) =~= holders(
        game.with_role(id, card),
        role,
    ));
}

/// The same exchange once more undoes it, and it does not matter who is named first.
pub proof fn law_exchange_undoes_itself<C, R>(game: GameView<C, R>, a: usize, b: usize)
    requires
        game.well_formed(),
        game.players.contains_key(a),
        game.players.contains_key(b),
    ensures
        game.swap_roles(a, b).swap_roles(a, b) == game,
        game.swap_roles(a, b) == game.swap_roles(b, a),
{
    assert(game.swap_roles(a, b).swap_roles(a, b).players =~= game.players);
    assert(game.swap_roles(a, b).players =~= game.swap_roles(b, a).players);
}

/// The same exchange with the centre once more undoes it.
pub proof fn law_center_exchange_undoes_itself<C, R>(
    game: GameView<C, R>,
    id: usize,
    index: int,
)
    requires
        game.well_formed(),
        game.players.contains_key(id),
        0 <= index < game.center_cards.len(),
    ensures
        game.swap_with_center(id, index).swap_with_center(id, index) == game,
{
    let back = game.swap_with_center(id, index).swap_with_center(id, index);
    assert(back.players =~= game.players);
    assert(back.center_cards =~= game.center_cards);
}

/// How many cards with `role` players hold or are still to be dealt.
pub open spec fn dealt_or_left<C, R>(game: GameView<C, R>, role: Seq<char>) -> nat {
    holders(game, role).len() + game.available_roles.to_multiset().count(role)
}

/// A card is dealt from those that are left: none is lost and none is added. Nothing
/// is dealt to a client who is refused.
pub proof fn law_dealing_keeps_cards<C, R>(
    game: GameView<C, R>,
    name: Seq<char>,
    channel: C,
    role: Seq<char>,
)
    requires
        game.well_formed(),
    ensures
        dealt_or_left(game.join(name, channel), role) == dealt_or_left(game, role),
{
    let next = game.join(name, channel);
    if game.has_room() {
        let player = game.newcomer(name);
        let n = game.available_ids.len() as int;
        assert(!game.players.contains_key(player.num)) by {
            assert(game.available_ids[n - 1] == player.num);
        }
        assert(next.available_roles.push(player.role) =~= game.available_roles);
        next.available_roles.to_multiset_ensures();
        assert(game.available_roles.to_multiset() =~= next.available_roles.to_multiset().insert(
            player.role,
        ));
        if player.role == role {
            assert(holders(next, role) =~= holders(game, role).insert(player.num));
        } else {
            assert(holders(next, role) =~= holders(game, role));
        }
    } else {
        assert(holders(next, role) =~= holders(game, role));
    }
}

/// A player who leaves takes the card away.
pub proof fn law_leaving_takes_the_card_away<C, R>(
    game: GameView<C, R>,
    id: usize,
    role: Seq<char>,
)
    requires
        game.well_formed(),
        game.players.contains_key(id),
    ensures
        dealt_or_left(game.leave(id), role) + (if game.players[id].role == role {
            1nat
        } else {
            0nat
        }) == dealt_or_left(game, role),
{
    let next = game.leave(id);
    assert(holders(next, role) =~= holders(game, role).remove(id));
}

proof fn lemma_seating_keeps_cards<C, R>(
    game: GameView<C, R>,
    visitors: Seq<(Seq<char>, C)>,
    role: Seq<char>,
)
    requires
        game.well_formed(),
    ensures
        dealt_or_left(seated(game, visitors), role) == dealt_or_left(game, role),
    decreases visitors.len(),
{
    if visitors.len() > 0 {
        lemma_seating_keeps_cards(game, visitors.drop_last(), role);
        law_seated_table_is_well_formed(game, visitors.drop_last());
        law_dealing_keeps_cards(
            seated(game, visitors.drop_last()),
            visitors.last().0,
            visitors.last().1,
            role,
        );
    }
}

/// When clients have sat down at a new table and the centre is laid out, the cards of
/// the players and of the centre together are the deck.
pub proof fn law_a_game_is_played_with_the_deck<C, R>(
    playernum: usize,
    roles: Seq<Seq<char>>,
    visitors: Seq<(Seq<char>, C)>,
    role: Seq<char>,
)
    ensures
        cards(seated(GameView::<C, R>::fresh(playernum, roles), visitors).set_center(), role)
            == roles.to_multiset().count(role),
{
    let start = GameView::<C, R>::fresh(playernum, roles);
    let game = seated(start, visitors);
    lemma_seating_keeps_cards(start, visitors, role);
    assert(holders(start, role) =~= Set::empty());
    assert(holders(game.set_center(), role) =~= holders(game, role));
}

} // verus!
