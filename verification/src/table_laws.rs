//! What each move does to the table, part by part.

use crate::game::{player_views, Player};
use crate::model::{GameView, PlayerView};
use crate::text::texts;
use vstd::prelude::*;

verus! {

/// A new table has the seats from 1 on, the last one at the end, all of the cards in
/// their order, and nothing else.
pub proof fn law_a_new_table_is_bare<C, R>(playernum: usize, roles: Seq<Seq<char>>)
    ensures
        ({
            let game = GameView::<C, R>::fresh(playernum, roles);
            &&& forall|id: usize| !#[trigger] game.players.contains_key(id)
            &&& forall|name: Seq<char>| !#[trigger] game.name_to_id.contains_key(name)
            &&& forall|id: usize| !#[trigger] game.player_channels.contains_key(id)
            &&& forall|id: usize| !#[trigger] game.pending_responses.contains_key(id)
            &&& forall|id: usize| !#[trigger] game.used_ids.contains(id)
            &&& game.available_ids.len() == playernum
            &&& forall|i: int| 0 <= i < playernum ==> #[trigger] game.available_ids[i] == i + 1
            &&& game.available_roles == roles
            &&& game.center_cards.len() == 0
            &&& !game.night_phase
            &&& game.robot is None
            &&& game.well_formed()
        }),
{
}

/// A client finds room exactly when a seat and a card are left. It gets the last of
/// each, under the name that it gave and with its own channel. The other players,
/// seats, cards, names and channels stay as they were.
pub proof fn law_a_newcomer_gets_the_last_seat_and_card<C, R>(
    game: GameView<C, R>,
    name: Seq<char>,
    channel: C,
)
    ensures
        game.has_room() <==> game.available_ids.len() != 0 && game.available_roles.len() != 0,
        game.has_room() ==> ({
            let next = game.join(name, channel);
            let seats = game.available_ids.len() - 1;
            let left = game.available_roles.len() - 1;
            let id = game.available_ids[seats];
            let player = PlayerView { name, role: game.available_roles[left], num: id };
            &&& game.newcomer(name) == player
            &&& next.players.contains_key(id)
            &&& next.players[id] == player
            &&& next.player_channels.contains_key(id)
            &&& next.player_channels[id] == channel
            &&& next.used_ids.contains(id)
            &&& next.name_to_id.contains_key(name)
            &&& next.name_to_id[name] == id
            &&& forall|other: usize|
                other != id ==> {
                    &&& #[trigger] next.players.contains_key(other) == game.players.contains_key(
                        other,
                    )
                    &&& next.players[other] == game.players[other]
                }
            &&& forall|other: usize|
                other != id ==> {
                    &&& #[trigger] next.player_channels.contains_key(other)
                        == game.player_channels.contains_key(other)
                    &&& next.player_channels[other] == game.player_channels[other]
                }
            &&& forall|other: usize|
                other != id ==> #[trigger] next.used_ids.contains(other) == game.used_ids.contains(
                    other,
                )
            &&& forall|other: Seq<char>|
                other != name ==> {
                    &&& #[trigger] next.name_to_id.contains_key(other)
                        == game.name_to_id.contains_key(other)
                    &&& next.name_to_id[other] == game.name_to_id[other]
                }
            &&& next.available_ids.len() == seats
            &&& forall|i: int|
                0 <= i < seats ==> #[trigger] next.available_ids[i] == game.available_ids[i]
            &&& next.available_roles.len() == left
            &&& forall|i: int|
                0 <= i < left ==> #[trigger] next.available_roles[i] == game.available_roles[i]
            &&& next.night_phase == game.night_phase
            &&& next.center_cards == game.center_cards
            &&& next.pending_responses == game.pending_responses
            &&& next.robot == game.robot
        }),
{
}

/// A client for whom no seat is left changes nothing. One for whom a seat is left but
/// no card takes away the last seat, and the seats before it stay in their order.
pub proof fn law_a_refusal_costs_the_last_seat_at_most<C, R>(
    game: GameView<C, R>,
    name: Seq<char>,
    channel: C,
)
    ensures
        game.available_ids.len() == 0 ==> game.join(name, channel) == game,
        game.available_ids.len() != 0 && game.available_roles.len() == 0 ==> ({
            let next = game.join(name, channel);
            &&& next == (GameView { available_ids: next.available_ids, ..game })
            &&& next.available_ids.len() == game.available_ids.len() - 1
            &&& forall|i: int|
                0 <= i < next.available_ids.len() ==> #[trigger] next.available_ids[i]
                    == game.available_ids[i]
        }),
{
}

/// Whoever leaves is gone with their channel and every name that led to them. Their
/// seat comes behind the other free seats. The other players, names and channels, the
/// cards that are left and the open questions stay as they were.
pub proof fn law_a_leaver_is_gone<C, R>(game: GameView<C, R>, id: usize)
    ensures
        ({
            let next = game.leave(id);
            let seats = game.available_ids.len();
            &&& !next.players.contains_key(id)
            &&& !next.player_channels.contains_key(id)
            &&& !next.used_ids.contains(id)
            &&& forall|other: usize|
                other != id ==> {
                    &&& #[trigger] next.players.contains_key(other) == game.players.contains_key(
                        other,
                    )
                    &&& game.players.contains_key(other) ==> next.players[other]
                        == game.players[other]
                }
            &&& forall|other: usize|
                other != id ==> {
                    &&& #[trigger] next.player_channels.contains_key(other)
                        == game.player_channels.contains_key(other)
                    &&& game.player_channels.contains_key(other) ==> next.player_channels[other]
                        == game.player_channels[other]
                }
            &&& forall|other: usize|
                other != id ==> #[trigger] next.used_ids.contains(other) == game.used_ids.contains(
                    other,
                )
            &&& forall|name: Seq<char>|
                {
                    &&& #[trigger] next.name_to_id.contains_key(name) <==> (
                    game.name_to_id.contains_key(name) && game.name_to_id[name] != id)
                    &&& next.name_to_id.contains_key(name) ==> next.name_to_id[name]
                        == game.name_to_id[name]
                }
            &&& next.available_ids.len() == seats + 1
            &&& next.available_ids[seats as int] == id
            &&& forall|i: int|
                0 <= i < seats ==> #[trigger] next.available_ids[i] == game.available_ids[i]
            &&& next.available_roles == game.available_roles
            &&& next.night_phase == game.night_phase
            &&& next.center_cards == game.center_cards
            &&& next.pending_responses == game.pending_responses
            &&& next.robot == game.robot
        }),
{
}

/// A full game has seven players.
pub proof fn law_a_full_game_has_seven_players<C, R>(game: GameView<C, R>)
    ensures
        game.is_full_game() <==> game.players.dom().len() == 7,
{
}

/// The cards that are left lie in the centre, in their order, and are still left.
/// Nothing else changes.
pub proof fn law_the_center_is_what_is_left<C, R>(game: GameView<C, R>)
    ensures
        ({
            let next = game.set_center();
            &&& next == (GameView { center_cards: next.center_cards, ..game })
            &&& next.center_cards.len() == game.available_roles.len()
            &&& forall|i: int|
                0 <= i < next.center_cards.len() ==> #[trigger] next.center_cards[i]
                    == game.available_roles[i]
        }),
{
}

/// The robot takes the last card that is left and the cards before it stay. Nothing
/// else changes.
pub proof fn law_the_robot_takes_the_last_card<C, R>(game: GameView<C, R>)
    requires
        game.available_roles.len() > 0,
    ensures
        ({
            let next = game.set_robot();
            let left = game.available_roles.len() - 1;
            &&& next == (GameView {
                robot: next.robot,
                available_roles: next.available_roles,
                ..game
            })
            &&& next.robot == Some(game.available_roles[left])
            &&& next.available_roles.len() == left
            &&& forall|i: int|
                0 <= i < left ==> #[trigger] next.available_roles[i] == game.available_roles[i]
        }),
{
}

/// A question to a player is open where its answer is to be put, and stays so until it
/// is taken back. Questions to others and the rest of the table stay as they were.
pub proof fn law_a_question_is_open_until_taken_back<C, R>(
    game: GameView<C, R>,
    id: usize,
    reply: R,
)
    ensures
        ({
            let asked = game.await_reply(id, reply);
            let done = game.forget_reply(id);
            &&& asked == (GameView { pending_responses: asked.pending_responses, ..game })
            &&& asked.pending_responses.contains_key(id)
            &&& asked.pending_responses[id] == reply
            &&& forall|other: usize|
                other != id ==> {
                    &&& #[trigger] asked.pending_responses.contains_key(other)
                        == game.pending_responses.contains_key(other)
                    &&& asked.pending_responses[other] == game.pending_responses[other]
                }
            &&& done == (GameView { pending_responses: done.pending_responses, ..game })
            &&& !done.pending_responses.contains_key(id)
            &&& forall|other: usize|
                other != id ==> {
                    &&& #[trigger] done.pending_responses.contains_key(other)
                        == game.pending_responses.contains_key(other)
                    &&& game.pending_responses.contains_key(other)
                        ==> done.pending_responses[other] == game.pending_responses[other]
                }
        }),
{
}

/// Dusk and dawn change whether it is night, and nothing else.
pub proof fn law_night_is_a_flag<C, R>(game: GameView<C, R>, night_phase: bool)
    ensures
        game.with_night(night_phase).night_phase == night_phase,
        game.with_night(night_phase) == (GameView {
            night_phase: game.with_night(night_phase).night_phase,
            ..game
        }),
        game.with_night(night_phase).with_night(game.night_phase) == game,
{
}

/// After an exchange each of the two players holds the other's card under the name and
/// at the seat of before. The other players and the rest of the table stay as they
/// were.
pub proof fn law_each_gets_the_others_card<C, R>(game: GameView<C, R>, a: usize, b: usize)
    requires
        game.players.contains_key(a),
        game.players.contains_key(b),
    ensures
        ({
            let next = game.swap_roles(a, b);
            &&& next == (GameView { players: next.players, ..game })
            &&& next.players[a].role == game.players[b].role
            &&& next.players[b].role == game.players[a].role
            &&& forall|id: usize|
                {
                    &&& #[trigger] next.players.contains_key(id) == game.players.contains_key(id)
                    &&& game.players.contains_key(id) ==> {
                        &&& next.players[id].name == game.players[id].name
                        &&& next.players[id].num == game.players[id].num
                        &&& id != a && id != b ==> next.players[id].role == game.players[id].role
                    }
                }
        }),
{
}

/// After an exchange with the centre the player holds the card that lay there, and the
/// player's card lies in its place. The other players, the other cards in the centre
/// and the rest of the table stay as they were.
pub proof fn law_player_and_center_change_cards<C, R>(game: GameView<C, R>, id: usize, index: int)
    requires
        game.players.contains_key(id),
        0 <= index < game.center_cards.len(),
    ensures
        ({
            let next = game.swap_with_center(id, index);
            &&& next == (GameView {
                players: next.players,
                center_cards: next.center_cards,
                ..game
            })
            &&& next.players[id].role == game.center_cards[index]
            &&& next.center_cards[index] == game.players[id].role
            &&& next.center_cards.len() == game.center_cards.len()
            &&& forall|i: int|
                0 <= i < game.center_cards.len() && i != index
                    ==> #[trigger] next.center_cards[i] == game.center_cards[i]
            &&& forall|other: usize|
                {
                    &&& #[trigger] next.players.contains_key(other) == game.players.contains_key(
                        other,
                    )
                    &&& game.players.contains_key(other) ==> {
                        &&& next.players[other].name == game.players[other].name
                        &&& next.players[other].num == game.players[other].num
                        &&& other != id ==> next.players[other].role == game.players[other].role
                    }
                }
        }),
{
}

/// A list of players shows each player, and a list of strings each string, in its
/// place.
pub proof fn law_lists_show_every_item(players: Seq<Player>, strings: Seq<String>)
    ensures
        player_views(players).len() == players.len(),
        forall|i: int|
            0 <= i < players.len() ==> {
                &&& (#[trigger] player_views(players)[i]).name == players[i].name@
                &&& player_views(players)[i].role == players[i].role@
                &&& player_views(players)[i].num == players[i].num
            },
        texts(strings).len() == strings.len(),
        forall|i: int| 0 <= i < strings.len() ==> #[trigger] texts(strings)[i] == strings[i]@,
{
}

} // verus!
