//! What holds of the table as a whole.

use crate::model::{GameView, PlayerView};
use crate::roles::SEATS;
use vstd::prelude::*;

verus! {

/// Whether every seat, taken or free, is numbered from 1 to `seats`.
pub open spec fn seats_within<C, R>(game: GameView<C, R>, seats: usize) -> bool {
    &&& forall|id: usize| #[trigger] game.players.contains_key(id) ==> 1 <= id <= seats
    &&& forall|i: int|
        0 <= i < game.available_ids.len() ==> 1 <= #[trigger] game.available_ids[i] <= seats
}

/// The seats that are taken or free.
pub open spec fn all_seats<C, R>(game: GameView<C, R>) -> Set<usize> {
    game.players.dom() + game.available_ids.to_set()
}

/// Everything that can happen to a table.
pub enum Move<C, R> {
    Join { name: Seq<char>, channel: C },
    Leave { id: usize },
    SetCenter,
    SetRobot,
    AwaitReply { id: usize, reply: R },
    ForgetReply { id: usize },
    SetNight { night_phase: bool },
    SwapRoles { a: usize, b: usize },
    SwapWithCenter { id: usize, index: int },
}

/// Whether a move can be made.
pub open spec fn allowed<C, R>(game: GameView<C, R>, step: Move<C, R>) -> bool {
    match step {
        Move::Leave { id } => game.players.contains_key(id),
        Move::SetRobot => game.available_roles.len() > 0,
        Move::SwapRoles { a, b } => game.players.contains_key(a) && game.players.contains_key(b),
        Move::SwapWithCenter { id, index } => {
            game.players.contains_key(id) && 0 <= index < game.center_cards.len()
        },
        _ => true,
    }
}

/// The table after a move.
pub open spec fn after<C, R>(game: GameView<C, R>, step: Move<C, R>) -> GameView<C, R> {
    match step {
        Move::Join { name, channel } => game.join(name, channel),
        Move::Leave { id } => game.leave(id),
        Move::SetCenter => game.set_center(),
        Move::SetRobot => game.set_robot(),
        Move::AwaitReply { id, reply } => game.await_reply(id, reply),
        Move::ForgetReply { id } => game.forget_reply(id),
        Move::SetNight { night_phase } => game.with_night(night_phase),
        Move::SwapRoles { a, b } => game.swap_roles(a, b),
        Move::SwapWithCenter { id, index } => game.swap_with_center(id, index),
    }
}

/// The table after several moves.
pub open spec fn after_all<C, R>(game: GameView<C, R>, steps: Seq<Move<C, R>>) -> GameView<C, R>
    decreases steps.len(),
{
    if steps.len() == 0 {
        game
    } else {
        after(after_all(game, steps.drop_last()), steps.last())
    }
}

/// Whether several moves can be made one after the other.
pub open spec fn all_allowed<C, R>(game: GameView<C, R>, steps: Seq<Move<C, R>>) -> bool
    decreases steps.len(),
{
    steps.len() == 0 || (all_allowed(game, steps.drop_last()) && allowed(
        after_all(game, steps.drop_last()),
        steps.last(),
    ))
}

/// A move keeps a table well-formed and opens no seats that were not there.
pub proof fn law_move_keeps_table<C, R>(game: GameView<C, R>, step: Move<C, R>, seats: usize)
    requires
        game.well_formed(),
        allowed(game, step),
    ensures
        after(game, step).well_formed(),
        seats_within(game, seats) ==> seats_within(after(game, step), seats),
{
    let next = after(game, step);
    match step {
        Move::Leave { id } => {
            assert(game.players.contains_key(id));
            assert forall|i: int| 0 <= i < next.available_ids.len() implies {
                &&& !next.players.contains_key(#[trigger] next.available_ids[i])
                &&& seats_within(game, seats) ==> 1 <= next.available_ids[i] <= seats
            } by {
                if i < game.available_ids.len() {
                    assert(next.available_ids[i] == game.available_ids[i]);
                }
            }
            assert forall|name: Seq<char>| #[trigger] next.name_to_id.contains_key(name) implies {
                &&& next.players.contains_key(next.name_to_id[name])
                &&& next.players[next.name_to_id[name]].name == name
            } by {
                assert(game.name_to_id.contains_key(name));
            }
        },
        Move::Join { name, channel } => {
            if game.available_ids.len() > 0 {
                assert(game.available_ids.last() == game.available_ids[game.available_ids.len()
                    - 1]);
                assert forall|i: int| 0 <= i < next.available_ids.len() implies {
                    &&& !next.players.contains_key(#[trigger] next.available_ids[i])
                    &&& seats_within(game, seats) ==> 1 <= next.available_ids[i] <= seats
                } by {
                    assert(next.available_ids[i] == game.available_ids[i]);
                }
            }
        },
        _ => {},
    }
}

/// Whatever happens to a new table, it stays well-formed, and its seats are among
/// those that it began with.
pub proof fn law_every_table_is_well_formed<C, R>(
    playernum: usize,
    roles: Seq<Seq<char>>,
    steps: Seq<Move<C, R>>,
)
    requires
        all_allowed(GameView::<C, R>::fresh(playernum, roles), steps),
    ensures
        after_all(GameView::<C, R>::fresh(playernum, roles), steps).well_formed(),
        seats_within(after_all(GameView::<C, R>::fresh(playernum, roles), steps), playernum),
    decreases steps.len(),
{
    let start = GameView::<C, R>::fresh(playernum, roles);
    if steps.len() > 0 {
        law_every_table_is_well_formed(playernum, roles, steps.drop_last());
        law_move_keeps_table(after_all(start, steps.drop_last()), steps.last(), playernum);
    }
}

proof fn lemma_few_seats<C, R>(game: GameView<C, R>, seats: usize)
    requires
        game.well_formed(),
        seats_within(game, seats),
    ensures
        game.players.len() <= seats,
{
    let taken = game.players.dom().map(|id: usize| id as int);
    let numbers = vstd::set_lib::set_int_range(1, seats + 1);
    vstd::set_lib::lemma_int_range(1, seats + 1);
    assert(taken.subset_of(numbers));
    vstd::set_lib::lemma_len_subset(taken, numbers);
    vstd::set_lib::lemma_map_size(game.players.dom(), taken, |id: usize| id as int);
}

/// No more players sit at a table than it has seats.
pub proof fn law_no_more_players_than_seats<C, R>(
    playernum: usize,
    roles: Seq<Seq<char>>,
    steps: Seq<Move<C, R>>,
)
    requires
        all_allowed(GameView::<C, R>::fresh(playernum, roles), steps),
    ensures
        after_all(GameView::<C, R>::fresh(playernum, roles), steps).players.len() <= playernum,
{
    law_every_table_is_well_formed(playernum, roles, steps);
    lemma_few_seats(after_all(GameView::<C, R>::fresh(playernum, roles), steps), playernum);
}

/// At the server's table a full game never comes together: it has fewer seats than
/// a full game has players.
pub proof fn law_server_table_is_never_a_full_game<C, R>(
    roles: Seq<Seq<char>>,
    steps: Seq<Move<C, R>>,
)
    requires
        all_allowed(GameView::<C, R>::fresh(SEATS, roles), steps),
    ensures
        !after_all(GameView::<C, R>::fresh(SEATS, roles), steps).is_full_game(),
{
    law_no_more_players_than_seats(SEATS, roles, steps);
}

/// Sitting down and leaving again gives back the seat. The card stays away, and the
/// name leads nowhere.
pub proof fn law_leave_undoes_join<C, R>(game: GameView<C, R>, name: Seq<char>, channel: C)
    requires
        game.well_formed(),
        game.has_room(),
    ensures
        game.join(name, channel).leave(game.newcomer(name).num) == (GameView {
            available_roles: game.available_roles.drop_last(),
            name_to_id: game.name_to_id.remove(name),
            ..game
        }),
{
    let id = game.newcomer(name).num;
    let back = game.join(name, channel).leave(id);
    assert(id == game.available_ids[game.available_ids.len() - 1]);
    assert(back.players =~= game.players);
    assert(back.player_channels =~= game.player_channels);
    assert(back.used_ids =~= game.used_ids);
    assert(back.available_ids =~= game.available_ids);
    assert forall|n: Seq<char>| back.name_to_id.contains_key(n) implies game.name_to_id.remove(
        name,
    ).contains_key(n) by {}
    assert forall|n: Seq<char>| game.name_to_id.remove(name).contains_key(
        n,
    ) implies back.name_to_id.contains_key(n) by {
        assert(game.name_to_id.contains_key(n));
    }
    assert(back.name_to_id =~= game.name_to_id.remove(name));
}

/// A client who sits down takes a seat that was free; one who leaves frees it. No
/// seat is lost.
pub proof fn law_seats_are_kept<C, R>(
    game: GameView<C, R>,
    name: Seq<char>,
    channel: C,
    id: usize,
)
    requires
        game.well_formed(),
    ensures
        game.has_room() ==> all_seats(game.join(name, channel)) == all_seats(game),
        game.players.contains_key(id) ==> all_seats(game.leave(id)) == all_seats(game),
{
    if game.has_room() {
        let next = game.join(name, channel);
        let n = game.available_ids.len() as int;
        assert forall|s: usize| all_seats(game).contains(s) implies all_seats(next).contains(s) by {
            if game.available_ids.contains(s) {
                let k = choose|k: int| 0 <= k < n && game.available_ids[k] == s;
                if k < n - 1 {
                    assert(next.available_ids[k] == s);
                }
            }
        }
        assert forall|s: usize| all_seats(next).contains(s) implies all_seats(game).contains(s) by {
            if next.available_ids.contains(s) {
                let k = choose|k: int| 0 <= k < n - 1 && next.available_ids[k] == s;
                assert(game.available_ids[k] == s);
            } else if s == game.available_ids.last() {
                assert(game.available_ids[n - 1] == s);
            }
        }
        assert(all_seats(next) =~= all_seats(game));
    }
    if game.players.contains_key(id) {
        let next = game.leave(id);
        let n = game.available_ids.len() as int;
        assert(next.available_ids[n] == id);
        assert forall|s: usize| all_seats(game).contains(s) implies all_seats(next).contains(s) by {
            if game.available_ids.contains(s) {
                let k = choose|k: int| 0 <= k < n && game.available_ids[k] == s;
                assert(next.available_ids[k] == s);
            }
        }
        assert forall|s: usize| all_seats(next).contains(s) implies all_seats(game).contains(s) by {
            if next.available_ids.contains(s) {
                let k = choose|k: int| 0 <= k <= n && next.available_ids[k] == s;
                if k < n {
                    assert(game.available_ids[k] == s);
                }
            }
        }
        assert(all_seats(next) =~= all_seats(game));
    }
}

/// A client who is refused disturbs nobody: without a seat nothing changes, and
/// without a card no more than that the seat which was held out is lost.
pub proof fn law_refusal_disturbs_nobody<C, R>(game: GameView<C, R>, name: Seq<char>, channel: C)
    requires
        game.well_formed(),
        !game.has_room(),
    ensures
        game.available_ids.len() == 0 ==> game.join(name, channel) == game,
        game.available_ids.len() > 0 ==> all_seats(game.join(name, channel)) == all_seats(
            game,
        ).remove(game.available_ids.last()),
        game.join(name, channel) == (GameView {
            available_ids: game.join(name, channel).available_ids,
            ..game
        }),
{
    if game.available_ids.len() > 0 {
        let next = game.join(name, channel);
        let n = game.available_ids.len() as int;
        let lost = game.available_ids[n - 1];
        assert forall|s: usize|
            all_seats(next).contains(s) implies #[trigger] all_seats(game).contains(s) && s
            != lost by {
            if next.available_ids.contains(s) {
                let k = choose|k: int| 0 <= k < n - 1 && next.available_ids[k] == s;
                assert(game.available_ids[k] == s);
            }
        }
        assert forall|s: usize|
            all_seats(game).contains(s) && s != lost implies #[trigger] all_seats(next).contains(
            s,
        ) by {
            if game.available_ids.contains(s) {
                let k = choose|k: int| 0 <= k < n && game.available_ids[k] == s;
                assert(next.available_ids[k] == s);
            }
        }
        assert(all_seats(next) =~= all_seats(game).remove(lost));
    }
}

/// Whoever leaves, everybody else stays as they are, and a name that led to
/// somebody else still leads there.
pub proof fn law_leaving_disturbs_nobody_else<C, R>(
    game: GameView<C, R>,
    id: usize,
    other: usize,
    name: Seq<char>,
)
    requires
        game.well_formed(),
        game.players.contains_key(id),
        other != id,
    ensures
        game.leave(id).players.contains_key(other) == game.players.contains_key(other),
        game.players.contains_key(other) ==> {
            &&& game.leave(id).players[other] == game.players[other]
            &&& game.leave(id).player_channels[other] == game.player_channels[other]
        },
        game.name_to_id.contains_key(name) && game.name_to_id[name] == other ==> {
            &&& game.leave(id).name_to_id.contains_key(name)
            &&& game.leave(id).name_to_id[name] == other
        },
        !game.leave(id).name_to_id.contains_value(id),
        game.leave(id).pending_responses == game.pending_responses,
{
}

/// The table after several clients asked to sit down, each with a name and a
/// channel.
pub open spec fn seated<C, R>(
    game: GameView<C, R>,
    visitors: Seq<(Seq<char>, C)>,
) -> GameView<C, R>
    decreases visitors.len(),
{
    if visitors.len() == 0 {
        game
    } else {
        seated(game, visitors.drop_last()).join(visitors.last().0, visitors.last().1)
    }
}

/// As long as seats and cards are left, clients get the seats from the last one
/// down and the cards from the end of the deck.
pub proof fn law_seats_and_cards_go_from_the_end<C, R>(
    playernum: usize,
    roles: Seq<Seq<char>>,
    visitors: Seq<(Seq<char>, C)>,
)
    requires
        visitors.len() <= playernum,
        visitors.len() <= roles.len(),
    ensures
        ({
            let game = seated(GameView::<C, R>::fresh(playernum, roles), visitors);
            &&& game.players.len() == visitors.len()
            &&& game.available_ids == Seq::new(
                (playernum - visitors.len()) as nat,
                |i: int| (i + 1) as usize,
            )
            &&& game.available_roles == roles.take(roles.len() - visitors.len())
            &&& forall|i: int|
                0 <= i < visitors.len() ==> {
                    let id = (playernum - i) as usize;
                    &&& game.players.contains_key(id)
                    &&& game.players[id] == (PlayerView {
                        name: (#[trigger] visitors[i]).0,
                        role: roles[roles.len() - 1 - i],
                        num: id,
                    })
                    &&& game.player_channels[id] == visitors[i].1
                }
        }),
    decreases visitors.len(),
{
    let start = GameView::<C, R>::fresh(playernum, roles);
    if visitors.len() == 0 {
        assert(start.available_ids =~= Seq::new(playernum as nat, |i: int| (i + 1) as usize));
        assert(roles.take(roles.len() as int) =~= roles);
    } else {
        let k = visitors.len() - 1;
        let before = seated(start, visitors.drop_last());
        law_seats_and_cards_go_from_the_end::<C, R>(playernum, roles, visitors.drop_last());
        law_seated_table_is_well_formed(start, visitors.drop_last());
        let game = seated(start, visitors);
        assert(before.available_ids.last() == (playernum - k) as usize);
        assert(before.available_roles.last() == roles[roles.len() - 1 - k]);
        assert(!before.players.contains_key(before.available_ids.last())) by {
            assert(before.available_ids.last() == before.available_ids[before.available_ids.len()
                - 1]);
        }
        assert(game.players.dom() =~= before.players.dom().insert(before.available_ids.last()));
        assert(game.available_ids =~= Seq::new(
            (playernum - visitors.len()) as nat,
            |i: int| (i + 1) as usize,
        ));
        assert(game.available_roles =~= roles.take(roles.len() - visitors.len()));
        assert forall|i: int| 0 <= i < visitors.len() implies {
            let id = (playernum - i) as usize;
            &&& game.players.contains_key(id)
            &&& game.players[id] == (PlayerView {
                name: (#[trigger] visitors[i]).0,
                role: roles[roles.len() - 1 - i],
                num: id,
            })
            &&& game.player_channels[id] == visitors[i].1
        } by {
            if i < k {
                assert(visitors.drop_last()[i] == visitors[i]);
            }
        }
    }
}

/// A well-formed table stays so while clients sit down.
pub proof fn law_seated_table_is_well_formed<C, R>(
    game: GameView<C, R>,
    visitors: Seq<(Seq<char>, C)>,
)
    requires
        game.well_formed(),
    ensures
        seated(game, visitors).well_formed(),
    decreases visitors.len(),
{
    if visitors.len() > 0 {
        law_seated_table_is_well_formed(game, visitors.drop_last());
        let step = Move::Join { name: visitors.last().0, channel: visitors.last().1 };
        law_move_keeps_table(seated(game, visitors.drop_last()), step, 0);
    }
}

/// The next message of a player answers the latest question and no other; after it
/// the player has no question to answer. Questions to others stay.
pub proof fn law_latest_question_is_answered<C, R>(
    game: GameView<C, R>,
    id: usize,
    earlier: R,
    reply: R,
    other: usize,
)
    requires
        other != id,
    ensures
        game.await_reply(id, earlier).await_reply(id, reply) == game.await_reply(id, reply),
        game.await_reply(id, reply).pending_responses.contains_key(id),
        game.await_reply(id, reply).pending_responses[id] == reply,
        !game.await_reply(id, reply).forget_reply(id).pending_responses.contains_key(id),
        !game.pending_responses.contains_key(id) ==> game.await_reply(id, reply).forget_reply(id)
            == game,
        game.await_reply(id, reply).pending_responses.contains_key(other)
            == game.pending_responses.contains_key(other),
        game.await_reply(id, reply).pending_responses[other] == game.pending_responses[other],
{
    assert(game.await_reply(id, earlier).await_reply(id, reply).pending_responses
        =~= game.await_reply(id, reply).pending_responses);
    if !game.pending_responses.contains_key(id) {
        assert(game.await_reply(id, reply).forget_reply(id).pending_responses
            =~= game.pending_responses);
    }
}

} // verus!
