//! What the players do at night, by the cards and the words of it.

use crate::card_laws::holders;
use crate::game::MessageView;
use crate::messages::{
    lone_werewolf, two_cards, DRUNK_NOTICE, NOT_A_NUMBER, NOT_TWO_NUMBERS, NOT_TWO_WORDS, NO_WEREWOLVES, ONLY_NIGHTWATCHER,
    ROBBER_NO_SUCH_PLAYER, ROBBER_QUESTION, SEER_NO_SUCH_PLAYER, SEER_QUESTION,
    TROUBLEMAKER_NO_SUCH_PLAYERS, TROUBLEMAKER_QUESTION,
};
use crate::model::{is_roster, GameView, PlayerView};
use crate::night::{
    after_drunk, all_told, can_follow, choice_view, drunk_reported, drunk_turn, follows,
    insomniac_turn, minion_turn, names, nightwatcher_turn, question_turn, silence, told, werewolves_turn,
    Asker, Next, NextView, Outcome, OutcomeView, Question, Step, StepView, Turn,
};
use crate::night_laws::{lemma_roster_is_holders, lemma_rosters};
use crate::roles::{
    DRUNK, INSOMNIAC, MINION, NIGHTWATCHER, ROBBER, SEER, TROUBLEMAKER, WEREWOLF,
};
use crate::text::{decimal, name_list, number, trimmed, white_space, words};
use crate::text_laws::{law_two_written_numbers_are_read, law_written_numbers_are_read};
use vstd::prelude::*;

verus! {

/// Whether nobody is told anything, nor the operator.
pub open spec fn nothing_is_said(out: OutcomeView) -> bool {
    out.messages.len() == 0 && out.log is None && !out.table_held
}

/// Whether `to` is told `text`, and nobody anything else.
pub open spec fn one_is_told(out: OutcomeView, to: usize, text: Seq<char>) -> bool {
    &&& out.messages.len() == 1
    &&& out.messages[0].to == to
    &&& out.messages[0].text == text
    &&& out.log is None
    &&& !out.table_held
}

/// Whether each player of a list is told `text` once, in the order of the list, and
/// nobody anything else.
pub open spec fn each_is_told(out: OutcomeView, list: Seq<PlayerView>, text: Seq<char>) -> bool {
    &&& out.messages.len() == list.len()
    &&& forall|i: int|
        0 <= i < list.len() ==> {
            &&& (#[trigger] out.messages[i]).to == list[i].num
            &&& out.messages[i].text == text
        }
    &&& out.log is None
    &&& !out.table_held
}

/// Whether a list holds every player at the table with `role`, each once, and nobody
/// else.
pub open spec fn lists<C, R>(
    game: GameView<C, R>,
    role: Seq<char>,
    list: Seq<PlayerView>,
) -> bool {
    &&& forall|i: int|
        0 <= i < list.len() ==> {
            &&& game.players.contains_key((#[trigger] list[i]).num)
            &&& game.players[list[i].num] == list[i]
            &&& list[i].role == role
        }
    &&& forall|i: int, j: int|
        0 <= i < j < list.len() ==> (#[trigger] list[i]).num != (#[trigger] list[j]).num
    &&& forall|id: usize| #[trigger]
        game.players.contains_key(id) && game.players[id].role == role ==> exists|i: int|
            0 <= i < list.len() && (#[trigger] list[i]).num == id
}

/// The names of the players of a list.
pub open spec fn names_on(list: Seq<PlayerView>) -> Seq<Seq<char>> {
    Seq::new(list.len(), |i: int| list[i].name)
}

/// The seats of the players of a list.
pub open spec fn seats_on(list: Seq<PlayerView>) -> Seq<usize> {
    Seq::new(list.len(), |i: int| list[i].num)
}

/// Whether only cards in the hands of players differ between two tables.
pub open spec fn differs_in_hands<C, R>(game: GameView<C, R>, next: GameView<C, R>) -> bool {
    &&& next == (GameView { players: next.players, ..game })
    &&& forall|id: usize| #[trigger]
        next.players.contains_key(id) == game.players.contains_key(id)
    &&& forall|id: usize| #[trigger]
        game.players.contains_key(id) ==> {
            &&& next.players[id].name == game.players[id].name
            &&& next.players[id].num == game.players[id].num
        }
}

/// The players of a role are found whole: in any order, but all of them and nobody
/// else, and none of them twice.
pub proof fn law_a_role_is_found_whole<C, R>(
    game: GameView<C, R>,
    role: Seq<char>,
    list: Seq<PlayerView>,
)
    requires
        game.well_formed(),
    ensures
        is_roster(game.players, role, list) <==> lists(game, role, list),
{
    if is_roster(game.players, role, list) {
        lemma_roster_is_listing(game, role, list);
    }
    if lists(game, role, list) {
        assert forall|id: usize| #[trigger]
            game.players.contains_key(id) && game.players[id].role == role implies list.contains(
            game.players[id],
        ) by {
            let i = choose|i: int| 0 <= i < list.len() && (#[trigger] list[i]).num == id;
            assert(list[i] == game.players[id]);
        }
    }
}

proof fn lemma_roster_is_listing<C, R>(
    game: GameView<C, R>,
    role: Seq<char>,
    list: Seq<PlayerView>,
)
    requires
        game.well_formed(),
        is_roster(game.players, role, list),
    ensures
        lists(game, role, list),
{
    assert forall|i: int, j: int| 0 <= i < j < list.len() implies (#[trigger] list[i]).num != (
    #[trigger] list[j]).num by {
        if list[i].num == list[j].num {
            assert(list[i] == list[j]);
        }
    }
    assert forall|id: usize| #[trigger]
        game.players.contains_key(id) && game.players[id].role == role implies exists|i: int|
        0 <= i < list.len() && (#[trigger] list[i]).num == id by {
        let i = choose|i: int| 0 <= i < list.len() && list[i] == game.players[id];
        assert(list[i].num == id);
    }
}

/// Nothing said, one player told and several told are what they are called.
pub proof fn law_words_reach_whom_they_are_meant_for(
    to: usize,
    list: Seq<PlayerView>,
    text: Seq<char>,
)
    ensures
        nothing_is_said(silence()) && silence().next == NextView::Done,
        one_is_told(told(to, text), to, text) && told(to, text).next == NextView::Done,
        each_is_told(all_told(list, text), list, text) && all_told(list, text).next
            == NextView::Done,
{
}

/// Of a list of werewolves, several are each told all the names; the only one is told
/// nothing yet and looks at a card; and where there are none nothing happens.
pub proof fn law_listed_werewolves(list: Seq<PlayerView>)
    ensures
        ({
            let out = werewolves_turn(list);
            &&& list.len() >= 2 ==> {
                &&& each_is_told(out, list, "你的狼人同伴是 "@ + name_list(names_on(list)))
                &&& out.next == NextView::Done
            }
            &&& list.len() == 1 ==> {
                &&& nothing_is_said(out)
                &&& out.next == NextView::Continue(
                    StepView::LoneWerewolf { werewolf: list[0].num },
                )
            }
            &&& list.len() == 0 ==> nothing_is_said(out) && out.next == NextView::Done
        }),
{
    assert(names(list) =~= names_on(list));
}

/// Of a list of minions, each is told the names of all werewolves of the other list,
/// or that there are none.
pub proof fn law_listed_minions(list: Seq<PlayerView>, werewolves: Seq<PlayerView>)
    ensures
        minion_turn(list, werewolves).next == NextView::Done,
        werewolves.len() >= 1 ==> each_is_told(
            minion_turn(list, werewolves),
            list,
            "狼人是： "@ + name_list(names_on(werewolves)),
        ),
        werewolves.len() == 0 ==> each_is_told(
            minion_turn(list, werewolves),
            list,
            NO_WEREWOLVES@,
        ),
{
    assert(names(werewolves) =~= names_on(werewolves));
}

/// Of a list of night watchers, several are each told all the names, and the only one
/// to be the only one.
pub proof fn law_listed_nightwatchers(list: Seq<PlayerView>)
    ensures
        nightwatcher_turn(list).next == NextView::Done,
        list.len() == 1 ==> one_is_told(
            nightwatcher_turn(list),
            list[0].num,
            ONLY_NIGHTWATCHER@,
        ),
        list.len() != 1 ==> each_is_told(
            nightwatcher_turn(list),
            list,
            "你的守夜人同伴是 "@ + name_list(names_on(list)),
        ),
{
    assert(names(list) =~= names_on(list));
}

/// A question goes to the first of a list and is theirs to answer. Without anybody on
/// the list nothing is asked.
pub proof fn law_the_first_on_the_list_is_asked(
    list: Seq<PlayerView>,
    text: Seq<char>,
    asker: Asker,
)
    ensures
        ({
            let out = question_turn(list, text, asker);
            &&& list.len() >= 1 ==> {
                &&& one_is_told(out, list[0].num, text)
                &&& out.next == NextView::Ask(Question { player: list[0].num, asker })
            }
            &&& list.len() == 0 ==> nothing_is_said(out) && out.next == NextView::Done
        }),
{
}

/// The first of a list of drunks is told of the exchange, which is theirs and follows.
/// Without drunks nothing happens.
pub proof fn law_listed_drunks(list: Seq<PlayerView>)
    ensures
        ({
            let out = drunk_turn(list);
            &&& list.len() >= 1 ==> {
                &&& one_is_told(out, list[0].num, DRUNK_NOTICE@)
                &&& out.next == NextView::Continue(StepView::DrunkSwap { drunk: list[0].num })
            }
            &&& list.len() == 0 ==> nothing_is_said(out) && out.next == NextView::Done
        }),
{
}

/// All insomniacs of a list get to report, in the order of the list.
pub proof fn law_listed_insomniacs(list: Seq<PlayerView>)
    ensures
        nothing_is_said(insomniac_turn(list)),
        list.len() >= 1 ==> insomniac_turn(list).next == NextView::Continue(
            StepView::InsomniacReport { remaining: seats_on(list) },
        ),
        list.len() == 0 ==> insomniac_turn(list).next == NextView::Done,
{
    assert(list.map_values(|p: PlayerView| p.num) =~= seats_on(list));
}

/// The werewolves at the table, all of them: several are each told all the names, and
/// the only one looks at a card. Gives them in the order in which they were told.
pub proof fn law_werewolves_wake_up<C, R>(
    game: GameView<C, R>,
    next: GameView<C, R>,
    out: OutcomeView,
) -> (list: Seq<PlayerView>)
    requires
        game.well_formed(),
        follows(game, StepView::Begin(Turn::Werewolves), next, out),
    ensures
        next == game,
        lists(game, WEREWOLF@, list),
        list.len() == holders(game, WEREWOLF@).len(),
        list.len() >= 2 ==> {
            &&& each_is_told(out, list, "你的狼人同伴是 "@ + name_list(names_on(list)))
            &&& out.next == NextView::Done
        },
        list.len() == 1 ==> {
            &&& nothing_is_said(out)
            &&& out.next == NextView::Continue(StepView::LoneWerewolf { werewolf: list[0].num })
        },
        list.len() == 0 ==> nothing_is_said(out) && out.next == NextView::Done,
{
    let (list, _werewolves) = lemma_rosters(game, Turn::Werewolves, out);
    lemma_roster_is_listing(game, WEREWOLF@, list);
    lemma_roster_is_holders(game, WEREWOLF@, list);
    law_listed_werewolves(list);
    list
}

/// The minions at the table, all of them: each is told the names of all werewolves at
/// the table, or that there are none. Gives both in their order.
pub proof fn law_minions_wake_up<C, R>(
    game: GameView<C, R>,
    next: GameView<C, R>,
    out: OutcomeView,
) -> (res: (Seq<PlayerView>, Seq<PlayerView>))
    requires
        game.well_formed(),
        follows(game, StepView::Begin(Turn::Minion), next, out),
    ensures
        next == game,
        lists(game, MINION@, res.0),
        lists(game, WEREWOLF@, res.1),
        res.0.len() == holders(game, MINION@).len(),
        res.1.len() == holders(game, WEREWOLF@).len(),
        res.1.len() >= 1 ==> each_is_told(
            out,
            res.0,
            "狼人是： "@ + name_list(names_on(res.1)),
        ),
        res.1.len() == 0 ==> each_is_told(out, res.0, NO_WEREWOLVES@),
        out.next == NextView::Done,
{
    let (list, werewolves) = lemma_rosters(game, Turn::Minion, out);
    lemma_roster_is_listing(game, MINION@, list);
    lemma_roster_is_listing(game, WEREWOLF@, werewolves);
    lemma_roster_is_holders(game, MINION@, list);
    lemma_roster_is_holders(game, WEREWOLF@, werewolves);
    law_listed_minions(list, werewolves);
    (list, werewolves)
}

/// The night watchers at the table, all of them: several are each told all the names,
/// and the only one to be the only one. Gives them in the order in which they were
/// told.
pub proof fn law_nightwatchers_wake_up<C, R>(
    game: GameView<C, R>,
    next: GameView<C, R>,
    out: OutcomeView,
) -> (list: Seq<PlayerView>)
    requires
        game.well_formed(),
        follows(game, StepView::Begin(Turn::Nightwatcher), next, out),
    ensures
        next == game,
        lists(game, NIGHTWATCHER@, list),
        list.len() == holders(game, NIGHTWATCHER@).len(),
        list.len() == 1 ==> one_is_told(out, list[0].num, ONLY_NIGHTWATCHER@),
        list.len() != 1 ==> each_is_told(
            out,
            list,
            "你的守夜人同伴是 "@ + name_list(names_on(list)),
        ),
        out.next == NextView::Done,
{
    let (list, _werewolves) = lemma_rosters(game, Turn::Nightwatcher, out);
    lemma_roster_is_listing(game, NIGHTWATCHER@, list);
    lemma_roster_is_holders(game, NIGHTWATCHER@, list);
    law_listed_nightwatchers(list);
    list
}

/// On the turns of seer, robber and troublemaker one player who holds the card is
/// asked as what they are. Nobody is asked exactly when nobody holds it.
pub proof fn law_a_holder_is_asked<C, R>(
    game: GameView<C, R>,
    turn: Turn,
    next: GameView<C, R>,
    out: OutcomeView,
)
    requires
        game.well_formed(),
        follows(game, StepView::Begin(turn), next, out),
        turn == Turn::Seer || turn == Turn::Robber || turn == Turn::Troublemaker,
    ensures
        next == game,
        ({
            let (role, text, asker) = if turn == Turn::Seer {
                (SEER@, SEER_QUESTION@, Asker::Seer)
            } else if turn == Turn::Robber {
                (ROBBER@, ROBBER_QUESTION@, Asker::Robber)
            } else {
                (TROUBLEMAKER@, TROUBLEMAKER_QUESTION@, Asker::Troublemaker)
            };
            match out.next {
                NextView::Ask(question) => {
                    &&& game.players.contains_key(question.player)
                    &&& game.players[question.player].role == role
                    &&& question.asker == asker
                    &&& one_is_told(out, question.player, text)
                },
                NextView::Done => {
                    &&& nothing_is_said(out)
                    &&& forall|id: usize| #[trigger]
                        game.players.contains_key(id) ==> game.players[id].role != role
                },
                NextView::Continue(_) => false,
            }
        }),
{
    let (list, _werewolves) = lemma_rosters(game, turn, out);
    if list.len() > 0 {
        assert(game.players.contains_key(list[0].num));
    }
}

/// On the drunks' turn one drunk is told of the exchange that follows, which is theirs.
/// Nothing happens exactly when nobody is a drunk.
pub proof fn law_a_drunk_wakes_up<C, R>(
    game: GameView<C, R>,
    next: GameView<C, R>,
    out: OutcomeView,
)
    requires
        game.well_formed(),
        follows(game, StepView::Begin(Turn::Drunk), next, out),
    ensures
        next == game,
        match out.next {
            NextView::Continue(step) => {
                &&& step matches StepView::DrunkSwap { drunk }
                &&& game.players.contains_key(drunk)
                &&& game.players[drunk].role == DRUNK@
                &&& one_is_told(out, drunk, DRUNK_NOTICE@)
            },
            NextView::Done => {
                &&& nothing_is_said(out)
                &&& forall|id: usize| #[trigger]
                    game.players.contains_key(id) ==> game.players[id].role != DRUNK@
            },
            NextView::Ask(_) => false,
        },
{
    let (list, _werewolves) = lemma_rosters(game, Turn::Drunk, out);
    if list.len() > 0 {
        assert(game.players.contains_key(list[0].num));
    }
}

/// On the insomniacs' turn the seats of exactly those who are insomniacs are taken
/// down, each once, for the reports that follow. The turn is over at once exactly when
/// nobody is an insomniac.
pub proof fn law_all_insomniacs_get_to_report<C, R>(
    game: GameView<C, R>,
    next: GameView<C, R>,
    out: OutcomeView,
)
    requires
        game.well_formed(),
        follows(game, StepView::Begin(Turn::Insomniac), next, out),
    ensures
        next == game,
        nothing_is_said(out),
        match out.next {
            NextView::Continue(step) => {
                &&& step matches StepView::InsomniacReport { remaining }
                &&& remaining.len() > 0
                &&& remaining.no_duplicates()
                &&& forall|id: usize| #[trigger]
                    remaining.contains(id) <==> game.players.contains_key(id)
                        && game.players[id].role == INSOMNIAC@
            },
            NextView::Done => forall|id: usize| #[trigger]
                game.players.contains_key(id) ==> game.players[id].role != INSOMNIAC@,
            NextView::Ask(_) => false,
        },
{
    let (list, _werewolves) = lemma_rosters(game, Turn::Insomniac, out);
    lemma_roster_is_listing(game, INSOMNIAC@, list);
    law_listed_insomniacs(list);
    let seats = seats_on(list);
    if list.len() > 0 {
        assert forall|id: usize| #[trigger] seats.contains(id) <==> game.players.contains_key(id)
            && game.players[id].role == INSOMNIAC@ by {
            if seats.contains(id) {
                let k = choose|k: int| 0 <= k < seats.len() && seats[k] == id;
                assert(list[k].num == id);
            }
            if game.players.contains_key(id) && game.players[id].role == INSOMNIAC@ {
                let k = choose|k: int| 0 <= k < list.len() && (#[trigger] list[k]).num == id;
                assert(seats[k] == id);
            }
        }
        assert(seats.no_duplicates()) by {
            assert forall|i: int, j: int|
                0 <= i < seats.len() && 0 <= j < seats.len() && i != j implies seats[i]
                != seats[j] by {
                if i < j {
                    assert(list[i].num != list[j].num);
                } else {
                    assert(list[j].num != list[i].num);
                }
            }
        }
    } else {
        assert forall|id: usize| #[trigger] game.players.contains_key(id) implies
            game.players[id].role != INSOMNIAC@ by {
            if game.players[id].role == INSOMNIAC@ {
                assert(list.contains(game.players[id]));
            }
        }
    }
}

/// The only werewolf is told a card that lies in the centre. Gives its place.
pub proof fn law_the_lone_werewolf_sees_a_center_card<C, R>(
    game: GameView<C, R>,
    werewolf: usize,
    next: GameView<C, R>,
    out: OutcomeView,
) -> (index: int)
    requires
        follows(game, StepView::LoneWerewolf { werewolf }, next, out),
    ensures
        next == game,
        0 <= index < game.center_cards.len(),
        one_is_told(
            out,
            werewolf,
            "你是独狼，你可以查看一张底牌："@ + game.center_cards[index],
        ),
        out.next == NextView::Done,
{
    choose|i: int|
        0 <= i < game.center_cards.len() && out == told(
            werewolf,
            lone_werewolf(#[trigger] game.center_cards[i]),
        )
}

/// A seer who enters the number of a player is told the card in that player's hands,
/// whoever the seer is; one who enters another number that is not 0, that there is no
/// such player.
pub proof fn law_the_seer_sees_the_card_of_the_named_player<C, R>(
    game: GameView<C, R>,
    seer: usize,
    text: Seq<char>,
    id: usize,
    next: GameView<C, R>,
    out: OutcomeView,
)
    requires
        follows(
            game,
            StepView::Answer {
                question: Question { player: seer, asker: Asker::Seer },
                choice: Some(text),
            },
            next,
            out,
        ),
        number(trimmed(text)) == Some(id),
        id != 0,
    ensures
        next == game,
        game.players.contains_key(id) ==> one_is_told(
            out,
            seer,
            "玩家 "@ + decimal(id as nat) + " 的身份是："@ + game.players[id].role,
        ),
        !game.players.contains_key(id) ==> one_is_told(out, seer, SEER_NO_SUCH_PLAYER@),
        out.next == NextView::Done,
{
}

/// The same for the number as it is written, with white space around it.
pub proof fn law_the_seer_may_write_the_number<C, R>(
    game: GameView<C, R>,
    seer: usize,
    before: Seq<char>,
    id: usize,
    behind: Seq<char>,
    next: GameView<C, R>,
    out: OutcomeView,
)
    requires
        forall|i: int| 0 <= i < before.len() ==> white_space(#[trigger] before[i]),
        forall|i: int| 0 <= i < behind.len() ==> white_space(#[trigger] behind[i]),
        follows(
            game,
            StepView::Answer {
                question: Question { player: seer, asker: Asker::Seer },
                choice: Some(before + decimal(id as nat) + behind),
            },
            next,
            out,
        ),
        id != 0,
        game.players.contains_key(id),
    ensures
        next == game,
        one_is_told(
            out,
            seer,
            "玩家 "@ + decimal(id as nat) + " 的身份是："@ + game.players[id].role,
        ),
{
    law_written_numbers_are_read(id, before, behind);
    law_the_seer_sees_the_card_of_the_named_player(
        game,
        seer,
        before + decimal(id as nat) + behind,
        id,
        next,
        out,
    );
}

/// A seer who enters 0 is told two cards that lie at different places in the centre.
/// Gives the places.
pub proof fn law_the_seer_sees_two_center_cards<C, R>(
    game: GameView<C, R>,
    seer: usize,
    text: Seq<char>,
    next: GameView<C, R>,
    out: OutcomeView,
) -> (places: (int, int))
    requires
        follows(
            game,
            StepView::Answer {
                question: Question { player: seer, asker: Asker::Seer },
                choice: Some(text),
            },
            next,
            out,
        ),
        number(trimmed(text)) == Some(0usize),
    ensures
        next == game,
        0 <= places.0 < game.center_cards.len(),
        0 <= places.1 < game.center_cards.len(),
        places.0 != places.1,
        one_is_told(
            out,
            seer,
            "底下两张牌是："@ + game.center_cards[places.0] + " 和 "@
                + game.center_cards[places.1],
        ),
        out.next == NextView::Done,
{
    choose|i: int, j: int|
        {
            &&& 0 <= i < game.center_cards.len()
            &&& 0 <= j < game.center_cards.len()
            &&& i != j
            &&& out == told(
                seer,
                two_cards(
                    #[trigger] game.center_cards[i],
                    #[trigger] game.center_cards[j],
                ),
            )
        }
}

/// A robber who enters the number of a player gets that player's card, and that player
/// the robber's. The robber is told whose card it is and which. The hands of all others
/// stay as they were.
pub proof fn law_the_robber_takes_the_card_of_the_named_player<C, R>(
    game: GameView<C, R>,
    robber: usize,
    text: Seq<char>,
    target: usize,
    next: GameView<C, R>,
    out: OutcomeView,
)
    requires
        follows(
            game,
            StepView::Answer {
                question: Question { player: robber, asker: Asker::Robber },
                choice: Some(text),
            },
            next,
            out,
        ),
        number(trimmed(text)) == Some(target),
        game.players.contains_key(robber),
        game.players.contains_key(target),
    ensures
        differs_in_hands(game, next),
        next.players[robber].role == game.players[target].role,
        next.players[target].role == game.players[robber].role,
        forall|id: usize| #[trigger]
            game.players.contains_key(id) && id != robber && id != target ==> next.players[id]
                == game.players[id],
        one_is_told(
            out,
            robber,
            "你偷取了玩家 "@ + decimal(target as nat) + " 的身份："@ + game.players[target].role
                + "，这现在是你的新身份。"@,
        ),
        out.next == NextView::Done,
{
}

/// The same for the number as it is written, with white space around it.
pub proof fn law_the_robber_may_write_the_number<C, R>(
    game: GameView<C, R>,
    robber: usize,
    before: Seq<char>,
    target: usize,
    behind: Seq<char>,
    next: GameView<C, R>,
    out: OutcomeView,
)
    requires
        forall|i: int| 0 <= i < before.len() ==> white_space(#[trigger] before[i]),
        forall|i: int| 0 <= i < behind.len() ==> white_space(#[trigger] behind[i]),
        follows(
            game,
            StepView::Answer {
                question: Question { player: robber, asker: Asker::Robber },
                choice: Some(before + decimal(target as nat) + behind),
            },
            next,
            out,
        ),
        game.players.contains_key(robber),
        game.players.contains_key(target),
    ensures
        next.players[robber].role == game.players[target].role,
        next.players[target].role == game.players[robber].role,
{
    law_written_numbers_are_read(target, before, behind);
    law_the_robber_takes_the_card_of_the_named_player(
        game,
        robber,
        before + decimal(target as nat) + behind,
        target,
        next,
        out,
    );
}

/// A robber who enters a number that no player has, or who has left, takes no card. The
/// message that says so is sent while the table is held.
pub proof fn law_nobody_is_robbed_who_is_not_there<C, R>(
    game: GameView<C, R>,
    robber: usize,
    text: Seq<char>,
    target: usize,
    next: GameView<C, R>,
    out: OutcomeView,
)
    requires
        follows(
            game,
            StepView::Answer {
                question: Question { player: robber, asker: Asker::Robber },
                choice: Some(text),
            },
            next,
            out,
        ),
        number(trimmed(text)) == Some(target),
        !game.players.contains_key(robber) || !game.players.contains_key(target),
    ensures
        next == game,
        out.messages == seq![MessageView { to: robber, text: ROBBER_NO_SUCH_PLAYER@ }],
        out.table_held,
        out.log is None,
        out.next == NextView::Done,
{
}

/// A seer or robber who enters no number is told so, and nothing else happens.
pub proof fn law_no_number_no_deed<C, R>(
    game: GameView<C, R>,
    question: Question,
    text: Seq<char>,
    next: GameView<C, R>,
    out: OutcomeView,
)
    requires
        follows(game, StepView::Answer { question, choice: Some(text) }, next, out),
        question.asker == Asker::Seer || question.asker == Asker::Robber,
        number(trimmed(text)) is None,
    ensures
        next == game,
        one_is_told(out, question.player, NOT_A_NUMBER@),
        out.next == NextView::Done,
{
}

/// Whoever does not answer a question does nothing and is told nothing.
pub proof fn law_no_answer_no_deed<C, R>(
    game: GameView<C, R>,
    question: Question,
    next: GameView<C, R>,
    out: OutcomeView,
)
    requires
        follows(game, StepView::Answer { question, choice: None }, next, out),
    ensures
        next == game,
        nothing_is_said(out),
        out.next == NextView::Done,
{
}

/// A troublemaker who enters the numbers of two players gives each of them the other's
/// card and is told so. The hands of all others stay as they were. When one of the two
/// is not at the table nothing is exchanged, and the troublemaker is told that.
pub proof fn law_the_troublemaker_exchanges_the_named_players<C, R>(
    game: GameView<C, R>,
    troublemaker: usize,
    text: Seq<char>,
    id1: usize,
    id2: usize,
    next: GameView<C, R>,
    out: OutcomeView,
)
    requires
        follows(
            game,
            StepView::Answer {
                question: Question { player: troublemaker, asker: Asker::Troublemaker },
                choice: Some(text),
            },
            next,
            out,
        ),
        words(trimmed(text)).len() == 2,
        number(words(trimmed(text))[0]) == Some(id1),
        number(words(trimmed(text))[1]) == Some(id2),
    ensures
        game.players.contains_key(id1) && game.players.contains_key(id2) ==> {
            &&& differs_in_hands(game, next)
            &&& next.players[id1].role == game.players[id2].role
            &&& next.players[id2].role == game.players[id1].role
            &&& forall|id: usize| #[trigger]
                game.players.contains_key(id) && id != id1 && id != id2 ==> next.players[id]
                    == game.players[id]
            &&& one_is_told(
                out,
                troublemaker,
                "你交换了玩家 "@ + decimal(id1 as nat) + " 和玩家 "@ + decimal(id2 as nat)
                    + " 的身份。"@,
            )
        },
        !game.players.contains_key(id1) || !game.players.contains_key(id2) ==> {
            &&& next == game
            &&& one_is_told(out, troublemaker, TROUBLEMAKER_NO_SUCH_PLAYERS@)
        },
        out.next == NextView::Done,
{
}

/// The same for two numbers as they are written with a space between them.
pub proof fn law_the_troublemaker_may_write_the_numbers<C, R>(
    game: GameView<C, R>,
    troublemaker: usize,
    id1: usize,
    id2: usize,
    next: GameView<C, R>,
    out: OutcomeView,
)
    requires
        follows(
            game,
            StepView::Answer {
                question: Question { player: troublemaker, asker: Asker::Troublemaker },
                choice: Some(decimal(id1 as nat) + seq![' '] + decimal(id2 as nat)),
            },
            next,
            out,
        ),
        game.players.contains_key(id1),
        game.players.contains_key(id2),
    ensures
        next.players[id1].role == game.players[id2].role,
        next.players[id2].role == game.players[id1].role,
{
    law_two_written_numbers_are_read(id1, id2);
    law_the_troublemaker_exchanges_the_named_players(
        game,
        troublemaker,
        decimal(id1 as nat) + seq![' '] + decimal(id2 as nat),
        id1,
        id2,
        next,
        out,
    );
}

/// A troublemaker who does not enter two words, or whose two words are not both
/// numbers, is told which of it, and no card moves.
pub proof fn law_no_two_numbers_no_exchange<C, R>(
    game: GameView<C, R>,
    troublemaker: usize,
    text: Seq<char>,
    next: GameView<C, R>,
    out: OutcomeView,
)
    requires
        follows(
            game,
            StepView::Answer {
                question: Question { player: troublemaker, asker: Asker::Troublemaker },
                choice: Some(text),
            },
            next,
            out,
        ),
    ensures
        words(trimmed(text)).len() != 2 ==> {
            &&& next == game
            &&& one_is_told(out, troublemaker, NOT_TWO_WORDS@)
        },
        words(trimmed(text)).len() == 2 && (number(words(trimmed(text))[0]) is None || number(
            words(trimmed(text))[1],
        ) is None) ==> {
            &&& next == game
            &&& one_is_told(out, troublemaker, NOT_TWO_NUMBERS@)
        },
        out.next == NextView::Done,
{
}

/// A drunk at the table gets a card of the centre, and the drunk's card lies in its
/// place. All other cards stay where they are. The operator reads the drunk's name and
/// the card given away. Nobody is told anything. Gives the place in the centre.
pub proof fn law_the_drunk_and_the_center_change_cards<C, R>(
    game: GameView<C, R>,
    drunk: usize,
    next: GameView<C, R>,
    out: OutcomeView,
) -> (index: int)
    requires
        follows(game, StepView::DrunkSwap { drunk }, next, out),
        game.players.contains_key(drunk),
        game.center_cards.len() > 0,
    ensures
        0 <= index < game.center_cards.len(),
        next.players[drunk].role == game.center_cards[index],
        next.center_cards[index] == game.players[drunk].role,
        next.center_cards.len() == game.center_cards.len(),
        forall|i: int|
            0 <= i < game.center_cards.len() && i != index ==> #[trigger] next.center_cards[i]
                == game.center_cards[i],
        differs_in_hands(game, GameView { center_cards: game.center_cards, ..next }),
        forall|id: usize| #[trigger]
            game.players.contains_key(id) && id != drunk ==> next.players[id]
                == game.players[id],
        out.messages.len() == 0,
        !out.table_held,
        out.log == Some(
            "酒鬼 "@ + game.players[drunk].name + " 与中心牌交换身份，新身份为 "@
                + game.players[drunk].role,
        ),
        out.next == NextView::Done,
{
    let index = choose|index: int|
        0 <= index < game.center_cards.len() && next == #[trigger] after_drunk(game, drunk, index);
    law_the_drunk_gets_the_drawn_card(game, drunk, index);
    index
}

/// The same when the place in the centre has been drawn already.
pub proof fn law_the_drunk_gets_the_drawn_card<C, R>(
    game: GameView<C, R>,
    drunk: usize,
    index: int,
)
    requires
        0 <= index < game.center_cards.len(),
    ensures
        game.players.contains_key(drunk) ==> ({
            let next = after_drunk(game, drunk, index);
            let out = drunk_reported(game, drunk);
            &&& next.players[drunk].role == game.center_cards[index]
            &&& next.center_cards[index] == game.players[drunk].role
            &&& next.center_cards.len() == game.center_cards.len()
            &&& forall|i: int|
                0 <= i < game.center_cards.len() && i != index
                    ==> #[trigger] next.center_cards[i] == game.center_cards[i]
            &&& differs_in_hands(game, GameView { center_cards: game.center_cards, ..next })
            &&& forall|id: usize| #[trigger]
                game.players.contains_key(id) && id != drunk ==> next.players[id]
                    == game.players[id]
            &&& out.messages.len() == 0
            &&& !out.table_held
            &&& out.log == Some(
                "酒鬼 "@ + game.players[drunk].name + " 与中心牌交换身份，新身份为 "@
                    + game.players[drunk].role,
            )
            &&& out.next == NextView::Done
        }),
        !game.players.contains_key(drunk) ==> {
            &&& after_drunk(game, drunk, index) == game
            &&& nothing_is_said(drunk_reported(game, drunk))
            &&& drunk_reported(game, drunk).next == NextView::Done
        },
{
}

/// A drunk who has left, or who finds no card in the centre, changes nothing.
pub proof fn law_no_drunk_or_no_center_no_exchange<C, R>(
    game: GameView<C, R>,
    drunk: usize,
    next: GameView<C, R>,
    out: OutcomeView,
)
    requires
        follows(game, StepView::DrunkSwap { drunk }, next, out),
        !game.players.contains_key(drunk) || game.center_cards.len() == 0,
    ensures
        next == game,
        nothing_is_said(out),
        out.next == NextView::Done,
{
}

/// The first insomniac who is left is told the card that is in their hands now, or no
/// card where they have left. The turn goes on with the others in their order, and is
/// over when there are none.
pub proof fn law_the_first_insomniac_sees_the_card_held_now<C, R>(
    game: GameView<C, R>,
    remaining: Seq<usize>,
    next: GameView<C, R>,
    out: OutcomeView,
)
    requires
        follows(game, StepView::InsomniacReport { remaining }, next, out),
    ensures
        next == game,
        remaining.len() == 0 ==> nothing_is_said(out) && out.next == NextView::Done,
        remaining.len() >= 1 && game.players.contains_key(remaining[0]) ==> one_is_told(
            out,
            remaining[0],
            "你是失眠者，你的最终身份是："@ + game.players[remaining[0]].role,
        ),
        remaining.len() >= 1 && !game.players.contains_key(remaining[0]) ==> one_is_told(
            out,
            remaining[0],
            "你是失眠者，你的最终身份是："@,
        ),
        remaining.len() == 1 ==> out.next == NextView::Done,
        remaining.len() >= 2 ==> {
            &&& out.next matches NextView::Continue(step)
            &&& step matches StepView::InsomniacReport { remaining: others }
            &&& others.len() == remaining.len() - 1
            &&& forall|i: int|
                0 <= i < others.len() ==> #[trigger] others[i] == remaining[i + 1]
        },
{
    if remaining.len() >= 1 {
        assert("你是失眠者，你的最终身份是："@ + Seq::<char>::empty()
            =~= "你是失眠者，你的最终身份是："@);
    }
}

/// Whether the outcomes `outs` come one after the other from reports of insomniacs that
/// begin with the seats `remaining`, at whatever tables.
pub open spec fn are_reports<C, R>(
    tables: Seq<GameView<C, R>>,
    remaining: Seq<usize>,
    outs: Seq<OutcomeView>,
) -> bool
    decreases outs.len(),
{
    outs.len() > 0 && tables.len() == outs.len() ==> {
        &&& follows(
            tables[0],
            StepView::InsomniacReport { remaining },
            tables[0],
            outs[0],
        )
        &&& match outs[0].next {
            NextView::Continue(StepView::InsomniacReport { remaining: others }) => are_reports(
                tables.drop_first(),
                others,
                outs.drop_first(),
            ),
            _ => outs.len() == 1,
        }
    }
}

/// Every insomniac on the list is told the card that they hold when it is their turn:
/// report `k` goes to seat `k` of the list, and there are no more reports than seats.
pub proof fn law_every_insomniac_is_told<C, R>(
    tables: Seq<GameView<C, R>>,
    remaining: Seq<usize>,
    outs: Seq<OutcomeView>,
    k: int,
)
    requires
        are_reports(tables, remaining, outs),
        tables.len() == outs.len(),
        0 <= k < outs.len(),
        remaining.len() > 0,
    ensures
        outs.len() <= remaining.len(),
        tables[k].players.contains_key(remaining[k]) ==> one_is_told(
            outs[k],
            remaining[k],
            "你是失眠者，你的最终身份是："@ + tables[k].players[remaining[k]].role,
        ),
        outs[k].next == NextView::Done <==> k == remaining.len() - 1,
    decreases k, outs.len(),
{
    law_the_first_insomniac_sees_the_card_held_now(tables[0], remaining, tables[0], outs[0]);
    if outs.len() > 1 {
        match outs[0].next {
            NextView::Continue(StepView::InsomniacReport { remaining: others }) => {
                assert(others =~= remaining.drop_first());
                let tables_left = tables.drop_first();
                let outs_left = outs.drop_first();
                if k > 0 {
                    law_every_insomniac_is_told(tables_left, others, outs_left, k - 1);
                    assert(tables_left[k - 1] == tables[k]);
                    assert(outs_left[k - 1] == outs[k]);
                    assert(others[k - 1] == remaining[k]);
                } else {
                    lemma_no_more_reports_than_seats(tables_left, others, outs_left);
                }
            },
            _ => {},
        }
    }
}

proof fn lemma_no_more_reports_than_seats<C, R>(
    tables: Seq<GameView<C, R>>,
    remaining: Seq<usize>,
    outs: Seq<OutcomeView>,
)
    requires
        are_reports(tables, remaining, outs),
        tables.len() == outs.len(),
        remaining.len() > 0,
    ensures
        outs.len() <= remaining.len(),
    decreases outs.len(),
{
    if outs.len() > 1 {
        law_the_first_insomniac_sees_the_card_held_now(tables[0], remaining, tables[0], outs[0]);
        match outs[0].next {
            NextView::Continue(StepView::InsomniacReport { remaining: others }) => {
                lemma_no_more_reports_than_seats(
                    tables.drop_first(),
                    others,
                    outs.drop_first(),
                );
            },
            _ => {},
        }
    }
}

/// Every step can be taken but for two: a lone werewolf looks where no card lies, or a
/// seer who entered 0 where fewer than two lie.
pub proof fn law_steps_want_for_cards_only<C, R>(game: GameView<C, R>, step: StepView)
    ensures
        can_follow(game, step) <==> match step {
            StepView::LoneWerewolf { .. } => game.center_cards.len() != 0,
            StepView::Answer { question, choice } => {
                ||| question.asker != Asker::Seer
                ||| choice is None
                ||| number(trimmed(choice->0)) != Some(0usize)
                ||| game.center_cards.len() >= 2
            },
            StepView::Begin(_) => true,
            StepView::DrunkSwap { .. } => true,
            StepView::InsomniacReport { .. } => true,
        },
{
}

/// An outcome shows all that it brings about, and a step all that it is about.
pub proof fn law_outcomes_and_steps_hide_nothing(out: Outcome, step: Step)
    ensures
        out@.messages.len() == out.messages@.len(),
        forall|i: int|
            0 <= i < out.messages@.len() ==> {
                &&& (#[trigger] out@.messages[i]).to == out.messages@[i].to
                &&& out@.messages[i].text == out.messages@[i].text@
            },
        out@.table_held == out.table_held,
        out@.log == choice_view(out.log),
        choice_view(out.log) is Some <==> out.log is Some,
        out.log is Some ==> choice_view(out.log)->0 == (out.log->0)@,
        match out.next {
            Next::Done => out@.next == NextView::Done,
            Next::Continue(following) => out@.next == NextView::Continue(following@),
            Next::Ask(question) => out@.next == NextView::Ask(question),
        },
        match step {
            Step::Begin(turn) => step@ == StepView::Begin(turn),
            Step::LoneWerewolf { werewolf } => step@ == (StepView::LoneWerewolf { werewolf }),
            Step::Answer { question, choice } => {
                &&& step@ matches StepView::Answer { question: asked, choice: entered }
                &&& asked == question
                &&& entered is Some <==> choice is Some
                &&& choice is Some ==> entered->0 == (choice->0)@
            },
            Step::DrunkSwap { drunk } => step@ == (StepView::DrunkSwap { drunk }),
            Step::InsomniacReport { remaining } => step@ == (StepView::InsomniacReport {
                remaining: remaining@,
            }),
        },
{
}

} // verus!
