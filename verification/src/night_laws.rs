//! What holds of a night as a whole.

use crate::card_laws::{
    cards, holders, law_center_exchange_keeps_cards, law_exchange_keeps_cards,
};
use crate::game::MessageView;
use crate::laws::{after, allowed, Move};
use crate::messages::{
    fellow_nightwatchers, fellow_werewolves, final_role, robbed, werewolves_are, NO_WEREWOLVES,
    ONLY_NIGHTWATCHER,
};
use crate::model::{is_roster, GameView, PlayerView};
use crate::night::{
    after_drunk, after_robbery, begun, follows, insomniac_reported, names, robber_learns, robber_target,
    schedule, silence, told, trouble_targets, turn_outcome, turn_role, Asker, NextView, OutcomeView,
    Question, StepView, Turn,
};
use crate::roles::{DRUNK, MINION, NIGHTWATCHER, WEREWOLF};
use crate::text::{number, trimmed};
use vstd::prelude::*;

verus! {

/// Whether two tables differ in who holds which card, and in nothing else.
pub open spec fn same_but_for_cards<C, R>(game: GameView<C, R>, next: GameView<C, R>) -> bool {
    &&& next.players.dom() == game.players.dom()
    &&& forall|id: usize| #[trigger]
        game.players.contains_key(id) ==> {
            &&& next.players[id].name == game.players[id].name
            &&& next.players[id].num == game.players[id].num
        }
    &&& next.center_cards.len() == game.center_cards.len()
    &&& next == (GameView { players: next.players, center_cards: next.center_cards, ..game })
}

/// A step of the night moves cards between players and the centre and does nothing
/// else to the table. No card is lost and none is added.
pub proof fn law_step_only_moves_cards<C, R>(
    game: GameView<C, R>,
    step: StepView,
    next: GameView<C, R>,
    out: OutcomeView,
    role: Seq<char>,
)
    requires
        game.well_formed(),
        follows(game, step, next, out),
    ensures
        next.well_formed(),
        same_but_for_cards(game, next),
        cards(next, role) == cards(game, role),
{
    match step {
        StepView::Answer { question, choice } => match question.asker {
            Asker::Seer => {},
            Asker::Robber => match robber_target(game, question.player, choice) {
                Some(target) => {
                    law_exchange_keeps_cards(game, target, question.player, role);
                    assert(next.players.dom() =~= game.players.dom());
                },
                None => {},
            },
            Asker::Troublemaker => match trouble_targets(game, choice) {
                Some((id1, id2)) => {
                    law_exchange_keeps_cards(game, id1, id2, role);
                    assert(next.players.dom() =~= game.players.dom());
                },
                None => {},
            },
        },
        StepView::DrunkSwap { drunk } => {
            if game.center_cards.len() > 0 && game.players.contains_key(drunk) {
                let index = choose|index: int|
                    0 <= index < game.center_cards.len() && next == #[trigger] after_drunk(
                        game,
                        drunk,
                        index,
                    );
                law_center_exchange_keeps_cards(game, drunk, index, role);
                assert(next.players.dom() =~= game.players.dom());
            }
        },
        _ => {},
    }
}

/// The table `game` with the questions that are open at `later`.
pub open spec fn with_questions_of<C, R>(
    game: GameView<C, R>,
    later: GameView<C, R>,
) -> GameView<C, R> {
    GameView { pending_responses: later.pending_responses, ..game }
}

/// Whether `steps` are taken one after the other, each at one of the tables `before`
/// and leaving one of the tables `after`, while between two steps questions are put
/// to players or answered.
pub open spec fn is_course<C, R>(
    before: Seq<GameView<C, R>>,
    steps: Seq<StepView>,
    outs: Seq<OutcomeView>,
    after: Seq<GameView<C, R>>,
) -> bool {
    &&& before.len() == steps.len()
    &&& outs.len() == steps.len()
    &&& after.len() == steps.len()
    &&& forall|i: int|
        0 <= i < steps.len() ==> follows(#[trigger] before[i], steps[i], after[i], outs[i])
    &&& forall|i: int|
        0 < i < steps.len() ==> #[trigger] before[i] == with_questions_of(after[i - 1], before[i])
}

proof fn lemma_course_only_moves_cards<C, R>(
    before: Seq<GameView<C, R>>,
    steps: Seq<StepView>,
    outs: Seq<OutcomeView>,
    after: Seq<GameView<C, R>>,
    role: Seq<char>,
)
    requires
        is_course(before, steps, outs, after),
        steps.len() > 0,
        before.first().well_formed(),
    ensures
        after.last().well_formed(),
        same_but_for_cards(with_questions_of(before.first(), after.last()), after.last()),
        cards(after.last(), role) == cards(before.first(), role),
    decreases steps.len(),
{
    let n = steps.len() - 1;
    if n > 0 {
        assert forall|i: int| 0 <= i < n implies follows(
            #[trigger] before.drop_last()[i],
            steps.drop_last()[i],
            after.drop_last()[i],
            outs.drop_last()[i],
        ) by {
            assert(before.drop_last()[i] == before[i]);
        }
        assert forall|i: int| 0 < i < n implies #[trigger] before.drop_last()[i]
            == with_questions_of(after.drop_last()[i - 1], before.drop_last()[i]) by {
            assert(before.drop_last()[i] == before[i]);
        }
        lemma_course_only_moves_cards(
            before.drop_last(),
            steps.drop_last(),
            outs.drop_last(),
            after.drop_last(),
            role,
        );
        assert(before.drop_last().first() == before.first());
        assert(after.drop_last().last() == after[n - 1]);
        assert(before[n] == with_questions_of(after[n - 1], before[n]));
        assert(holders(before[n], role) =~= holders(after[n - 1], role));
    }
    law_step_only_moves_cards(before[n], steps[n], after[n], outs[n], role);
}

/// A whole night, from dusk to dawn, moves cards between players and the centre and
/// does nothing else to the table, but for the questions that are open: `game` is the
/// table before it and `morning` the one after it. No card is lost and none is added.
pub proof fn law_night_only_moves_cards<C, R>(
    game: GameView<C, R>,
    before: Seq<GameView<C, R>>,
    steps: Seq<StepView>,
    outs: Seq<OutcomeView>,
    after: Seq<GameView<C, R>>,
    morning: GameView<C, R>,
    role: Seq<char>,
)
    requires
        game.well_formed(),
        steps.len() > 0,
        is_course(before, steps, outs, after),
        before.first() == with_questions_of(game.with_night(true), before.first()),
        morning == with_questions_of(after.last().with_night(false), morning),
    ensures
        morning.well_formed(),
        same_but_for_cards(with_questions_of(game.with_night(false), morning), morning),
        cards(morning, role) == cards(game, role),
{
    lemma_course_only_moves_cards(before, steps, outs, after, role);
    assert(holders(morning, role) =~= holders(after.last(), role));
    assert(holders(before.first(), role) =~= holders(game, role));
}

/// A step of the night leaves the table as it was or is one exchange, between two
/// players or between a player and the centre.
pub proof fn law_step_is_one_exchange_at_most<C, R>(
    game: GameView<C, R>,
    step: StepView,
    next: GameView<C, R>,
    out: OutcomeView,
)
    requires
        game.well_formed(),
        follows(game, step, next, out),
    ensures
        next == game || exists|exchange: Move<C, R>|
            {
                &&& exchange is SwapRoles || exchange is SwapWithCenter
                &&& #[trigger] allowed(game, exchange)
                &&& next == after(game, exchange)
            },
{
    match step {
        StepView::Answer { question, choice } => match question.asker {
            Asker::Seer => {},
            Asker::Robber => match robber_target(game, question.player, choice) {
                Some(target) => {
                    assert(allowed(game, Move::SwapRoles { a: target, b: question.player }));
                },
                None => {},
            },
            Asker::Troublemaker => match trouble_targets(game, choice) {
                Some((id1, id2)) => {
                    assert(allowed(game, Move::SwapRoles { a: id1, b: id2 }));
                },
                None => {},
            },
        },
        StepView::DrunkSwap { drunk } => {
            if game.center_cards.len() > 0 && game.players.contains_key(drunk) {
                let index = choose|index: int|
                    0 <= index < game.center_cards.len() && next == #[trigger] after_drunk(
                        game,
                        drunk,
                        index,
                    );
                assert(allowed(game, Move::SwapWithCenter { id: drunk, index }));
            }
        },
        _ => {},
    }
}

/// Only the answers of a robber or a troublemaker and the drunk's exchange move
/// cards; every other step leaves the table as it was.
pub proof fn law_looking_moves_no_card<C, R>(
    game: GameView<C, R>,
    step: StepView,
    next: GameView<C, R>,
    out: OutcomeView,
)
    requires
        game.well_formed(),
        follows(game, step, next, out),
        match step {
            StepView::Answer { question, .. } => question.asker == Asker::Seer,
            StepView::DrunkSwap { .. } => false,
            _ => true,
        },
    ensures
        next == game,
{
}

pub(crate) proof fn lemma_roster_is_holders<C, R>(
    game: GameView<C, R>,
    role: Seq<char>,
    roster: Seq<PlayerView>,
)
    requires
        game.well_formed(),
        is_roster(game.players, role, roster),
    ensures
        roster.len() == holders(game, role).len(),
        roster.len() <= game.players.len(),
        forall|i: int|
            0 <= i < roster.len() ==> holders(game, role).contains((#[trigger] roster[i]).num),
        roster.map_values(|p: PlayerView| p.num).to_set() == holders(game, role),
{
    let seats = roster.map_values(|p: PlayerView| p.num);
    assert(seats.no_duplicates()) by {
        assert forall|i: int, j: int|
            0 <= i < seats.len() && 0 <= j < seats.len() && i != j implies seats[i]
            != seats[j] by {
            if seats[i] == seats[j] {
                assert(roster[i].num == roster[j].num);
                assert(roster[i] == roster[j]);
            }
        }
    }
    assert forall|id: usize| holders(game, role).contains(id) implies seats.contains(id) by {
        assert(game.players.contains_key(id));
        let k = choose|k: int| 0 <= k < roster.len() && roster[k] == game.players[id];
        assert(seats[k] == id);
    }
    assert forall|id: usize| seats.contains(id) implies holders(game, role).contains(id) by {
        let k = choose|k: int| 0 <= k < seats.len() && seats[k] == id;
        assert(roster[k].num == id);
    }
    assert(seats.to_set() =~= holders(game, role));
    seats.unique_seq_to_set();
    vstd::set_lib::lemma_len_subset(holders(game, role), game.players.dom());
}

/// The players of the turn's role, and the werewolves where they matter, in the order
/// in which the turn went through them.
pub(crate) proof fn lemma_rosters<C, R>(game: GameView<C, R>, turn: Turn, out: OutcomeView) -> (res: (
    Seq<PlayerView>,
    Seq<PlayerView>,
))
    requires
        begun(game, turn, out),
    ensures
        is_roster(game.players, turn_role(turn), res.0),
        turn == Turn::Minion ==> is_roster(game.players, WEREWOLF@, res.1),
        out == turn_outcome(turn, res.0, res.1),
{
    choose|roster: Seq<PlayerView>, werewolves: Seq<PlayerView>|
        {
            &&& is_roster(game.players, turn_role(turn), roster)
            &&& turn == Turn::Minion ==> is_roster(game.players, WEREWOLF@, werewolves)
            &&& out == #[trigger] turn_outcome(turn, roster, werewolves)
        }
}

/// When a turn begins, only players with that role are spoken to, asked or go on.
pub proof fn law_only_holders_wake_up<C, R>(
    game: GameView<C, R>,
    turn: Turn,
    next: GameView<C, R>,
    out: OutcomeView,
)
    requires
        game.well_formed(),
        follows(game, StepView::Begin(turn), next, out),
    ensures
        forall|i: int|
            0 <= i < out.messages.len() ==> holders(game, turn_role(turn)).contains(
                (#[trigger] out.messages[i]).to,
            ),
        match out.next {
            NextView::Done => true,
            NextView::Ask(question) => holders(game, turn_role(turn)).contains(question.player),
            NextView::Continue(step) => match step {
                StepView::LoneWerewolf { werewolf } => holders(game, turn_role(turn)).contains(
                    werewolf,
                ),
                StepView::DrunkSwap { drunk } => holders(game, turn_role(turn)).contains(drunk),
                StepView::InsomniacReport { remaining } => remaining.to_set() == holders(
                    game,
                    turn_role(turn),
                ),
                _ => false,
            },
        },
{
    let role = turn_role(turn);
    let (roster, _werewolves) = lemma_rosters(game, turn, out);
    lemma_roster_is_holders(game, role, roster);
    assert forall|i: int| 0 <= i < out.messages.len() implies holders(game, role).contains(
        (#[trigger] out.messages[i]).to,
    ) by {
        assert(out.messages[i].to == roster[i].num);
    }
    assert(roster.map_values(|p: PlayerView| p.num).to_set() =~= holders(game, role));
}

/// What a later step of a turn reveals goes to the player whose step it is, and to
/// nobody else. The drunk learns nothing.
pub proof fn law_only_the_player_concerned_is_told<C, R>(
    game: GameView<C, R>,
    step: StepView,
    next: GameView<C, R>,
    out: OutcomeView,
    i: int,
)
    requires
        game.well_formed(),
        follows(game, step, next, out),
        0 <= i < out.messages.len(),
    ensures
        match step {
            StepView::Begin(_) => true,
            StepView::LoneWerewolf { werewolf } => out.messages[i].to == werewolf,
            StepView::Answer { question, .. } => out.messages[i].to == question.player,
            StepView::DrunkSwap { .. } => false,
            StepView::InsomniacReport { remaining } => out.messages[i].to == remaining.first(),
        },
{
}

/// A question that is not answered has no consequences, and neither has a choice of
/// a robber or a troublemaker that names nobody to exchange cards with, but for the
/// message that says so.
pub proof fn law_no_choice_no_exchange<C, R>(
    game: GameView<C, R>,
    question: Question,
    choice: Option<Seq<char>>,
    next: GameView<C, R>,
    out: OutcomeView,
)
    requires
        game.well_formed(),
        follows(game, StepView::Answer { question, choice }, next, out),
    ensures
        choice is None ==> next == game && out == silence(),
        question.asker == Asker::Robber && robber_target(game, question.player, choice) is None
            ==> next == game,
        question.asker == Asker::Troublemaker && trouble_targets(game, choice) is None ==> next
            == game,
        choice is Some ==> out.messages.len() == 1,
        out.next == NextView::Done,
{
}

/// Only a robber who finds nobody to rob, or has left, brings the night to a
/// standstill: no other step keeps the table while its messages are sent.
pub proof fn law_only_a_failed_robbery_holds_the_table<C, R>(
    game: GameView<C, R>,
    step: StepView,
    next: GameView<C, R>,
    out: OutcomeView,
)
    requires
        game.well_formed(),
        follows(game, step, next, out),
    ensures
        out.table_held <==> {
            &&& step matches StepView::Answer { question, choice }
            &&& question.asker == Asker::Robber
            &&& choice matches Some(text)
            &&& number(trimmed(text)) is Some
            &&& robber_target(game, question.player, choice) is None
        },
{
    match step {
        StepView::Begin(turn) => {
            let (_roster, _werewolves) = lemma_rosters(game, turn, out);
        },
        _ => {},
    }
}

/// What a drunk is told does not depend on the cards in the centre, as long as there
/// is one drunk at most.
pub proof fn law_drunk_learns_nothing_of_the_center<C, R>(
    game: GameView<C, R>,
    other: GameView<C, R>,
    next: GameView<C, R>,
    other_next: GameView<C, R>,
    out: OutcomeView,
    other_out: OutcomeView,
)
    requires
        game.well_formed(),
        other.well_formed(),
        other.players == game.players,
        holders(game, DRUNK@).len() <= 1,
        follows(game, StepView::Begin(Turn::Drunk), next, out),
        follows(other, StepView::Begin(Turn::Drunk), other_next, other_out),
    ensures
        out == other_out,
{
    let (roster, _werewolves) = lemma_rosters(game, Turn::Drunk, out);
    let (other_roster, _others) = lemma_rosters(other, Turn::Drunk, other_out);
    lemma_roster_is_holders(game, DRUNK@, roster);
    lemma_roster_is_holders(other, DRUNK@, other_roster);
    assert(holders(other, DRUNK@) =~= holders(game, DRUNK@));
    if roster.len() == 1 {
        assert(game.players.contains_key(roster[0].num));
        assert(other_roster.contains(roster[0]));
    }
}

/// The stage of the night in which a turn comes.
pub open spec fn stage_of(turn: Turn) -> int {
    match turn {
        Turn::Werewolves | Turn::Minion => 0,
        Turn::Nightwatcher => 1,
        Turn::Seer => 2,
        Turn::Robber => 3,
        Turn::Troublemaker => 4,
        Turn::Drunk | Turn::Insomniac => 5,
    }
}

/// Every turn comes once in a night: once in its stage and in no other.
pub proof fn law_every_turn_comes_once(turn: Turn, stage: int)
    requires
        0 <= stage < schedule().len(),
    ensures
        0 <= stage_of(turn) < schedule().len(),
        schedule()[stage].contains(turn) <==> stage == stage_of(turn),
        schedule()[stage].no_duplicates(),
{
    let turns = schedule()[stage];
    if stage == stage_of(turn) {
        assert(turns[0] == turn || turns[1] == turn);
    } else if turns.contains(turn) {
        let k = choose|k: int| 0 <= k < turns.len() && turns[k] == turn;
        assert(stage_of(turns[k]) == stage);
    }
}

/// When several players are werewolves, each is told the same list of all their
/// names, and nobody looks at a card.
pub proof fn law_werewolves_know_each_other<C, R>(
    game: GameView<C, R>,
    next: GameView<C, R>,
    out: OutcomeView,
    werewolf: usize,
)
    requires
        game.well_formed(),
        follows(game, StepView::Begin(Turn::Werewolves), next, out),
        holders(game, WEREWOLF@).len() > 1,
        holders(game, WEREWOLF@).contains(werewolf),
    ensures
        out.next == NextView::Done,
        exists|pack: Seq<PlayerView>|
            {
                &&& #[trigger] is_roster(game.players, WEREWOLF@, pack)
                &&& out.messages.contains(
                    MessageView { to: werewolf, text: fellow_werewolves(names(pack)) },
                )
            },
{
    let (roster, _werewolves) = lemma_rosters(game, Turn::Werewolves, out);
    lemma_roster_is_holders(game, WEREWOLF@, roster);
    assert(game.players.contains_key(werewolf));
    let k = choose|k: int| 0 <= k < roster.len() && roster[k] == game.players[werewolf];
    assert(out.messages[k] == (MessageView {
        to: werewolf,
        text: fellow_werewolves(names(roster)),
    }));
}

/// The only werewolf is told nothing before looking at a card in the centre. Without
/// werewolves nothing happens.
pub proof fn law_lone_werewolf_looks_at_a_card<C, R>(
    game: GameView<C, R>,
    next: GameView<C, R>,
    out: OutcomeView,
    werewolf: usize,
)
    requires
        game.well_formed(),
        follows(game, StepView::Begin(Turn::Werewolves), next, out),
    ensures
        holders(game, WEREWOLF@) == set![werewolf] ==> out == (OutcomeView {
            next: NextView::Continue(StepView::LoneWerewolf { werewolf }),
            ..silence()
        }),
        holders(game, WEREWOLF@).len() == 0 ==> out == silence(),
{
    let (roster, _werewolves) = lemma_rosters(game, Turn::Werewolves, out);
    lemma_roster_is_holders(game, WEREWOLF@, roster);
    if holders(game, WEREWOLF@) == set![werewolf] {
        assert(roster.len() == 1);
        assert(holders(game, WEREWOLF@).contains(roster[0].num));
    }
}

/// Every minion is told the names of all werewolves, or that there are none.
pub proof fn law_minions_know_the_werewolves<C, R>(
    game: GameView<C, R>,
    next: GameView<C, R>,
    out: OutcomeView,
    minion: usize,
)
    requires
        game.well_formed(),
        follows(game, StepView::Begin(Turn::Minion), next, out),
        holders(game, MINION@).contains(minion),
    ensures
        if holders(game, WEREWOLF@).len() == 0 {
            out.messages.contains(MessageView { to: minion, text: NO_WEREWOLVES@ })
        } else {
            exists|pack: Seq<PlayerView>|
                {
                    &&& #[trigger] is_roster(game.players, WEREWOLF@, pack)
                    &&& out.messages.contains(
                        MessageView { to: minion, text: werewolves_are(names(pack)) },
                    )
                }
        },
{
    let (roster, pack) = lemma_rosters(game, Turn::Minion, out);
    lemma_roster_is_holders(game, WEREWOLF@, pack);
    assert(game.players.contains_key(minion));
    let k = choose|k: int| 0 <= k < roster.len() && roster[k] == game.players[minion];
    assert(out.messages[k].to == minion);
    if pack.len() == 0 {
        assert(out.messages[k] == (MessageView { to: minion, text: NO_WEREWOLVES@ }));
    } else {
        assert(out.messages[k] == (MessageView { to: minion, text: werewolves_are(names(pack)) }));
    }
}

/// Every night watcher is told the names of all night watchers, or to be the only
/// one.
pub proof fn law_nightwatchers_know_each_other<C, R>(
    game: GameView<C, R>,
    next: GameView<C, R>,
    out: OutcomeView,
    nightwatcher: usize,
)
    requires
        game.well_formed(),
        follows(game, StepView::Begin(Turn::Nightwatcher), next, out),
        holders(game, NIGHTWATCHER@).contains(nightwatcher),
    ensures
        if holders(game, NIGHTWATCHER@).len() == 1 {
            out == told(nightwatcher, ONLY_NIGHTWATCHER@)
        } else {
            exists|watch: Seq<PlayerView>|
                {
                    &&& #[trigger] is_roster(game.players, NIGHTWATCHER@, watch)
                    &&& out.messages.contains(
                        MessageView { to: nightwatcher, text: fellow_nightwatchers(names(watch)) },
                    )
                }
        },
{
    let (roster, _werewolves) = lemma_rosters(game, Turn::Nightwatcher, out);
    lemma_roster_is_holders(game, NIGHTWATCHER@, roster);
    assert(game.players.contains_key(nightwatcher));
    let k = choose|k: int| 0 <= k < roster.len() && roster[k] == game.players[nightwatcher];
    if roster.len() == 1 {
        assert(roster[0].num == nightwatcher);
    } else {
        assert(out.messages[k] == (MessageView {
            to: nightwatcher,
            text: fellow_nightwatchers(names(roster)),
        }));
    }
}

/// A robber who robs holds the card that the message names, and the robbed player
/// holds the robber's.
pub proof fn law_robber_is_told_the_truth<C, R>(
    game: GameView<C, R>,
    robber: usize,
    choice: Option<Seq<char>>,
    target: usize,
)
    requires
        game.well_formed(),
        robber_target(game, robber, choice) == Some(target),
    ensures
        robber_learns(game, robber, choice) == told(
            robber,
            robbed(target, after_robbery(game, robber, choice).players[robber].role),
        ),
        after_robbery(game, robber, choice).players[target].role == game.players[robber].role,
{
}

/// A player who was no part of an exchange keeps the card.
pub proof fn law_bystanders_keep_their_cards<C, R>(
    game: GameView<C, R>,
    a: usize,
    b: usize,
    bystander: usize,
)
    requires
        game.well_formed(),
        game.players.contains_key(a),
        game.players.contains_key(b),
        game.players.contains_key(bystander),
        bystander != a,
        bystander != b,
    ensures
        game.swap_roles(a, b).players[bystander] == game.players[bystander],
{
}

/// An insomniac whose card was exchanged during the night is told the new one.
pub proof fn law_insomniac_sees_the_exchange<C, R>(
    game: GameView<C, R>,
    insomniac: usize,
    other: usize,
    others: Seq<usize>,
)
    requires
        game.well_formed(),
        game.players.contains_key(insomniac),
        game.players.contains_key(other),
    ensures
        insomniac_reported(game.swap_roles(insomniac, other), seq![insomniac] + others).messages
            == seq![
            MessageView { to: insomniac, text: final_role(game.players[other].role) },
        ],
{
    assert((seq![insomniac] + others).first() == insomniac);
}

/// The most steps that a turn can still take after this one.
pub open spec fn steps_left<C, R>(game: GameView<C, R>, step: StepView) -> nat {
    match step {
        StepView::Begin(_) => game.players.len() + 1,
        StepView::InsomniacReport { remaining } => remaining.len(),
        _ => 0,
    }
}

/// Each step of a turn leaves fewer steps to come than the one before, whatever the
/// answer to a question and whatever happened to the table meanwhile. So every turn
/// ends in which no step keeps the table.
pub proof fn law_every_turn_ends<C, R>(
    game: GameView<C, R>,
    step: StepView,
    next: GameView<C, R>,
    out: OutcomeView,
    choice: Option<Seq<char>>,
    later: GameView<C, R>,
)
    requires
        game.well_formed(),
        follows(game, step, next, out),
    ensures
        match out.next {
            NextView::Done => true,
            NextView::Continue(following) => steps_left(later, following) < steps_left(game, step),
            NextView::Ask(question) => steps_left(later, StepView::Answer { question, choice })
                < steps_left(game, step),
        },
{
    match step {
        StepView::Begin(turn) => {
            let (roster, _werewolves) = lemma_rosters(game, turn, out);
            lemma_roster_is_holders(game, turn_role(turn), roster);
        },
        _ => {},
    }
}

} // verus!
