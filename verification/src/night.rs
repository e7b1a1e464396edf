//! The night: whose turn it is, what they see and what they do.

use crate::chance::{choose_card, number_below, shuffle};
use crate::game::{player_views, GameState, Message, MessageView, Player};
use crate::messages::{
    center_set, drunk_exchanged, drunk_exchanged_line, exchanged, exchanged_text, fellow_nightwatchers,
    fellow_nightwatchers_text, fellow_werewolves, fellow_werewolves_text, final_role,
    final_role_text, lone_werewolf, lone_werewolf_text, robbed, robbed_text, role_of, role_of_text,
    two_cards, two_cards_text, werewolves_are, werewolves_are_text, DAY_BREAKS, DRUNK_NOTICE,
    NIGHT_FALLS, NOT_A_NUMBER, NOT_TWO_NUMBERS, NOT_TWO_WORDS, NO_WEREWOLVES, ONLY_NIGHTWATCHER,
    ROBBER_NO_SUCH_PLAYER, ROBBER_QUESTION, SEER_NO_SUCH_PLAYER, SEER_QUESTION,
    TROUBLEMAKER_NO_SUCH_PLAYERS, TROUBLEMAKER_QUESTION,
};
use crate::model::{is_roster, GameView, PlayerView};
use crate::roles::{
    DRUNK, INSOMNIAC, MINION, NIGHTWATCHER, ROBBER, SEER, TROUBLEMAKER, WEREWOLF,
};
use crate::text::{number, parse_number, split_words, texts, trim, trimmed, words};
use vstd::prelude::*;

verus! {

/// How many seconds a player has to answer a question.
pub const ANSWER_SECONDS: u64 = 30;

/// The turns of a night.
#[derive(Debug, Clone, Copy, PartialEq, Eq, Structural)]
pub enum Turn {
    Werewolves,
    Minion,
    Nightwatcher,
    Seer,
    Robber,
    Troublemaker,
    Drunk,
    Insomniac,
}

/// The roles that are asked for a choice.
#[derive(Debug, Clone, Copy, PartialEq, Eq, Structural)]
pub enum Asker {
    Seer,
    Robber,
    Troublemaker,
}

/// A question to the player at seat `player`, who is asked as `asker`.
#[derive(Debug, Clone, Copy, PartialEq, Eq, Structural)]
pub struct Question {
    pub player: usize,
    pub asker: Asker,
}

/// What a player entered, if anything.
pub open spec fn choice_view(choice: Option<String>) -> Option<Seq<char>> {
    match choice {
        Some(text) => Some(text@),
        None => None,
    }
}

/// One step of a turn, taken in one go.
#[derive(Debug)]
pub enum Step {
    /// The turn begins.
    Begin(Turn),
    /// The only werewolf looks at a card in the centre.
    LoneWerewolf { werewolf: usize },
    /// A question was answered, or not.
    Answer { question: Question, choice: Option<String> },
    /// The drunk exchanges cards with the centre.
    DrunkSwap { drunk: usize },
    /// The insomniacs who are left look at their cards, one after the other.
    InsomniacReport { remaining: Vec<usize> },
}

/// What a step is.
#[verifier::ext_equal]
pub enum StepView {
    Begin(Turn),
    LoneWerewolf { werewolf: usize },
    Answer { question: Question, choice: Option<Seq<char>> },
    DrunkSwap { drunk: usize },
    InsomniacReport { remaining: Seq<usize> },
}

impl View for Step {
    type V = StepView;

    open spec fn view(&self) -> StepView {
        match self {
            Step::Begin(turn) => StepView::Begin(*turn),
            Step::LoneWerewolf { werewolf } => StepView::LoneWerewolf { werewolf: *werewolf },
            Step::Answer { question, choice } => StepView::Answer {
                question: *question,
                choice: choice_view(*choice),
            },
            Step::DrunkSwap { drunk } => StepView::DrunkSwap { drunk: *drunk },
            Step::InsomniacReport { remaining } => StepView::InsomniacReport {
                remaining: remaining@,
            },
        }
    }
}

/// How a turn goes on after a step.
#[derive(Debug)]
pub enum Next {
    /// The turn is over.
    Done,
    /// Another step follows once the messages are sent.
    Continue(Step),
    /// The turn goes on with the answer to a question.
    Ask(Question),
}

/// What the end of a step is.
#[verifier::ext_equal]
pub enum NextView {
    Done,
    Continue(StepView),
    Ask(Question),
}

impl View for Next {
    type V = NextView;

    open spec fn view(&self) -> NextView {
        match self {
            Next::Done => NextView::Done,
            Next::Continue(step) => NextView::Continue(step@),
            Next::Ask(question) => NextView::Ask(*question),
        }
    }
}

/// What a step brings about: messages in the order in which they are sent, a line
/// for the operator, and how the turn goes on.
#[derive(Debug)]
pub struct Outcome {
    pub messages: Vec<Message>,
    /// Whether the step keeps the table to itself while its messages are sent. To
    /// send a message takes the table too, so such a step never comes to its end,
    /// and nothing else happens at the table any more.
    pub table_held: bool,
    pub log: Option<String>,
    pub next: Next,
}

/// What an outcome is.
#[verifier::ext_equal]
pub struct OutcomeView {
    pub messages: Seq<MessageView>,
    pub table_held: bool,
    pub log: Option<Seq<char>>,
    pub next: NextView,
}

impl View for Outcome {
    type V = OutcomeView;

    open spec fn view(&self) -> OutcomeView {
        OutcomeView {
            messages: self.messages@.map_values(|m: Message| m@),
            table_held: self.table_held,
            log: match self.log {
                Some(line) => Some(line@),
                None => None,
            },
            next: self.next@,
        }
    }
}

impl Question {
    /// The step that follows when the question was answered, or not.
    pub fn answered(self, choice: Option<String>) -> (step: Step)
        ensures
            step == (Step::Answer { question: self, choice }),
    {
        Step::Answer { question: self, choice }
    }
}

/// Nothing is said and the turn is over.
pub open spec fn silence() -> OutcomeView {
    OutcomeView { messages: Seq::empty(), table_held: false, log: None, next: NextView::Done }
}

/// One player is told one thing and the turn is over.
pub open spec fn told(to: usize, text: Seq<char>) -> OutcomeView {
    OutcomeView { messages: seq![MessageView { to, text }], ..silence() }
}

/// Each of `players` is told the same and the turn is over.
pub open spec fn all_told(players: Seq<PlayerView>, text: Seq<char>) -> OutcomeView {
    OutcomeView {
        messages: players.map_values(|p: PlayerView| MessageView { to: p.num, text }),
        ..silence()
    }
}

/// The names of `players`.
pub open spec fn names(players: Seq<PlayerView>) -> Seq<Seq<char>> {
    players.map_values(|p: PlayerView| p.name)
}

fn say_nothing() -> (out: Outcome)
    ensures
        out@ == silence(),
{
    let out = Outcome { messages: Vec::new(), table_held: false, log: None, next: Next::Done };
    proof {
        assert(out@ =~= silence());
    }
    out
}

fn tell(to: usize, text: String) -> (out: Outcome)
    ensures
        out@ == told(to, text@),
{
    let mut messages: Vec<Message> = Vec::new();
    messages.push(Message { to, text });
    let out = Outcome { messages, table_held: false, log: None, next: Next::Done };
    proof {
        assert(out@ =~= told(to, text@));
    }
    out
}

fn tell_all(players: &Vec<Player>, text: &str) -> (out: Outcome)
    ensures
        out@ == all_told(player_views(players@), text@),
{
    let mut messages: Vec<Message> = Vec::new();
    let mut i: usize = 0;
    while i < players.len()
        invariant
            i <= players@.len(),
            messages@.len() == i,
            forall|j: int|
                0 <= j < i ==> (#[trigger] messages@[j])@ == (MessageView {
                    to: players@[j].num,
                    text: text@,
                }),
        decreases players.len() - i,
    {
        messages.push(Message { to: players[i].num, text: text.to_owned() });
        i = i + 1;
    }
    let out = Outcome { messages, table_held: false, log: None, next: Next::Done };
    proof {
        assert(out@ =~= all_told(player_views(players@), text@));
    }
    out
}

fn list_player_names(players: &Vec<Player>) -> (res: Vec<String>)
    ensures
        texts(res@) == names(player_views(players@)),
{
    let mut res: Vec<String> = Vec::new();
    let mut i: usize = 0;
    while i < players.len()
        invariant
            i <= players@.len(),
            res@.len() == i,
            forall|j: int| 0 <= j < i ==> (#[trigger] res@[j])@ == players@[j].name@,
        decreases players.len() - i,
    {
        res.push(players[i].name.clone());
        i = i + 1;
    }
    proof {
        assert(texts(res@) =~= names(player_views(players@)));
    }
    res
}

/// The werewolves' turn. Several learn all their names; the only one gets to look
/// at a card.
pub open spec fn werewolves_turn(werewolves: Seq<PlayerView>) -> OutcomeView {
    if werewolves.len() > 1 {
        all_told(werewolves, fellow_werewolves(names(werewolves)))
    } else if werewolves.len() == 1 {
        OutcomeView {
            next: NextView::Continue(StepView::LoneWerewolf { werewolf: werewolves[0].num }),
            ..silence()
        }
    } else {
        silence()
    }
}

/// Takes the turn of the given werewolves.
pub fn wake_werewolves(werewolves: &Vec<Player>) -> (out: Outcome)
    ensures
        out@ == werewolves_turn(player_views(werewolves@)),
{
    if werewolves.len() > 1 {
        let list = list_player_names(werewolves);
        tell_all(werewolves, fellow_werewolves_text(&list).as_str())
    } else if werewolves.len() == 1 {
        let mut out = say_nothing();
        out.next = Next::Continue(Step::LoneWerewolf { werewolf: werewolves[0].num });
        out
    } else {
        say_nothing()
    }
}

/// Shows a card to the only werewolf.
pub fn show_card(werewolf: usize, card: &str) -> (out: Outcome)
    ensures
        out@ == told(werewolf, lone_werewolf(card@)),
{
    tell(werewolf, lone_werewolf_text(card))
}

/// The minions' turn. Each learns the names of the werewolves, or that there are
/// none.
pub open spec fn minion_turn(
    minions: Seq<PlayerView>,
    werewolves: Seq<PlayerView>,
) -> OutcomeView {
    all_told(
        minions,
        if werewolves.len() > 0 {
            werewolves_are(names(werewolves))
        } else {
            NO_WEREWOLVES@
        },
    )
}

/// Takes the turn of the given minions when the werewolves are as given.
pub fn wake_minions(minions: &Vec<Player>, werewolves: &Vec<Player>) -> (out: Outcome)
    ensures
        out@ == minion_turn(player_views(minions@), player_views(werewolves@)),
{
    if werewolves.len() > 0 {
        let list = list_player_names(werewolves);
        tell_all(minions, werewolves_are_text(&list).as_str())
    } else {
        tell_all(minions, NO_WEREWOLVES)
    }
}

/// The night watchers' turn. Several learn all their names; the only one learns to
/// be the only one.
pub open spec fn nightwatcher_turn(nightwatchers: Seq<PlayerView>) -> OutcomeView {
    if nightwatchers.len() == 1 {
        told(nightwatchers[0].num, ONLY_NIGHTWATCHER@)
    } else {
        all_told(nightwatchers, fellow_nightwatchers(names(nightwatchers)))
    }
}

/// Takes the turn of the given night watchers.
pub fn wake_nightwatchers(nightwatchers: &Vec<Player>) -> (out: Outcome)
    ensures
        out@ == nightwatcher_turn(player_views(nightwatchers@)),
{
    if nightwatchers.len() == 1 {
        tell(nightwatchers[0].num, ONLY_NIGHTWATCHER.to_owned())
    } else {
        let list = list_player_names(nightwatchers);
        tell_all(nightwatchers, fellow_nightwatchers_text(&list).as_str())
    }
}

/// A turn that begins with a question to the first of `holders`, if there is one.
pub open spec fn question_turn(
    holders: Seq<PlayerView>,
    text: Seq<char>,
    asker: Asker,
) -> OutcomeView {
    if holders.len() == 0 {
        silence()
    } else {
        OutcomeView {
            next: NextView::Ask(Question { player: holders[0].num, asker }),
            ..told(holders[0].num, text)
        }
    }
}

/// Puts a question to the first of `holders`, if there is one.
pub fn put_question(holders: &Vec<Player>, text: &str, asker: Asker) -> (out: Outcome)
    ensures
        out@ == question_turn(player_views(holders@), text@, asker),
{
    if holders.len() == 0 {
        say_nothing()
    } else {
        let player = holders[0].num;
        let mut out = tell(player, text.to_owned());
        out.next = Next::Ask(Question { player, asker });
        out
    }
}

/// The drunks' turn. The first of `drunks` is told of the exchange, which follows.
pub open spec fn drunk_turn(drunks: Seq<PlayerView>) -> OutcomeView {
    if drunks.len() == 0 {
        silence()
    } else {
        OutcomeView {
            next: NextView::Continue(StepView::DrunkSwap { drunk: drunks[0].num }),
            ..told(drunks[0].num, DRUNK_NOTICE@)
        }
    }
}

/// Takes the turn of the given drunks.
pub fn wake_drunks(drunks: &Vec<Player>) -> (out: Outcome)
    ensures
        out@ == drunk_turn(player_views(drunks@)),
{
    if drunks.len() == 0 {
        say_nothing()
    } else {
        let drunk = drunks[0].num;
        let mut out = tell(drunk, DRUNK_NOTICE.to_owned());
        out.next = Next::Continue(Step::DrunkSwap { drunk });
        out
    }
}

/// How a turn goes on when the insomniacs at the seats `remaining` are left.
pub open spec fn insomniacs_left(remaining: Seq<usize>) -> NextView {
    if remaining.len() == 0 {
        NextView::Done
    } else {
        NextView::Continue(StepView::InsomniacReport { remaining })
    }
}

fn go_on_with_insomniacs(remaining: Vec<usize>) -> (next: Next)
    ensures
        next@ == insomniacs_left(remaining@),
{
    if remaining.len() == 0 {
        Next::Done
    } else {
        Next::Continue(Step::InsomniacReport { remaining })
    }
}

/// The insomniacs' turn. Their seats are taken down; their reports follow.
pub open spec fn insomniac_turn(insomniacs: Seq<PlayerView>) -> OutcomeView {
    OutcomeView {
        next: insomniacs_left(insomniacs.map_values(|p: PlayerView| p.num)),
        ..silence()
    }
}

/// Takes the turn of the given insomniacs.
pub fn wake_insomniacs(insomniacs: &Vec<Player>) -> (out: Outcome)
    ensures
        out@ == insomniac_turn(player_views(insomniacs@)),
{
    let mut remaining: Vec<usize> = Vec::new();
    let mut i: usize = 0;
    while i < insomniacs.len()
        invariant
            i <= insomniacs@.len(),
            remaining@.len() == i,
            forall|j: int| 0 <= j < i ==> #[trigger] remaining@[j] == insomniacs@[j].num,
        decreases insomniacs.len() - i,
    {
        remaining.push(insomniacs[i].num);
        i = i + 1;
    }
    proof {
        assert(remaining@ =~= player_views(insomniacs@).map_values(|p: PlayerView| p.num));
    }
    let mut out = say_nothing();
    out.next = go_on_with_insomniacs(remaining);
    out
}

/// What the seer learns who entered the number of a player, or no number.
pub open spec fn seer_learns<C, R>(
    game: GameView<C, R>,
    seer: usize,
    choice: Seq<char>,
) -> OutcomeView {
    match number(trimmed(choice)) {
        None => told(seer, NOT_A_NUMBER@),
        Some(id) => if game.players.contains_key(id) {
            told(seer, role_of(id, game.players[id].role))
        } else {
            told(seer, SEER_NO_SUCH_PLAYER@)
        },
    }
}

/// Whether a seer's choice stands for the centre.
pub open spec fn chooses_center(choice: Option<Seq<char>>) -> bool {
    choice matches Some(text) && number(trimmed(text)) == Some(0usize)
}

/// What the seer is told after the choice: on the number 0, any two of the cards
/// in the centre.
pub open spec fn seer_answered<C, R>(
    game: GameView<C, R>,
    seer: usize,
    choice: Option<Seq<char>>,
    out: OutcomeView,
) -> bool {
    match choice {
        None => out == silence(),
        Some(text) => if chooses_center(choice) {
            exists|i: int, j: int|
                {
                    &&& 0 <= i < game.center_cards.len()
                    &&& 0 <= j < game.center_cards.len()
                    &&& i != j
                    &&& out == told(
                        seer,
                        two_cards(
                            #[trigger] game.center_cards[i],
                            #[trigger] game.center_cards[j],
                        ),
                    )
                }
        } else {
            out == seer_learns(game, seer, text)
        },
    }
}

/// Whether the robber's choice leads to an exchange, and with whom.
pub open spec fn robber_target<C, R>(
    game: GameView<C, R>,
    robber: usize,
    choice: Option<Seq<char>>,
) -> Option<usize> {
    match choice {
        None => None,
        Some(text) => match number(trimmed(text)) {
            Some(target) => if game.players.contains_key(target) && game.players.contains_key(
                robber,
            ) {
                Some(target)
            } else {
                None
            },
            None => None,
        },
    }
}

/// The table after the robber's choice.
pub open spec fn after_robbery<C, R>(
    game: GameView<C, R>,
    robber: usize,
    choice: Option<Seq<char>>,
) -> GameView<C, R> {
    match robber_target(game, robber, choice) {
        Some(target) => game.swap_roles(target, robber),
        None => game,
    }
}

/// What the robber is told after the choice. A step that finds nobody to rob, or no
/// robber, keeps the table while it says so.
pub open spec fn robber_learns<C, R>(
    game: GameView<C, R>,
    robber: usize,
    choice: Option<Seq<char>>,
) -> OutcomeView {
    match choice {
        None => silence(),
        Some(text) => match number(trimmed(text)) {
            None => told(robber, NOT_A_NUMBER@),
            Some(_) => match robber_target(game, robber, choice) {
                Some(target) => told(robber, robbed(target, game.players[target].role)),
                None => OutcomeView {
                    table_held: true,
                    ..told(robber, ROBBER_NO_SUCH_PLAYER@)
                },
            },
        },
    }
}

/// The two players whom the troublemaker chose, if they are two numbers.
pub open spec fn two_numbers(choice: Seq<char>) -> Option<(usize, usize)> {
    let entered = words(trimmed(choice));
    if entered.len() == 2 {
        match (number(entered[0]), number(entered[1])) {
            (Some(id1), Some(id2)) => Some((id1, id2)),
            _ => None,
        }
    } else {
        None
    }
}

/// Whether the troublemaker's choice leads to an exchange, and between whom.
pub open spec fn trouble_targets<C, R>(
    game: GameView<C, R>,
    choice: Option<Seq<char>>,
) -> Option<(usize, usize)> {
    match choice {
        None => None,
        Some(text) => match two_numbers(text) {
            Some((id1, id2)) => if game.players.contains_key(id1) && game.players.contains_key(
                id2,
            ) {
                Some((id1, id2))
            } else {
                None
            },
            None => None,
        },
    }
}

/// The table after the troublemaker's choice.
pub open spec fn after_trouble<C, R>(
    game: GameView<C, R>,
    choice: Option<Seq<char>>,
) -> GameView<C, R> {
    match trouble_targets(game, choice) {
        Some((id1, id2)) => game.swap_roles(id1, id2),
        None => game,
    }
}

/// What the troublemaker is told after the choice.
pub open spec fn troublemaker_learns<C, R>(
    game: GameView<C, R>,
    troublemaker: usize,
    choice: Option<Seq<char>>,
) -> OutcomeView {
    match choice {
        None => silence(),
        Some(text) => if words(trimmed(text)).len() != 2 {
            told(troublemaker, NOT_TWO_WORDS@)
        } else if two_numbers(text) is None {
            told(troublemaker, NOT_TWO_NUMBERS@)
        } else {
            match trouble_targets(game, choice) {
                Some((id1, id2)) => told(troublemaker, exchanged(id1, id2)),
                None => told(troublemaker, TROUBLEMAKER_NO_SUCH_PLAYERS@),
            }
        },
    }
}

/// The table after the drunk exchanged cards with the one at `index` in the
/// centre. A drunk who left exchanges nothing.
pub open spec fn after_drunk<C, R>(game: GameView<C, R>, drunk: usize, index: int) -> GameView<
    C,
    R,
> {
    if game.players.contains_key(drunk) {
        game.swap_with_center(drunk, index)
    } else {
        game
    }
}

/// What the operator is told of the drunk's exchange.
pub open spec fn drunk_reported<C, R>(game: GameView<C, R>, drunk: usize) -> OutcomeView {
    if game.players.contains_key(drunk) {
        OutcomeView {
            log: Some(drunk_exchanged(game.players[drunk].name, game.players[drunk].role)),
            ..silence()
        }
    } else {
        silence()
    }
}

/// What the drunk's exchange with some card in the centre brings about.
pub open spec fn drunk_swapped<C, R>(
    game: GameView<C, R>,
    drunk: usize,
    after: GameView<C, R>,
    out: OutcomeView,
) -> bool {
    if game.center_cards.len() == 0 {
        after == game && out == silence()
    } else {
        &&& exists|index: int|
            0 <= index < game.center_cards.len() && after == #[trigger] after_drunk(
                game,
                drunk,
                index,
            )
        &&& out == drunk_reported(game, drunk)
    }
}

/// What the first of the insomniacs at the seats `remaining` is told: the card that
/// is held there now, and no card when nobody sits there any more. The others follow.
pub open spec fn insomniac_reported<C, R>(
    game: GameView<C, R>,
    remaining: Seq<usize>,
) -> OutcomeView {
    if remaining.len() == 0 {
        silence()
    } else {
        let id = remaining.first();
        let role = if game.players.contains_key(id) {
            game.players[id].role
        } else {
            Seq::empty()
        };
        OutcomeView {
            next: insomniacs_left(remaining.drop_first()),
            ..told(id, final_role(role))
        }
    }
}

/// Whether a step can be taken: a card that is looked at must lie in the centre.
pub open spec fn can_follow<C, R>(game: GameView<C, R>, step: StepView) -> bool {
    match step {
        StepView::LoneWerewolf { .. } => game.center_cards.len() > 0,
        StepView::Answer { question, choice } => question.asker == Asker::Seer && chooses_center(
            choice,
        ) ==> game.center_cards.len() >= 2,
        _ => true,
    }
}

/// The role whose turn it is.
pub open spec fn turn_role(turn: Turn) -> Seq<char> {
    match turn {
        Turn::Werewolves => WEREWOLF@,
        Turn::Minion => MINION@,
        Turn::Nightwatcher => NIGHTWATCHER@,
        Turn::Seer => SEER@,
        Turn::Robber => ROBBER@,
        Turn::Troublemaker => TROUBLEMAKER@,
        Turn::Drunk => DRUNK@,
        Turn::Insomniac => INSOMNIAC@,
    }
}

/// What the beginning of a turn brings about when `roster` are the players of its
/// role and `werewolves` are the werewolves.
pub open spec fn turn_outcome(
    turn: Turn,
    roster: Seq<PlayerView>,
    werewolves: Seq<PlayerView>,
) -> OutcomeView {
    match turn {
        Turn::Werewolves => werewolves_turn(roster),
        Turn::Minion => minion_turn(roster, werewolves),
        Turn::Nightwatcher => nightwatcher_turn(roster),
        Turn::Seer => question_turn(roster, SEER_QUESTION@, Asker::Seer),
        Turn::Robber => question_turn(roster, ROBBER_QUESTION@, Asker::Robber),
        Turn::Troublemaker => question_turn(roster, TROUBLEMAKER_QUESTION@, Asker::Troublemaker),
        Turn::Drunk => drunk_turn(roster),
        Turn::Insomniac => insomniac_turn(roster),
    }
}

/// What the beginning of a turn brings about. The players of a role come in any
/// order.
pub open spec fn begun<C, R>(game: GameView<C, R>, turn: Turn, out: OutcomeView) -> bool {
    exists|roster: Seq<PlayerView>, werewolves: Seq<PlayerView>|
        {
            &&& is_roster(game.players, turn_role(turn), roster)
            &&& turn == Turn::Minion ==> is_roster(game.players, WEREWOLF@, werewolves)
            &&& out == #[trigger] turn_outcome(turn, roster, werewolves)
        }
}

/// What a step brings about: `after` is the table afterwards and `out` is what is
/// said and how the turn goes on.
pub open spec fn follows<C, R>(
    game: GameView<C, R>,
    step: StepView,
    after: GameView<C, R>,
    out: OutcomeView,
) -> bool {
    match step {
        StepView::Begin(turn) => after == game && begun(game, turn, out),
        StepView::LoneWerewolf { werewolf } => {
            &&& after == game
            &&& exists|i: int|
                0 <= i < game.center_cards.len() && out == told(
                    werewolf,
                    lone_werewolf(#[trigger] game.center_cards[i]),
                )
        },
        StepView::Answer { question, choice } => match question.asker {
            Asker::Seer => after == game && seer_answered(game, question.player, choice, out),
            Asker::Robber => {
                &&& after == after_robbery(game, question.player, choice)
                &&& out == robber_learns(game, question.player, choice)
            },
            Asker::Troublemaker => {
                &&& after == after_trouble(game, choice)
                &&& out == troublemaker_learns(game, question.player, choice)
            },
        },
        StepView::DrunkSwap { drunk } => drunk_swapped(game, drunk, after, out),
        StepView::InsomniacReport { remaining } => {
            &&& after == game
            &&& out == insomniac_reported(game, remaining)
        },
    }
}

impl<C, R> GameState<C, R> {
    /// The werewolves wake up.
    pub fn handle_werewolves(&self) -> (out: Outcome)
        requires
            self@.well_formed(),
        ensures
            begun(self@, Turn::Werewolves, out@),
            follows(self@, StepView::Begin(Turn::Werewolves), self@, out@),
    {
        let werewolves = self.players_with_role(WEREWOLF);
        let out = wake_werewolves(&werewolves);
        proof {
            assert(out@ == turn_outcome(Turn::Werewolves, player_views(werewolves@), Seq::empty()));
        }
        out
    }

    /// The only werewolf looks at a card in the centre.
    pub fn handle_lone_werewolf(&self, werewolf: usize) -> (out: Outcome)
        requires
            self@.center_cards.len() > 0,
        ensures
            exists|i: int|
                0 <= i < self@.center_cards.len() && out@ == told(
                    werewolf,
                    lone_werewolf(#[trigger] self@.center_cards[i]),
                ),
            follows(self@, StepView::LoneWerewolf { werewolf }, self@, out@),
    {
        let cards = self.center_cards();
        let card = choose_card(cards).unwrap();
        proof {
            let i = choose|i: int| 0 <= i < cards@.len() && card@ == (#[trigger] cards@[i])@;
            assert(self@.center_cards[i] == card@);
        }
        show_card(werewolf, card.as_str())
    }

    /// The minions wake up.
    pub fn handle_minion(&self) -> (out: Outcome)
        requires
            self@.well_formed(),
        ensures
            begun(self@, Turn::Minion, out@),
            follows(self@, StepView::Begin(Turn::Minion), self@, out@),
    {
        let minions = self.players_with_role(MINION);
        let werewolves = self.players_with_role(WEREWOLF);
        let out = wake_minions(&minions, &werewolves);
        proof {
            assert(out@ == turn_outcome(Turn::Minion, player_views(minions@), player_views(werewolves@)));
        }
        out
    }

    /// The night watchers wake up.
    pub fn handle_nightwatcher(&self) -> (out: Outcome)
        requires
            self@.well_formed(),
        ensures
            begun(self@, Turn::Nightwatcher, out@),
            follows(self@, StepView::Begin(Turn::Nightwatcher), self@, out@),
    {
        let nightwatchers = self.players_with_role(NIGHTWATCHER);
        let out = wake_nightwatchers(&nightwatchers);
        proof {
            assert(out@ == turn_outcome(Turn::Nightwatcher, player_views(nightwatchers@), Seq::empty()));
        }
        out
    }

    /// A seer wakes up.
    pub fn handle_seer(&self) -> (out: Outcome)
        requires
            self@.well_formed(),
        ensures
            begun(self@, Turn::Seer, out@),
            follows(self@, StepView::Begin(Turn::Seer), self@, out@),
    {
        let seers = self.players_with_role(SEER);
        let out = put_question(&seers, SEER_QUESTION, Asker::Seer);
        proof {
            assert(out@ == turn_outcome(Turn::Seer, player_views(seers@), Seq::empty()));
        }
        out
    }

    /// Shows the seer the cards at the first two of `indices` in the centre.
    pub fn show_two_cards(&self, seer: usize, indices: &Vec<usize>) -> (out: Outcome)
        requires
            indices@.len() >= 2,
            indices@[0] < self@.center_cards.len(),
            indices@[1] < self@.center_cards.len(),
        ensures
            out@ == told(
                seer,
                two_cards(
                    self@.center_cards[indices@[0] as int],
                    self@.center_cards[indices@[1] as int],
                ),
            ),
    {
        let cards = self.center_cards();
        tell(seer, two_cards_text(cards[indices[0]].as_str(), cards[indices[1]].as_str()))
    }

    /// The seer looks at two cards in the centre.
    pub fn handle_seer_center(&self, seer: usize) -> (out: Outcome)
        requires
            self@.center_cards.len() >= 2,
        ensures
            exists|i: int, j: int|
                {
                    &&& 0 <= i < self@.center_cards.len()
                    &&& 0 <= j < self@.center_cards.len()
                    &&& i != j
                    &&& out@ == told(
                        seer,
                        two_cards(
                            #[trigger] self@.center_cards[i],
                            #[trigger] self@.center_cards[j],
                        ),
                    )
                },
    {
        let mut indices: Vec<usize> = Vec::new();
        let mut i: usize = 0;
        while i < self.center_cards().len()
            invariant
                i <= self@.center_cards.len(),
                indices@ =~= Seq::new(i as nat, |k: int| k as usize),
            decreases self@.center_cards.len() - i,
        {
            indices.push(i);
            i = i + 1;
        }
        let ghost sorted = indices@;
        shuffle(&mut indices);
        proof {
            sorted.to_multiset_ensures();
            indices@.to_multiset_ensures();
            sorted.lemma_multiset_has_no_duplicates();
            assert(indices@.to_multiset() == sorted.to_multiset());
            indices@.lemma_multiset_has_no_duplicates_conv();
            assert(indices@.len() == sorted.len());
            assert(sorted.contains(indices@[0])) by {
                assert(indices@.contains(indices@[0]));
                assert(sorted.to_multiset().count(indices@[0]) > 0);
            }
            assert(sorted.contains(indices@[1])) by {
                assert(indices@.contains(indices@[1]));
                assert(sorted.to_multiset().count(indices@[1]) > 0);
            }
        }
        self.show_two_cards(seer, &indices)
    }

    /// The seer looks at two cards in the centre or at a player's card, or is told
    /// what is wrong with the choice.
    pub fn handle_seer_choice(&self, seer: usize, choice: &Option<String>) -> (out: Outcome)
        requires
            chooses_center(choice_view(*choice)) ==> self@.center_cards.len() >= 2,
        ensures
            seer_answered(self@, seer, choice_view(*choice), out@),
            follows(
                self@,
                StepView::Answer {
                    question: Question { player: seer, asker: Asker::Seer },
                    choice: choice_view(*choice),
                },
                self@,
                out@,
            ),
    {
        match choice {
            None => say_nothing(),
            Some(text) => match parse_number(trim(text.as_str())) {
                None => tell(seer, NOT_A_NUMBER.to_owned()),
                Some(id) => if id == 0 {
                    self.handle_seer_center(seer)
                } else {
                    match self.role_of(id) {
                        Some(role) => tell(seer, role_of_text(id, role.as_str())),
                        None => tell(seer, SEER_NO_SUCH_PLAYER.to_owned()),
                    }
                },
            },
        }
    }

    /// A robber wakes up.
    pub fn handle_robber(&self) -> (out: Outcome)
        requires
            self@.well_formed(),
        ensures
            begun(self@, Turn::Robber, out@),
            follows(self@, StepView::Begin(Turn::Robber), self@, out@),
    {
        let robbers = self.players_with_role(ROBBER);
        let out = put_question(&robbers, ROBBER_QUESTION, Asker::Robber);
        proof {
            assert(out@ == turn_outcome(Turn::Robber, player_views(robbers@), Seq::empty()));
        }
        out
    }

    /// The robber exchanges cards with a player or is told what is wrong with the
    /// choice.
    pub fn handle_robber_choice(&mut self, robber: usize, choice: &Option<String>) -> (out: Outcome)
        requires
            old(self)@.well_formed(),
        ensures
            final(self)@ == after_robbery(old(self)@, robber, choice_view(*choice)),
            final(self)@.well_formed(),
            out@ == robber_learns(old(self)@, robber, choice_view(*choice)),
            follows(
                old(self)@,
                StepView::Answer {
                    question: Question { player: robber, asker: Asker::Robber },
                    choice: choice_view(*choice),
                },
                final(self)@,
                out@,
            ),
    {
        match choice {
            None => say_nothing(),
            Some(text) => match parse_number(trim(text.as_str())) {
                None => tell(robber, NOT_A_NUMBER.to_owned()),
                Some(target) => match (self.role_of(target), self.is_seated(robber)) {
                    (Some(role), true) => {
                        self.swap_roles(target, robber);
                        tell(robber, robbed_text(target, role.as_str()))
                    },
                    _ => {
                        let mut out = tell(robber, ROBBER_NO_SUCH_PLAYER.to_owned());
                        out.table_held = true;
                        out
                    },
                },
            },
        }
    }

    /// A troublemaker wakes up.
    pub fn handle_troublemaker(&self) -> (out: Outcome)
        requires
            self@.well_formed(),
        ensures
            begun(self@, Turn::Troublemaker, out@),
            follows(self@, StepView::Begin(Turn::Troublemaker), self@, out@),
    {
        let troublemakers = self.players_with_role(TROUBLEMAKER);
        let out = put_question(&troublemakers, TROUBLEMAKER_QUESTION, Asker::Troublemaker);
        proof {
            assert(out@ == turn_outcome(Turn::Troublemaker, player_views(troublemakers@), Seq::empty()));
        }
        out
    }

    /// The troublemaker exchanges the cards of two players or is told what is wrong
    /// with the choice.
    pub fn handle_troublemaker_choice(
        &mut self,
        troublemaker: usize,
        choice: &Option<String>,
    ) -> (out: Outcome)
        requires
            old(self)@.well_formed(),
        ensures
            final(self)@ == after_trouble(old(self)@, choice_view(*choice)),
            final(self)@.well_formed(),
            out@ == troublemaker_learns(old(self)@, troublemaker, choice_view(*choice)),
            follows(
                old(self)@,
                StepView::Answer {
                    question: Question { player: troublemaker, asker: Asker::Troublemaker },
                    choice: choice_view(*choice),
                },
                final(self)@,
                out@,
            ),
    {
        match choice {
            None => say_nothing(),
            Some(text) => {
                let entered = split_words(trim(text.as_str()));
                if entered.len() != 2 {
                    return tell(troublemaker, NOT_TWO_WORDS.to_owned());
                }
                proof {
                    assert(texts(entered@)[0] == entered@[0]@);
                    assert(texts(entered@)[1] == entered@[1]@);
                }
                match (parse_number(entered[0].as_str()), parse_number(entered[1].as_str())) {
                    (Some(id1), Some(id2)) => if self.is_seated(id1) && self.is_seated(id2) {
                        self.swap_roles(id1, id2);
                        tell(troublemaker, exchanged_text(id1, id2))
                    } else {
                        tell(troublemaker, TROUBLEMAKER_NO_SUCH_PLAYERS.to_owned())
                    },
                    _ => tell(troublemaker, NOT_TWO_NUMBERS.to_owned()),
                }
            },
        }
    }

    /// A drunk wakes up.
    pub fn handle_drunk(&self) -> (out: Outcome)
        requires
            self@.well_formed(),
        ensures
            begun(self@, Turn::Drunk, out@),
            follows(self@, StepView::Begin(Turn::Drunk), self@, out@),
    {
        let drunks = self.players_with_role(DRUNK);
        let out = wake_drunks(&drunks);
        proof {
            assert(out@ == turn_outcome(Turn::Drunk, player_views(drunks@), Seq::empty()));
        }
        out
    }

    /// The drunk exchanges cards with the one at `index` in the centre.
    pub fn exchange_with_center(&mut self, drunk: usize, index: usize) -> (out: Outcome)
        requires
            old(self)@.well_formed(),
            index < old(self)@.center_cards.len(),
        ensures
            final(self)@ == after_drunk(old(self)@, drunk, index as int),
            final(self)@.well_formed(),
            out@ == drunk_reported(old(self)@, drunk),
    {
        let mut out = say_nothing();
        if self.is_seated(drunk) {
            let (name, old_role) = self.swap_with_center(drunk, index);
            out.log = Some(drunk_exchanged_line(name.as_str(), old_role.as_str()));
        }
        out
    }

    /// The drunk exchanges cards with some card in the centre, if there is one.
    pub fn handle_drunk_swap(&mut self, drunk: usize) -> (out: Outcome)
        requires
            old(self)@.well_formed(),
        ensures
            drunk_swapped(old(self)@, drunk, final(self)@, out@),
            follows(old(self)@, StepView::DrunkSwap { drunk }, final(self)@, out@),
            final(self)@.well_formed(),
    {
        let n = self.center_cards().len();
        if n == 0 {
            return say_nothing();
        }
        let index = number_below(n);
        self.exchange_with_center(drunk, index)
    }

    /// The insomniacs wake up.
    pub fn handle_insomniac(&self) -> (out: Outcome)
        requires
            self@.well_formed(),
        ensures
            begun(self@, Turn::Insomniac, out@),
            follows(self@, StepView::Begin(Turn::Insomniac), self@, out@),
    {
        let insomniacs = self.players_with_role(INSOMNIAC);
        let out = wake_insomniacs(&insomniacs);
        proof {
            assert(out@ == turn_outcome(Turn::Insomniac, player_views(insomniacs@), Seq::empty()));
        }
        out
    }

    /// The first of the insomniacs who are left looks at the card.
    pub fn handle_insomniac_report(&self, remaining: Vec<usize>) -> (out: Outcome)
        ensures
            out@ == insomniac_reported(self@, remaining@),
            follows(
                self@,
                StepView::InsomniacReport { remaining: remaining@ },
                self@,
                out@,
            ),
    {
        if remaining.len() == 0 {
            return say_nothing();
        }
        let ghost all = remaining@;
        let mut remaining = remaining;
        let id = remaining.remove(0);
        proof {
            assert(remaining@ =~= all.drop_first());
        }
        let role = match self.role_of(id) {
            Some(role) => role,
            None => String::new(),
        };
        let mut out = tell(id, final_role_text(role.as_str()));
        out.next = go_on_with_insomniacs(remaining);
        out
    }

    /// Tests whether `step` can be taken: a card that is to be looked at must lie in
    /// the centre.
    pub fn can_advance(&self, step: &Step) -> (res: bool)
        ensures
            res == can_follow(self@, step@),
    {
        match step {
            Step::LoneWerewolf { .. } => self.center_cards().len() > 0,
            Step::Answer { question, choice } => match (question.asker, choice) {
                (Asker::Seer, Some(text)) => match parse_number(trim(text.as_str())) {
                    Some(id) => id != 0 || self.center_cards().len() >= 2,
                    None => true,
                },
                _ => true,
            },
            _ => true,
        }
    }

    /// Takes one step of the night.
    pub fn advance(&mut self, step: Step) -> (out: Outcome)
        requires
            old(self)@.well_formed(),
            can_follow(old(self)@, step@),
        ensures
            follows(old(self)@, step@, final(self)@, out@),
            final(self)@.well_formed(),
    {
        match step {
            Step::Begin(turn) => match turn {
                Turn::Werewolves => self.handle_werewolves(),
                Turn::Minion => self.handle_minion(),
                Turn::Nightwatcher => self.handle_nightwatcher(),
                Turn::Seer => self.handle_seer(),
                Turn::Robber => self.handle_robber(),
                Turn::Troublemaker => self.handle_troublemaker(),
                Turn::Drunk => self.handle_drunk(),
                Turn::Insomniac => self.handle_insomniac(),
            },
            Step::LoneWerewolf { werewolf } => self.handle_lone_werewolf(werewolf),
            Step::Answer { question, choice } => match question.asker {
                Asker::Seer => self.handle_seer_choice(question.player, &choice),
                Asker::Robber => self.handle_robber_choice(question.player, &choice),
                Asker::Troublemaker => self.handle_troublemaker_choice(question.player, &choice),
            },
            Step::DrunkSwap { drunk } => self.handle_drunk_swap(drunk),
            Step::InsomniacReport { remaining } => self.handle_insomniac_report(remaining),
        }
    }

    /// The night begins. Returns the announcement.
    pub fn start_night_phase(&mut self) -> (announcement: String)
        requires
            old(self)@.well_formed(),
        ensures
            final(self)@ == old(self)@.with_night(true),
            final(self)@.well_formed(),
            announcement@ == NIGHT_FALLS@,
    {
        self.set_night(true);
        NIGHT_FALLS.to_owned()
    }

    /// Begins the game if it is full: the centre is laid out and the night begins.
    /// Returns the operator's line and the announcement. This is done each time a
    /// client has sat down.
    pub fn begin_game(&mut self) -> (res: Option<(String, String)>)
        requires
            old(self)@.well_formed(),
        ensures
            final(self)@.well_formed(),
            match res {
                Some((log, announcement)) => {
                    &&& old(self)@.is_full_game()
                    &&& final(self)@ == old(self)@.set_center().with_night(true)
                    &&& log@ == center_set(final(self)@.center_cards)
                    &&& announcement@ == NIGHT_FALLS@
                },
                None => !old(self)@.is_full_game() && final(self)@ == old(self)@,
            },
    {
        if self.should_start_game() {
            let log = self.setup_center_cards();
            let announcement = self.start_night_phase();
            Some((log, announcement))
        } else {
            None
        }
    }

    /// The night is over. Returns the announcement.
    pub fn end_night_phase(&mut self) -> (announcement: String)
        requires
            old(self)@.well_formed(),
        ensures
            final(self)@ == old(self)@.with_night(false),
            final(self)@.well_formed(),
            announcement@ == DAY_BREAKS@,
    {
        self.set_night(false);
        DAY_BREAKS.to_owned()
    }
}

/// The turns of a night in their order. The turns of one stage go on side by side.
pub open spec fn schedule() -> Seq<Seq<Turn>> {
    seq![
        seq![Turn::Werewolves, Turn::Minion],
        seq![Turn::Nightwatcher],
        seq![Turn::Seer],
        seq![Turn::Robber],
        seq![Turn::Troublemaker],
        seq![Turn::Drunk, Turn::Insomniac],
    ]
}

/// Makes the schedule of a night.
pub fn night_schedule() -> (stages: Vec<Vec<Turn>>)
    ensures
        stages@.map_values(|stage: Vec<Turn>| stage@) == schedule(),
{
    let stages: Vec<Vec<Turn>> = vec![
        vec![Turn::Werewolves, Turn::Minion],
        vec![Turn::Nightwatcher],
        vec![Turn::Seer],
        vec![Turn::Robber],
        vec![Turn::Troublemaker],
        vec![Turn::Drunk, Turn::Insomniac],
    ];
    proof {
        assert(stages@.map_values(|stage: Vec<Turn>| stage@) =~~= schedule());
    }
    stages
}

} // verus!
