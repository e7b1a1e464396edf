//! The table: its seats, its cards, and the answers that somebody waits for.

use crate::messages::{
    center_set, center_set_line, joined, joined_line, unasked, unasked_line, welcome, welcome_text,
    CHOICE_SKIPPED, ENTER_CHOICE, SUPERSEDED, TABLE_FULL,
};
use crate::model::{is_roster, GameView, PlayerView, CENTER_PLACES, PLACES};
use crate::text::texts;
use std::collections::HashMap;
use std::collections::HashSet;
use vstd::hash_map::StringHashMap;
use vstd::prelude::*;

verus! {

broadcast use vstd::std_specs::hash::group_hash_axioms;

/// A seated player.
#[derive(Debug)]
pub struct Player {
    pub name: String,
    pub role: String,
    pub num: usize,
}

impl Clone for Player {
    fn clone(&self) -> (res: Self)
        ensures
            res == *self,
    {
        Player { name: self.name.clone(), role: self.role.clone(), num: self.num }
    }
}

impl View for Player {
    type V = PlayerView;

    open spec fn view(&self) -> PlayerView {
        PlayerView { name: self.name@, role: self.role@, num: self.num }
    }
}

/// What the players of a list are.
pub open spec fn player_views(players: Seq<Player>) -> Seq<PlayerView> {
    players.map_values(|p: Player| p@)
}

/// The table. `C` is what carries messages to a player, `R` is where an answer
/// that somebody waits for is put.
#[verifier::reject_recursive_types(C)]
#[verifier::reject_recursive_types(R)]
pub struct GameState<C, R> {
    players: HashMap<usize, Player>,
    name_to_id: StringHashMap<usize>,
    player_channels: HashMap<usize, C>,
    available_roles: Vec<String>,
    night_phase: bool,
    center_cards: Vec<String>,
    used_ids: HashSet<usize>,
    pending_responses: HashMap<usize, R>,
    available_ids: Vec<usize>,
    robot: Option<String>,
}

impl<C, R> View for GameState<C, R> {
    type V = GameView<C, R>;

    closed spec fn view(&self) -> GameView<C, R> {
        GameView {
            players: self.players@.map_values(|p: Player| p@),
            name_to_id: self.name_to_id@,
            player_channels: self.player_channels@,
            available_roles: texts(self.available_roles@),
            night_phase: self.night_phase,
            center_cards: texts(self.center_cards@),
            used_ids: self.used_ids@,
            pending_responses: self.pending_responses@,
            available_ids: self.available_ids@,
            robot: match self.robot {
                Some(role) => Some(role@),
                None => None,
            },
        }
    }
}

/// What became of a client who asked to sit down.
#[derive(Debug)]
pub enum Admission {
    /// There was no seat or no card. `reply` says so.
    Refused { reply: String },
    /// The client plays at seat `id`. `reply` is the welcome and `log` the
    /// operator's line.
    Seated { id: usize, reply: String, log: String },
}

impl<C, R> GameState<C, R> {
    /// A table with `playernum` seats and a deck from whose end cards are dealt.
    pub fn new(playernum: usize, roles: Vec<String>) -> (game: Self)
        ensures
            game@ == GameView::<C, R>::fresh(playernum, texts(roles@)),
            game@.well_formed(),
    {
        let mut ids: Vec<usize> = Vec::new();
        let mut i: usize = 0;
        while i < playernum
            invariant
                i <= playernum,
                ids@ =~= Seq::new(i as nat, |j: int| (j + 1) as usize),
            decreases playernum - i,
        {
            i = i + 1;
            ids.push(i);
        }
        let game = GameState {
            players: HashMap::new(),
            name_to_id: StringHashMap::new(),
            player_channels: HashMap::new(),
            available_roles: roles,
            night_phase: false,
            center_cards: Vec::new(),
            used_ids: HashSet::new(),
            pending_responses: HashMap::new(),
            available_ids: ids,
            robot: None,
        };
        proof {
            assert(game@ =~= GameView::<C, R>::fresh(playernum, texts(roles@)));
        }
        game
    }

    /// Lets a client sit down who calls itself `name` and is reached by `channel`.
    pub fn join(&mut self, name: String, channel: C) -> (res: Admission)
        requires
            old(self)@.well_formed(),
        ensures
            final(self)@ == old(self)@.join(name@, channel),
            final(self)@.well_formed(),
            match res {
                Admission::Refused { reply } => !old(self)@.has_room() && reply@ == TABLE_FULL@,
                Admission::Seated { id, reply, log } => {
                    let player = old(self)@.newcomer(name@);
                    &&& old(self)@.has_room()
                    &&& id == player.num
                    &&& reply@ == welcome(player.num, player.role)
                    &&& log@ == joined(player.name, player.num, player.role)
                },
            },
    {
        let ghost before = self@;
        if self.available_ids.is_empty() {
            return Admission::Refused { reply: TABLE_FULL.to_owned() };
        }
        let id = self.available_ids.pop().unwrap();
        if self.available_roles.is_empty() {
            proof {
                assert(self@ =~= before.join(name@, channel));
            }
            return Admission::Refused { reply: TABLE_FULL.to_owned() };
        }
        let role = self.available_roles.pop().unwrap();
        let reply = welcome_text(id, role.as_str());
        let log = joined_line(name.as_str(), id, role.as_str());
        let player = Player { name: name.clone(), role, num: id };
        self.players.insert(id, player);
        self.name_to_id.insert(name, id);
        self.player_channels.insert(id, channel);
        self.used_ids.insert(id);
        proof {
            assert(self@ =~= before.join(name@, channel));
        }
        Admission::Seated { id, reply, log }
    }

    /// Takes player `player_id` from the table.
    pub fn leave(&mut self, player_id: usize)
        requires
            old(self)@.well_formed(),
            old(self)@.players.contains_key(player_id),
        ensures
            final(self)@ == old(self)@.leave(player_id),
            final(self)@.well_formed(),
    {
        let ghost before = self@;
        let removed = self.players.remove(&player_id);
        self.player_channels.remove(&player_id);
        if let Some(player) = removed {
            let entry = self.name_to_id.get(player.name.as_str());
            if let Some(id) = entry {
                if *id == player_id {
                    self.name_to_id.remove(player.name.as_str());
                }
            }
        }
        self.available_ids.push(player_id);
        self.used_ids.remove(&player_id);
        proof {
            assert(self@ =~= before.leave(player_id));
        }
    }

    /// Tests whether a player sits at seat `player_id`.
    pub fn is_seated(&self, player_id: usize) -> (res: bool)
        ensures
            res == self@.players.contains_key(player_id),
    {
        self.players.contains_key(&player_id)
    }

    /// Tests whether as many players sit at the table as a full game has.
    pub fn should_start_game(&self) -> (res: bool)
        ensures
            res == self@.is_full_game(),
    {
        proof {
            assert(self@.players.dom() =~= self.players@.dom());
        }
        self.players.len() == PLACES - CENTER_PLACES
    }

    /// Lays the cards that are left out in the centre. Returns the operator's line.
    pub fn setup_center_cards(&mut self) -> (log: String)
        requires
            old(self)@.well_formed(),
        ensures
            final(self)@ == old(self)@.set_center(),
            final(self)@.well_formed(),
            log@ == center_set(final(self)@.center_cards),
    {
        let ghost before = self@;
        let mut cards: Vec<String> = Vec::new();
        let mut i: usize = 0;
        while i < self.available_roles.len()
            invariant
                i <= self.available_roles@.len(),
                cards@ =~= self.available_roles@.take(i as int),
            decreases self.available_roles.len() - i,
        {
            cards.push(self.available_roles[i].clone());
            i = i + 1;
        }
        self.center_cards = cards;
        proof {
            assert(self.center_cards@ =~= self.available_roles@);
            assert(self@ =~= before.set_center());
        }
        center_set_line(&self.center_cards)
    }

    /// Gives the last card that is left to the robot.
    pub fn setup_robot(&mut self)
        requires
            old(self)@.well_formed(),
            old(self)@.available_roles.len() > 0,
        ensures
            final(self)@ == old(self)@.set_robot(),
            final(self)@.well_formed(),
    {
        let ghost before = self@;
        self.robot = self.available_roles.pop();
        proof {
            assert(self@ =~= before.set_robot());
        }
    }

    /// Finds what carries `message` to player `player_id`, if anything does.
    pub fn send_private_message(&self, player_id: usize, message: &str) -> (res: Option<
        (&C, String),
    >)
        ensures
            match res {
                Some((channel, text)) => {
                    &&& self@.player_channels.contains_key(player_id)
                    &&& *channel == self@.player_channels[player_id]
                    &&& text@ == message@
                },
                None => !self@.player_channels.contains_key(player_id),
            },
    {
        match self.player_channels.get(&player_id) {
            Some(channel) => Some((channel, message.to_owned())),
            None => None,
        }
    }

    /// Puts a question to player `player_id`, whose next message goes into `reply`.
    pub fn receive_player_input(&mut self, player_id: usize, reply: R) -> (res: Asked<R>)
        requires
            old(self)@.well_formed(),
        ensures
            final(self)@ == old(self)@.await_reply(player_id, reply),
            final(self)@.well_formed(),
            match res.superseded {
                Some((earlier, text)) => {
                    &&& old(self)@.pending_responses.contains_key(player_id)
                    &&& earlier == old(self)@.pending_responses[player_id]
                    &&& text@ == SUPERSEDED@
                },
                None => !old(self)@.pending_responses.contains_key(player_id),
            },
            res.prompt@ == (MessageView { to: player_id, text: ENTER_CHOICE@ }),
    {
        let ghost before = self@;
        let superseded = match self.pending_responses.insert(player_id, reply) {
            Some(earlier) => Some((earlier, SUPERSEDED.to_owned())),
            None => None,
        };
        proof {
            assert(self@ =~= before.await_reply(player_id, reply));
        }
        Asked {
            superseded,
            prompt: Message { to: player_id, text: ENTER_CHOICE.to_owned() },
        }
    }

    /// Takes note of how waiting for player `player_id` ended.
    pub fn resolve_player_input(&mut self, player_id: usize, wait: Wait) -> (res: Resolution)
        requires
            old(self)@.well_formed(),
        ensures
            final(self)@ == (if wait is TimedOut {
                old(self)@.forget_reply(player_id)
            } else {
                old(self)@
            }),
            final(self)@.well_formed(),
            match wait {
                Wait::Answered(input) => res.choice == Some(input) && res.notice is None,
                Wait::Abandoned => res.choice is None && res.notice is None,
                Wait::TimedOut => {
                    &&& res.choice is None
                    &&& res.notice matches Some(notice)
                    &&& notice@ == (MessageView { to: player_id, text: CHOICE_SKIPPED@ })
                },
            },
    {
        match wait {
            Wait::Answered(input) => Resolution { choice: Some(input), notice: None },
            Wait::Abandoned => Resolution { choice: None, notice: None },
            Wait::TimedOut => {
                let ghost before = self@;
                self.pending_responses.remove(&player_id);
                proof {
                    assert(self@ =~= before.forget_reply(player_id));
                }
                Resolution {
                    choice: None,
                    notice: Some(Message { to: player_id, text: CHOICE_SKIPPED.to_owned() }),
                }
            },
        }
    }

    /// Decides what becomes of a message of player `player_id`: it answers the
    /// question that waits for it, or goes to the operator.
    pub fn process_client_message(&mut self, player_id: usize, message: String) -> (res: Dispatch<
        R,
    >)
        requires
            old(self)@.well_formed(),
        ensures
            final(self)@ == old(self)@.forget_reply(player_id),
            final(self)@.well_formed(),
            match res {
                Dispatch::Deliver { reply, message: answer } => {
                    &&& old(self)@.pending_responses.contains_key(player_id)
                    &&& reply == old(self)@.pending_responses[player_id]
                    &&& answer == message
                },
                Dispatch::Unasked { log } => {
                    &&& !old(self)@.pending_responses.contains_key(player_id)
                    &&& log@ == unasked(player_id, message@)
                },
            },
    {
        let ghost before = self@;
        let pending = self.pending_responses.remove(&player_id);
        proof {
            assert(self@ =~= before.forget_reply(player_id));
        }
        match pending {
            Some(reply) => Dispatch::Deliver { reply, message },
            None => Dispatch::Unasked { log: unasked_line(player_id, message.as_str()) },
        }
    }

    /// The card of player `player_id`, if there is such a player.
    pub fn role_of(&self, player_id: usize) -> (res: Option<String>)
        ensures
            match res {
                Some(role) => {
                    &&& self@.players.contains_key(player_id)
                    &&& role@ == self@.players[player_id].role
                },
                None => !self@.players.contains_key(player_id),
            },
    {
        match self.players.get(&player_id) {
            Some(player) => Some(player.role.clone()),
            None => None,
        }
    }

    /// The cards in the centre.
    pub fn center_cards(&self) -> (res: &Vec<String>)
        ensures
            texts(res@) == self@.center_cards,
    {
        &self.center_cards
    }

    /// Gives a card to player `player_id`.
    fn deal(&mut self, player_id: usize, role: String)
        requires
            old(self)@.well_formed(),
            old(self)@.players.contains_key(player_id),
        ensures
            final(self)@ == old(self)@.with_role(player_id, role@),
            final(self)@.well_formed(),
            final(self).center_cards == old(self).center_cards,
    {
        let ghost before = self@;
        let removed = self.players.remove(&player_id);
        if let Some(player) = removed {
            self.players.insert(player_id, Player { name: player.name, role, num: player.num });
        }
        proof {
            assert(self@ =~= before.with_role(player_id, role@));
        }
    }

    /// Exchanges the cards of two players.
    pub fn swap_roles(&mut self, a: usize, b: usize)
        requires
            old(self)@.well_formed(),
            old(self)@.players.contains_key(a),
            old(self)@.players.contains_key(b),
        ensures
            final(self)@ == old(self)@.swap_roles(a, b),
            final(self)@.well_formed(),
    {
        if let (Some(role_a), Some(role_b)) = (self.role_of(a), self.role_of(b)) {
            self.deal(a, role_b);
            self.deal(b, role_a);
        }
    }

    /// Exchanges the card of player `player_id` and the one at `index` in the
    /// centre. Returns the player's name and the card that was put into the centre.
    pub fn swap_with_center(&mut self, player_id: usize, index: usize) -> (res: (String, String))
        requires
            old(self)@.well_formed(),
            old(self)@.players.contains_key(player_id),
            index < old(self)@.center_cards.len(),
        ensures
            final(self)@ == old(self)@.swap_with_center(player_id, index as int),
            final(self)@.well_formed(),
            res.0@ == old(self)@.players[player_id].name,
            res.1@ == old(self)@.players[player_id].role,
    {
        let ghost before = self@;
        let (name, old_role) = match self.players.get(&player_id) {
            Some(player) => (player.name.clone(), player.role.clone()),
            None => (String::new(), String::new()),
        };
        let card = self.center_cards[index].clone();
        self.deal(player_id, card);
        self.center_cards.set(index, old_role.clone());
        proof {
            assert(self@ =~= before.swap_with_center(player_id, index as int));
        }
        (name, old_role)
    }

    /// Tests whether it is night.
    pub fn is_night(&self) -> (res: bool)
        ensures
            res == self@.night_phase,
    {
        self.night_phase
    }

    /// The card of the robot, if it has one.
    pub fn robot(&self) -> (res: Option<String>)
        ensures
            match res {
                Some(role) => self@.robot == Some(role@),
                None => self@.robot is None,
            },
    {
        match &self.robot {
            Some(role) => Some(role.clone()),
            None => None,
        }
    }

    /// Lets the night begin or end.
    pub(crate) fn set_night(&mut self, night_phase: bool)
        requires
            old(self)@.well_formed(),
        ensures
            final(self)@ == old(self)@.with_night(night_phase),
            final(self)@.well_formed(),
    {
        self.night_phase = night_phase;
    }

    /// Lists the players who hold `role`, in no particular order.
    pub fn players_with_role(&self, role: &str) -> (res: Vec<Player>)
        requires
            self@.well_formed(),
        ensures
            is_roster(self@.players, role@, player_views(res@)),
    {
        let wanted = role.to_owned();
        let mut res: Vec<Player> = Vec::new();
        let ghost mut seen: Seq<usize> = Seq::empty();
        let keys = self.players.keys();
        let ghost all = vstd::std_specs::iter::IteratorSpec::remaining(&keys).unref();
        for id in ids: keys
            invariant
                ids.seq().unref() == all,
                self@.well_formed(),
                wanted@ == role@,
                seen =~= all.take(ids.index()),
                ids.seq().no_duplicates(),
                all.to_set() == self.players@.dom(),
                player_views(res@).no_duplicates(),
                forall|i: int|
                    0 <= i < res@.len() ==> {
                        &&& seen.contains((#[trigger] player_views(res@)[i]).num)
                        &&& self@.players.contains_key(player_views(res@)[i].num)
                        &&& self@.players[player_views(res@)[i].num] == player_views(res@)[i]
                        &&& player_views(res@)[i].role == role@
                    },
                forall|i: int|
                    0 <= i < seen.len() && self@.players[#[trigger] seen[i]].role == role@
                        ==> player_views(res@).contains(self@.players[seen[i]]),
        {
            let ghost old_views = player_views(res@);
            let ghost old_seen = seen;
            let ghost here = ids.index();
            proof {
                assert(all[here] == *id);
                assert(all.to_set().contains(*id));
                assert(self@.players.contains_key(*id));
                assert(!seen.contains(*id)) by {
                    if seen.contains(*id) {
                        let k = choose|k: int| 0 <= k < seen.len() && seen[k] == *id;
                        assert(all[k] == *id);
                        assert(ids.seq()[k] == ids.seq()[here]);
                    }
                }
                seen = seen.push(*id);
                assert forall|x: usize| old_seen.contains(x) implies #[trigger] seen.contains(x) by {
                    let k = choose|k: int| 0 <= k < old_seen.len() && old_seen[k] == x;
                    assert(seen[k] == x);
                }
                assert(seen[here] == *id);
            }
            if let Some(player) = self.players.get(id) {
                if player.role == wanted {
                    res.push(player.clone());
                    proof {
                        assert(player_views(res@) =~= old_views.push(player@));
                        assert(self@.players[*id] == player@);
                        assert(player_views(res@)[res@.len() - 1] == player@);
                    }
                }
            }
            proof {
                assert forall|i: int| 0 <= i < res@.len() implies {
                    &&& seen.contains((#[trigger] player_views(res@)[i]).num)
                    &&& self@.players.contains_key(player_views(res@)[i].num)
                    &&& self@.players[player_views(res@)[i].num] == player_views(res@)[i]
                    &&& player_views(res@)[i].role == role@
                } by {
                    if i < old_views.len() {
                        assert(player_views(res@)[i] == old_views[i]);
                    }
                }
                assert forall|i: int, j: int|
                    0 <= i < j < res@.len() implies player_views(res@)[i]
                        != player_views(res@)[j] by {
                    assert(player_views(res@)[i] == old_views[i]);
                    if j < old_views.len() {
                        assert(player_views(res@)[j] == old_views[j]);
                    }
                }
                assert forall|i: int|
                    0 <= i < seen.len() && self@.players[#[trigger] seen[i]].role
                        == role@ implies player_views(res@).contains(self@.players[seen[i]]) by {
                    if i < here {
                        assert(seen[i] == old_seen[i]);
                        let k = choose|k: int|
                            0 <= k < old_views.len() && old_views[k] == self@.players[seen[i]];
                        assert(player_views(res@)[k] == self@.players[seen[i]]);
                    }
                }
            }
        }
        proof {
            assert(seen =~= all);
            assert forall|id: usize| #[trigger]
                self@.players.contains_key(id) && self@.players[id].role
                    == role@ implies player_views(res@).contains(self@.players[id]) by {
                assert(seen.to_set().contains(id));
                let k = choose|k: int| 0 <= k < seen.len() && seen[k] == id;
                assert(self@.players[seen[k]].role == role@);
            }
        }
        res
    }
}

/// A message to one player.
#[derive(Debug)]
pub struct Message {
    pub to: usize,
    pub text: String,
}

/// What a message says, and to whom.
#[verifier::ext_equal]
pub struct MessageView {
    pub to: usize,
    pub text: Seq<char>,
}

impl View for Message {
    type V = MessageView;

    open spec fn view(&self) -> MessageView {
        MessageView { to: self.to, text: self.text@ }
    }
}

/// What is to be sent once a question has been put to a player.
#[derive(Debug)]
pub struct Asked<R> {
    /// Where an earlier question waited, and what is put there.
    pub superseded: Option<(R, String)>,
    /// The request to the player.
    pub prompt: Message,
}

/// How waiting for an answer ended.
#[derive(Debug)]
pub enum Wait {
    /// The player answered.
    Answered(String),
    /// Nobody can answer any more.
    Abandoned,
    /// The time was up.
    TimedOut,
}

/// What follows from the end of waiting.
#[derive(Debug)]
pub struct Resolution {
    /// The answer, if there is one.
    pub choice: Option<String>,
    /// The notice to the player, if there is one.
    pub notice: Option<Message>,
}

/// What becomes of a player's message.
#[derive(Debug)]
pub enum Dispatch<R> {
    /// It is the answer that is waited for at `reply`.
    Deliver { reply: R, message: String },
    /// Nothing had asked for it. `log` is the operator's line.
    Unasked { log: String },
}

} // verus!
