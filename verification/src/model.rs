//! The table as a mathematical value, and what each move does to it.

use vstd::prelude::*;

verus! {

/// A seated player: the name given on joining, the card held, the seat.
#[verifier::ext_equal]
pub struct PlayerView {
    pub name: Seq<char>,
    pub role: Seq<char>,
    pub num: usize,
}

/// The table. `C` is what carries messages to a player, `R` is where an answer
/// that somebody waits for is put.
#[verifier::ext_equal]
#[verifier::reject_recursive_types(C)]
#[verifier::reject_recursive_types(R)]
pub struct GameView<C, R> {
    pub players: Map<usize, PlayerView>,
    pub name_to_id: Map<Seq<char>, usize>,
    pub player_channels: Map<usize, C>,
    pub available_roles: Seq<Seq<char>>,
    pub night_phase: bool,
    pub center_cards: Seq<Seq<char>>,
    pub used_ids: Set<usize>,
    pub pending_responses: Map<usize, R>,
    pub available_ids: Seq<usize>,
    pub robot: Option<Seq<char>>,
}

/// The number of places that a full game is laid for.
pub const PLACES: usize = 11;

/// How many of the places hold a card in the centre instead of a player.
pub const CENTER_PLACES: usize = 4;

impl<C, R> GameView<C, R> {
    /// What always holds of a table: a player sits at the seat that is entered
    /// for them, each seat in use has its channel, the seats that are left are
    /// distinct and nobody sits there, and a name leads to a player of that name.
    pub open spec fn well_formed(self) -> bool {
        &&& self.players.dom().finite()
        &&& self.player_channels.dom() =~= self.players.dom()
        &&& self.used_ids =~= self.players.dom()
        &&& forall|id: usize| #[trigger]
            self.players.contains_key(id) ==> self.players[id].num == id
        &&& forall|name: Seq<char>| #[trigger]
            self.name_to_id.contains_key(name) ==> {
                &&& self.players.contains_key(self.name_to_id[name])
                &&& self.players[self.name_to_id[name]].name == name
            }
        &&& self.available_ids.no_duplicates()
        &&& forall|i: int|
            0 <= i < self.available_ids.len() ==> !self.players.contains_key(
                #[trigger] self.available_ids[i],
            )
    }

    /// A table before anybody sat down: the seats from 1 on, and all cards.
    pub open spec fn fresh(playernum: usize, roles: Seq<Seq<char>>) -> Self {
        GameView {
            players: Map::empty(),
            name_to_id: Map::empty(),
            player_channels: Map::empty(),
            available_roles: roles,
            night_phase: false,
            center_cards: Seq::empty(),
            used_ids: Set::empty(),
            pending_responses: Map::empty(),
            available_ids: Seq::new(playernum as nat, |i: int| (i + 1) as usize),
            robot: None,
        }
    }

    /// Whether a client can sit down: a seat and a card are left.
    pub open spec fn has_room(self) -> bool {
        self.available_ids.len() > 0 && self.available_roles.len() > 0
    }

    /// The player that a client becomes who sits down: at the last seat that is
    /// left, with the last card that is left.
    pub open spec fn newcomer(self, name: Seq<char>) -> PlayerView {
        PlayerView { name, role: self.available_roles.last(), num: self.available_ids.last() }
    }

    /// The table after a client asked to sit down. Without a seat nothing
    /// changes. With a seat but without a card the seat is lost.
    pub open spec fn join(self, name: Seq<char>, channel: C) -> Self {
        if self.available_ids.len() == 0 {
            self
        } else if self.available_roles.len() == 0 {
            GameView { available_ids: self.available_ids.drop_last(), ..self }
        } else {
            let player = self.newcomer(name);
            GameView {
                players: self.players.insert(player.num, player),
                name_to_id: self.name_to_id.insert(name, player.num),
                player_channels: self.player_channels.insert(player.num, channel),
                used_ids: self.used_ids.insert(player.num),
                available_ids: self.available_ids.drop_last(),
                available_roles: self.available_roles.drop_last(),
                ..self
            }
        }
    }

    /// The table after player `id` left. The seat is free again; the card is
    /// gone, and an answer that is waited for stays waited for.
    pub open spec fn leave(self, id: usize) -> Self {
        GameView {
            players: self.players.remove(id),
            name_to_id: Map::new(
                |name: Seq<char>| self.name_to_id.contains_key(name) && self.name_to_id[name] != id,
                |name: Seq<char>| self.name_to_id[name],
            ),
            player_channels: self.player_channels.remove(id),
            used_ids: self.used_ids.remove(id),
            available_ids: self.available_ids.push(id),
            ..self
        }
    }

    /// Whether as many players sit at the table as a full game has.
    pub open spec fn is_full_game(self) -> bool {
        self.players.len() == PLACES - CENTER_PLACES
    }

    /// The table with the cards that are left laid out in the centre as well.
    pub open spec fn set_center(self) -> Self {
        GameView { center_cards: self.available_roles, ..self }
    }

    /// The table with the last card that is left given to the robot.
    pub open spec fn set_robot(self) -> Self {
        GameView {
            robot: Some(self.available_roles.last()),
            available_roles: self.available_roles.drop_last(),
            ..self
        }
    }

    /// The table when the answer of player `id` is to be put into `reply`.
    pub open spec fn await_reply(self, id: usize, reply: R) -> Self {
        GameView { pending_responses: self.pending_responses.insert(id, reply), ..self }
    }

    /// The table when no answer of player `id` is waited for.
    pub open spec fn forget_reply(self, id: usize) -> Self {
        GameView { pending_responses: self.pending_responses.remove(id), ..self }
    }

    /// The table by night or by day.
    pub open spec fn with_night(self, night_phase: bool) -> Self {
        GameView { night_phase, ..self }
    }

    /// The table with `role` in the hands of player `id`.
    pub open spec fn with_role(self, id: usize, role: Seq<char>) -> Self {
        GameView {
            players: self.players.insert(id, PlayerView { role, ..self.players[id] }),
            ..self
        }
    }

    /// The table with the cards of two players exchanged.
    pub open spec fn swap_roles(self, a: usize, b: usize) -> Self {
        self.with_role(a, self.players[b].role).with_role(b, self.players[a].role)
    }

    /// The table with the card of a player and one in the centre exchanged.
    pub open spec fn swap_with_center(self, id: usize, index: int) -> Self {
        GameView {
            center_cards: self.center_cards.update(index, self.players[id].role),
            ..self.with_role(id, self.center_cards[index])
        }
    }
}

/// `holders` are the players with `role`, each once, in any order.
pub open spec fn is_roster(
    players: Map<usize, PlayerView>,
    role: Seq<char>,
    holders: Seq<PlayerView>,
) -> bool {
    &&& holders.no_duplicates()
    &&& forall|i: int|
        0 <= i < holders.len() ==> {
            &&& players.contains_key((#[trigger] holders[i]).num)
            &&& players[holders[i].num] == holders[i]
            &&& holders[i].role == role
        }
    &&& forall|id: usize| #[trigger]
        players.contains_key(id) && players[id].role == role ==> holders.contains(players[id])
}

} // verus!
