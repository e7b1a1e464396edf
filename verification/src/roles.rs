//! The cards.

use crate::text::texts;
use vstd::prelude::*;

verus! {

pub const VILLAGER: &'static str = "村民";

pub const WEREWOLF: &'static str = "狼人";

pub const MINION: &'static str = "爪牙";

pub const NIGHTWATCHER: &'static str = "守夜人";

pub const SEER: &'static str = "预言家";

pub const ROBBER: &'static str = "强盗";

pub const WITCH: &'static str = "女巫";

pub const TROUBLEMAKER: &'static str = "捣蛋鬼";

pub const DRUNK: &'static str = "酒鬼";

pub const INSOMNIAC: &'static str = "失眠者";

/// The number of seats at the server's table.
pub const SEATS: usize = 6;

/// The deck: one card of each role. Cards are dealt from its end.
pub open spec fn deck() -> Seq<Seq<char>> {
    seq![
        VILLAGER@,
        WEREWOLF@,
        MINION@,
        NIGHTWATCHER@,
        SEER@,
        ROBBER@,
        WITCH@,
        TROUBLEMAKER@,
        DRUNK@,
        INSOMNIAC@,
    ]
}

/// Makes the deck.
pub fn new_deck() -> (cards: Vec<String>)
    ensures
        texts(cards@) == deck(),
{
    let mut cards: Vec<String> = Vec::new();
    cards.push(VILLAGER.to_owned());
    cards.push(WEREWOLF.to_owned());
    cards.push(MINION.to_owned());
    cards.push(NIGHTWATCHER.to_owned());
    cards.push(SEER.to_owned());
    cards.push(ROBBER.to_owned());
    cards.push(WITCH.to_owned());
    cards.push(TROUBLEMAKER.to_owned());
    cards.push(DRUNK.to_owned());
    cards.push(INSOMNIAC.to_owned());
    proof {
        assert(texts(cards@) =~= deck());
    }
    cards
}

} // verus!
