//! How what players and the operator are told is put together.

use crate::messages::{
    center_set, drunk_exchanged, exchanged, fellow_nightwatchers, fellow_werewolves, final_role,
    joined, lone_werewolf, robbed, role_of, two_cards, unasked, welcome, werewolves_are,
};
use crate::text::{decimal, name_list, quotations, trimmed};
use vstd::prelude::*;

verus! {

/// A welcome names the seat and the card; the operator sees the name as well.
pub proof fn law_wording_of_a_welcome(name: Seq<char>, id: usize, role: Seq<char>)
    ensures
        welcome(id, role) == "你的 ID: "@ + decimal(id as nat) + ("，你的身份是: "@ + role),
        joined(name, id, role) == "玩家 "@ + name + " (ID: "@ + (decimal(id as nat)
            + ") 加入游戏，身份: "@ + role),
{
    assert(welcome(id, role) =~= "你的 ID: "@ + decimal(id as nat) + ("，你的身份是: "@ + role));
    assert(joined(name, id, role) =~= "玩家 "@ + name + " (ID: "@ + (decimal(id as nat)
        + ") 加入游戏，身份: "@ + role));
}

/// The operator sees every card in the centre, and of a message that nothing had asked
/// for the seat and the text without the white space around it.
pub proof fn law_wording_for_the_operator(cards: Seq<Seq<char>>, id: usize, message: Seq<char>)
    ensures
        center_set(cards) == "设置中心牌: "@ + ("["@ + quotations(cards) + "]"@),
        unasked(id, message) == "玩家 "@ + decimal(id as nat) + (" 发送了消息："@ + trimmed(
            message,
        )),
{
    assert(unasked(id, message) =~= "玩家 "@ + decimal(id as nat) + (" 发送了消息："@ + trimmed(
        message,
    )));
}

/// Each list of companions names all of them.
pub proof fn law_wording_of_lists(names: Seq<Seq<char>>)
    ensures
        fellow_werewolves(names) == "你的狼人同伴是 "@ + ("["@ + quotations(names) + "]"@),
        werewolves_are(names) == "狼人是： "@ + ("["@ + quotations(names) + "]"@),
        fellow_nightwatchers(names) == "你的守夜人同伴是 "@ + ("["@ + quotations(names) + "]"@),
        name_list(names) == "["@ + quotations(names) + "]"@,
{
}

/// What is told of cards names the cards, in the order in which they were seen.
pub proof fn law_wording_of_cards(id: usize, first: Seq<char>, second: Seq<char>)
    ensures
        lone_werewolf(first) == "你是独狼，你可以查看一张底牌："@ + first,
        two_cards(first, second) == "底下两张牌是："@ + first + (" 和 "@ + second),
        role_of(id, first) == "玩家 "@ + decimal(id as nat) + (" 的身份是："@ + first),
        final_role(first) == "你是失眠者，你的最终身份是："@ + first,
{
    assert(two_cards(first, second) =~= "底下两张牌是："@ + first + (" 和 "@ + second));
    assert(role_of(id, first) =~= "玩家 "@ + decimal(id as nat) + (" 的身份是："@ + first));
}

/// What is told of an exchange names the players and cards in it.
pub proof fn law_wording_of_exchanges(id1: usize, id2: usize, name: Seq<char>, role: Seq<char>)
    ensures
        robbed(id1, role) == "你偷取了玩家 "@ + decimal(id1 as nat) + (" 的身份："@ + role
            + "，这现在是你的新身份。"@),
        exchanged(id1, id2) == "你交换了玩家 "@ + decimal(id1 as nat) + (" 和玩家 "@ + decimal(
            id2 as nat,
        ) + " 的身份。"@),
        drunk_exchanged(name, role) == "酒鬼 "@ + name + (" 与中心牌交换身份，新身份为 "@ + role),
{
    assert(robbed(id1, role) =~= "你偷取了玩家 "@ + decimal(id1 as nat) + (" 的身份："@ + role
        + "，这现在是你的新身份。"@));
    assert(exchanged(id1, id2) =~= "你交换了玩家 "@ + decimal(id1 as nat) + (" 和玩家 "@ + decimal(
        id2 as nat,
    ) + " 的身份。"@));
    assert(drunk_exchanged(name, role) =~= "酒鬼 "@ + name + (" 与中心牌交换身份，新身份为 "@
        + role));
}

} // verus!
