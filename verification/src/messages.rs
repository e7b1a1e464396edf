//! The wording of what players and the operator are told.

use crate::text::{decimal, decimal_text, list_names, name_list, texts, trim, trimmed};
use vstd::prelude::*;
use vstd::string::*;

verus! {

/// The answer to a client for whom there is no room.
pub const TABLE_FULL: &'static str = "游戏已满，无法加入";

/// What an earlier question is answered when a later one takes its place.
pub const SUPERSEDED: &'static str = "操作已超时";

/// The request for a choice.
pub const ENTER_CHOICE: &'static str = "请输入你的选择：";

/// The notice that no choice came in time.
pub const CHOICE_SKIPPED: &'static str = "操作超时，已跳过";

/// The announcement that the night begins.
pub const NIGHT_FALLS: &'static str = "夜晚开始，所有特殊角色行动。";

/// The announcement that the night is over.
pub const DAY_BREAKS: &'static str = "夜晚结束，天亮了！";

/// What the minion is told when no player is a werewolf.
pub const NO_WEREWOLVES: &'static str = "本局没有狼，所以你现在是狼人。";

/// What the only night watcher is told.
pub const ONLY_NIGHTWATCHER: &'static str = "只有你一个守夜人噢。";

/// The question to the seer.
pub const SEER_QUESTION: &'static str = "选择一个玩家，或者底下两张牌，查看身份。输入玩家编号查看玩家身份，输入 0 查看底下两张牌。";

/// The answer to the seer who named nobody at the table.
pub const SEER_NO_SUCH_PLAYER: &'static str = "找不到该玩家，请重新选择。";

/// The answer to a choice that is no number.
pub const NOT_A_NUMBER: &'static str = "输入无效，请输入数字。";

/// The question to the robber.
pub const ROBBER_QUESTION: &'static str = "你是强盗，你可以选择一个玩家与其交换身份。请输入你想交换的玩家编号：";

/// The answer to the robber who named nobody at the table.
pub const ROBBER_NO_SUCH_PLAYER: &'static str = "找不到该玩家，未进行交换。";

/// The question to the troublemaker.
pub const TROUBLEMAKER_QUESTION: &'static str = "你是捣蛋鬼，可以选择两名其他玩家交换他们的身份。请输入两个玩家编号（用空格分隔）：";

/// The answer to the troublemaker who named somebody not at the table.
pub const TROUBLEMAKER_NO_SUCH_PLAYERS: &'static str = "找不到指定的一个或两个玩家，未进行交换。";

/// The answer to the troublemaker whose two words are not two numbers.
pub const NOT_TWO_NUMBERS: &'static str = "输入无效，请输入两个数字，用空格分隔。";

/// The answer to the troublemaker who did not enter two words.
pub const NOT_TWO_WORDS: &'static str = "请输入恰好两个玩家编号，用空格分隔。";

/// What the drunk is told.
pub const DRUNK_NOTICE: &'static str = "你是酒鬼，你会与一张中心牌交换身份，但你不知道是哪一张。";

/// What a new player is told: the seat and the card.
pub open spec fn welcome(id: usize, role: Seq<char>) -> Seq<char> {
    "你的 ID: "@ + decimal(id as nat) + "，你的身份是: "@ + role
}

/// Writes [`welcome`].
pub fn welcome_text(id: usize, role: &str) -> (text: String)
    ensures
        text@ == welcome(id, role@),
{
    let mut text = "你的 ID: ".to_owned();
    text.append(decimal_text(id).as_str());
    text.append("，你的身份是: ");
    text.append(role);
    text
}

/// The operator's line on a new player.
pub open spec fn joined(name: Seq<char>, id: usize, role: Seq<char>) -> Seq<char> {
    "玩家 "@ + name + " (ID: "@ + decimal(id as nat) + ") 加入游戏，身份: "@ + role
}

/// Writes [`joined`].
pub fn joined_line(name: &str, id: usize, role: &str) -> (text: String)
    ensures
        text@ == joined(name@, id, role@),
{
    let mut text = "玩家 ".to_owned();
    text.append(name);
    text.append(" (ID: ");
    text.append(decimal_text(id).as_str());
    text.append(") 加入游戏，身份: ");
    text.append(role);
    text
}

/// The operator's line on the cards in the centre.
pub open spec fn center_set(cards: Seq<Seq<char>>) -> Seq<char> {
    "设置中心牌: "@ + name_list(cards)
}

/// Writes [`center_set`].
pub fn center_set_line(cards: &Vec<String>) -> (text: String)
    ensures
        text@ == center_set(texts(cards@)),
{
    let mut text = "设置中心牌: ".to_owned();
    text.append(list_names(cards).as_str());
    text
}

/// The operator's line on a message that nothing had asked for.
pub open spec fn unasked(id: usize, message: Seq<char>) -> Seq<char> {
    "玩家 "@ + decimal(id as nat) + " 发送了消息："@ + trimmed(message)
}

/// Writes [`unasked`].
pub fn unasked_line(id: usize, message: &str) -> (text: String)
    ensures
        text@ == unasked(id, message@),
{
    let mut text = "玩家 ".to_owned();
    text.append(decimal_text(id).as_str());
    text.append(" 发送了消息：");
    text.append(trim(message));
    text
}

/// What each of several werewolves is told.
pub open spec fn fellow_werewolves(names: Seq<Seq<char>>) -> Seq<char> {
    "你的狼人同伴是 "@ + name_list(names)
}

/// Writes [`fellow_werewolves`].
pub fn fellow_werewolves_text(names: &Vec<String>) -> (text: String)
    ensures
        text@ == fellow_werewolves(texts(names@)),
{
    let mut text = "你的狼人同伴是 ".to_owned();
    text.append(list_names(names).as_str());
    text
}

/// What the only werewolf is told.
pub open spec fn lone_werewolf(card: Seq<char>) -> Seq<char> {
    "你是独狼，你可以查看一张底牌："@ + card
}

/// Writes [`lone_werewolf`].
pub fn lone_werewolf_text(card: &str) -> (text: String)
    ensures
        text@ == lone_werewolf(card@),
{
    let mut text = "你是独狼，你可以查看一张底牌：".to_owned();
    text.append(card);
    text
}

/// What the minion is told of the werewolves.
pub open spec fn werewolves_are(names: Seq<Seq<char>>) -> Seq<char> {
    "狼人是： "@ + name_list(names)
}

/// Writes [`werewolves_are`].
pub fn werewolves_are_text(names: &Vec<String>) -> (text: String)
    ensures
        text@ == werewolves_are(texts(names@)),
{
    let mut text = "狼人是： ".to_owned();
    text.append(list_names(names).as_str());
    text
}

/// What each of several night watchers is told.
pub open spec fn fellow_nightwatchers(names: Seq<Seq<char>>) -> Seq<char> {
    "你的守夜人同伴是 "@ + name_list(names)
}

/// Writes [`fellow_nightwatchers`].
pub fn fellow_nightwatchers_text(names: &Vec<String>) -> (text: String)
    ensures
        text@ == fellow_nightwatchers(texts(names@)),
{
    let mut text = "你的守夜人同伴是 ".to_owned();
    text.append(list_names(names).as_str());
    text
}

/// What the seer is told of two cards in the centre.
pub open spec fn two_cards(first: Seq<char>, second: Seq<char>) -> Seq<char> {
    "底下两张牌是："@ + first + " 和 "@ + second
}

/// Writes [`two_cards`].
pub fn two_cards_text(first: &str, second: &str) -> (text: String)
    ensures
        text@ == two_cards(first@, second@),
{
    let mut text = "底下两张牌是：".to_owned();
    text.append(first);
    text.append(" 和 ");
    text.append(second);
    text
}

/// What the seer is told of a player.
pub open spec fn role_of(id: usize, role: Seq<char>) -> Seq<char> {
    "玩家 "@ + decimal(id as nat) + " 的身份是："@ + role
}

/// Writes [`role_of`].
pub fn role_of_text(id: usize, role: &str) -> (text: String)
    ensures
        text@ == role_of(id, role@),
{
    let mut text = "玩家 ".to_owned();
    text.append(decimal_text(id).as_str());
    text.append(" 的身份是：");
    text.append(role);
    text
}

/// What the robber is told of the loot.
pub open spec fn robbed(id: usize, role: Seq<char>) -> Seq<char> {
    "你偷取了玩家 "@ + decimal(id as nat) + " 的身份："@ + role + "，这现在是你的新身份。"@
}

/// Writes [`robbed`].
pub fn robbed_text(id: usize, role: &str) -> (text: String)
    ensures
        text@ == robbed(id, role@),
{
    let mut text = "你偷取了玩家 ".to_owned();
    text.append(decimal_text(id).as_str());
    text.append(" 的身份：");
    text.append(role);
    text.append("，这现在是你的新身份。");
    text
}

/// What the troublemaker is told of the exchange.
pub open spec fn exchanged(id1: usize, id2: usize) -> Seq<char> {
    "你交换了玩家 "@ + decimal(id1 as nat) + " 和玩家 "@ + decimal(id2 as nat) + " 的身份。"@
}

/// Writes [`exchanged`].
pub fn exchanged_text(id1: usize, id2: usize) -> (text: String)
    ensures
        text@ == exchanged(id1, id2),
{
    let mut text = "你交换了玩家 ".to_owned();
    text.append(decimal_text(id1).as_str());
    text.append(" 和玩家 ");
    text.append(decimal_text(id2).as_str());
    text.append(" 的身份。");
    text
}

/// The operator's line on the drunk's exchange. It names the card that the drunk
/// gave away.
pub open spec fn drunk_exchanged(name: Seq<char>, old_role: Seq<char>) -> Seq<char> {
    "酒鬼 "@ + name + " 与中心牌交换身份，新身份为 "@ + old_role
}

/// Writes [`drunk_exchanged`].
pub fn drunk_exchanged_line(name: &str, old_role: &str) -> (text: String)
    ensures
        text@ == drunk_exchanged(name@, old_role@),
{
    let mut text = "酒鬼 ".to_owned();
    text.append(name);
    text.append(" 与中心牌交换身份，新身份为 ");
    text.append(old_role);
    text
}

/// What the insomniac is told.
pub open spec fn final_role(role: Seq<char>) -> Seq<char> {
    "你是失眠者，你的最终身份是："@ + role
}

/// Writes [`final_role`].
pub fn final_role_text(role: &str) -> (text: String)
    ensures
        text@ == final_role(role@),
{
    let mut text = "你是失眠者，你的最终身份是：".to_owned();
    text.append(role);
    text
}

} // verus!
