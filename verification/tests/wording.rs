use one_night::messages::{
    center_set_line, drunk_exchanged_line, exchanged_text, fellow_nightwatchers_text,
    fellow_werewolves_text, final_role_text, joined_line, lone_werewolf_text, robbed_text,
    role_of_text, two_cards_text, unasked_line, welcome_text, werewolves_are_text,
};

fn strings(items: &[&str]) -> Vec<String> {
    items.iter().map(|s| s.to_string()).collect()
}

#[test]
fn words_of_the_table() {
    assert_eq!(welcome_text(6, "失眠者"), "你的 ID: 6，你的身份是: 失眠者");
    assert_eq!(joined_line("anna", 12, "女巫"), "玩家 anna (ID: 12) 加入游戏，身份: 女巫");
    assert_eq!(
        center_set_line(&strings(&["村民", "狼人"])),
        "设置中心牌: [\"村民\", \"狼人\"]"
    );
    assert_eq!(unasked_line(3, " hello \n"), "玩家 3 发送了消息：hello");
}

#[test]
fn words_of_the_night() {
    let names = strings(&["a", "b"]);
    assert_eq!(fellow_werewolves_text(&names), "你的狼人同伴是 [\"a\", \"b\"]");
    assert_eq!(lone_werewolf_text("村民"), "你是独狼，你可以查看一张底牌：村民");
    assert_eq!(werewolves_are_text(&names), "狼人是： [\"a\", \"b\"]");
    assert_eq!(fellow_nightwatchers_text(&names), "你的守夜人同伴是 [\"a\", \"b\"]");
    assert_eq!(two_cards_text("村民", "狼人"), "底下两张牌是：村民 和 狼人");
    assert_eq!(role_of_text(4, "强盗"), "玩家 4 的身份是：强盗");
    assert_eq!(robbed_text(4, "女巫"), "你偷取了玩家 4 的身份：女巫，这现在是你的新身份。");
    assert_eq!(exchanged_text(1, 20), "你交换了玩家 1 和玩家 20 的身份。");
    assert_eq!(
        drunk_exchanged_line("anna", "酒鬼"),
        "酒鬼 anna 与中心牌交换身份，新身份为 酒鬼"
    );
    assert_eq!(final_role_text("狼人"), "你是失眠者，你的最终身份是：狼人");
}
