use one_night::game::{Admission, GameState, Player};
use one_night::night::{
    night_schedule, show_card, wake_drunks, wake_insomniacs, wake_minions, wake_nightwatchers,
    wake_werewolves, Asker, Next, Outcome, Question, Step, Turn, ANSWER_SECONDS,
};
use std::collections::HashSet;

type Table = GameState<u32, u32>;

/// A table where seat `i + 1` holds `cards[i]`, with `center` laid out.
fn table(center: &[&str], cards: &[&str]) -> Table {
    let roles: Vec<String> = center.iter().chain(cards).map(|s| s.to_string()).collect();
    let mut game: Table = GameState::new(cards.len(), roles);
    for i in (0..cards.len()).rev() {
        match game.join(format!("p{}", i + 1), i as u32) {
            Admission::Seated { id, .. } => assert_eq!(id, i + 1),
            Admission::Refused { reply } => panic!("{}", reply),
        }
    }
    game.setup_center_cards();
    game
}

fn roles(game: &Table, seats: usize) -> Vec<String> {
    (1..=seats).map(|id| game.role_of(id).unwrap_or_default()).collect()
}

fn said(out: &Outcome) -> Vec<(usize, &str)> {
    let mut messages: Vec<(usize, &str)> =
        out.messages.iter().map(|m| (m.to, m.text.as_str())).collect();
    messages.sort();
    messages
}

fn is_done(out: &Outcome) -> bool {
    matches!(out.next, Next::Done)
}

fn answer(player: usize, asker: Asker, choice: &str) -> Step {
    Question { player, asker }.answered(Some(choice.to_string()))
}

fn player(name: &str, role: &str, num: usize) -> Player {
    Player { name: name.to_string(), role: role.to_string(), num }
}

#[test]
fn the_schedule() {
    assert_eq!(
        night_schedule(),
        vec![
            vec![Turn::Werewolves, Turn::Minion],
            vec![Turn::Nightwatcher],
            vec![Turn::Seer],
            vec![Turn::Robber],
            vec![Turn::Troublemaker],
            vec![Turn::Drunk, Turn::Insomniac],
        ]
    );
}

#[test]
fn time_to_answer() {
    assert_eq!(ANSWER_SECONDS, 30);
}

#[test]
fn night_falls_and_day_breaks() {
    let mut game = table(&[], &["村民"]);
    assert!(!game.is_night());
    assert_eq!(game.start_night_phase(), "夜晚开始，所有特殊角色行动。");
    assert!(game.is_night());
    assert_eq!(game.end_night_phase(), "夜晚结束，天亮了！");
    assert!(!game.is_night());
}

#[test]
fn several_werewolves_learn_their_names() {
    let mut game = table(&[], &["狼人", "村民", "狼人"]);
    let out = game.advance(Step::Begin(Turn::Werewolves));
    assert!(is_done(&out));
    let heard = said(&out);
    assert_eq!(heard.iter().map(|m| m.0).collect::<Vec<_>>(), vec![1, 3]);
    assert_eq!(heard[0].1, heard[1].1);
    assert!(
        heard[0].1 == "你的狼人同伴是 [\"p1\", \"p3\"]" || heard[0].1 == "你的狼人同伴是 [\"p3\", \"p1\"]"
    );
}

#[test]
fn the_lists_decide_what_is_said() {
    let pack = vec![player("b", "狼人", 5), player("a", "狼人", 2)];
    let out = wake_werewolves(&pack);
    assert_eq!(
        said(&out),
        vec![(2, "你的狼人同伴是 [\"b\", \"a\"]"), (5, "你的狼人同伴是 [\"b\", \"a\"]")]
    );
    assert_eq!(out.messages[0].to, 5);
    let minions = vec![player("m", "爪牙", 1)];
    assert_eq!(said(&wake_minions(&minions, &pack)), vec![(1, "狼人是： [\"b\", \"a\"]")]);
    assert_eq!(
        said(&wake_minions(&minions, &vec![])),
        vec![(1, "本局没有狼，所以你现在是狼人。")]
    );
    let out = wake_drunks(&pack);
    assert_eq!(said(&out), vec![(5, "你是酒鬼，你会与一张中心牌交换身份，但你不知道是哪一张。")]);
    assert!(matches!(out.next, Next::Continue(Step::DrunkSwap { drunk: 5 })));
    let out = wake_insomniacs(&pack);
    assert!(out.messages.is_empty());
    match out.next {
        Next::Continue(Step::InsomniacReport { remaining }) => assert_eq!(remaining, vec![5, 2]),
        other => panic!("{:?}", other),
    }
    assert_eq!(said(&show_card(3, "女巫")), vec![(3, "你是独狼，你可以查看一张底牌：女巫")]);
    assert_eq!(
        said(&wake_nightwatchers(&pack)),
        vec![(2, "你的守夜人同伴是 [\"b\", \"a\"]"), (5, "你的守夜人同伴是 [\"b\", \"a\"]")]
    );
}

#[test]
fn the_lone_werewolf_sees_a_center_card() {
    let mut game = table(&["村民", "女巫", "强盗"], &["爪牙", "狼人"]);
    let mut seen: HashSet<String> = HashSet::new();
    for _ in 0..200 {
        let out = game.advance(Step::Begin(Turn::Werewolves));
        assert!(out.messages.is_empty());
        let step = match out.next {
            Next::Continue(step) => step,
            other => panic!("{:?}", other),
        };
        assert!(matches!(step, Step::LoneWerewolf { werewolf: 2 }));
        assert!(game.can_advance(&step));
        let out = game.advance(step);
        assert!(is_done(&out));
        assert_eq!(out.messages.len(), 1);
        assert_eq!(out.messages[0].to, 2);
        seen.insert(out.messages[0].text.clone());
    }
    let expected: HashSet<String> = ["村民", "女巫", "强盗"]
        .iter()
        .map(|card| format!("你是独狼，你可以查看一张底牌：{}", card))
        .collect();
    assert_eq!(seen, expected);
    let bare = table(&[], &["狼人"]);
    assert!(!bare.can_advance(&Step::LoneWerewolf { werewolf: 1 }));
}

#[test]
fn without_werewolves_nothing_happens() {
    let mut game = table(&[], &["村民"]);
    let out = game.advance(Step::Begin(Turn::Werewolves));
    assert!(is_done(&out) && out.messages.is_empty() && out.log.is_none());
}

#[test]
fn minions_learn_of_the_werewolves() {
    let mut game = table(&[], &["狼人", "爪牙"]);
    let out = game.advance(Step::Begin(Turn::Minion));
    assert_eq!(said(&out), vec![(2, "狼人是： [\"p1\"]")]);
    let mut game = table(&["狼人"], &["村民", "爪牙"]);
    let out = game.advance(Step::Begin(Turn::Minion));
    assert_eq!(said(&out), vec![(2, "本局没有狼，所以你现在是狼人。")]);
    let mut game = table(&[], &["狼人"]);
    assert!(game.advance(Step::Begin(Turn::Minion)).messages.is_empty());
}

#[test]
fn nightwatchers_learn_of_each_other() {
    let mut game = table(&[], &["守夜人", "村民"]);
    let out = game.advance(Step::Begin(Turn::Nightwatcher));
    assert_eq!(said(&out), vec![(1, "只有你一个守夜人噢。")]);
    let mut game = table(&[], &["守夜人", "守夜人"]);
    let out = game.advance(Step::Begin(Turn::Nightwatcher));
    assert_eq!(out.messages.len(), 2);
    let mut game = table(&[], &["村民"]);
    assert!(game.advance(Step::Begin(Turn::Nightwatcher)).messages.is_empty());
}

#[test]
fn the_seer_is_asked() {
    let mut game = table(&[], &["村民", "预言家"]);
    let out = game.advance(Step::Begin(Turn::Seer));
    assert_eq!(
        said(&out),
        vec![(
            2,
            "选择一个玩家，或者底下两张牌，查看身份。输入玩家编号查看玩家身份，输入 0 查看底下两张牌。"
        )]
    );
    assert!(matches!(out.next, Next::Ask(Question { player: 2, asker: Asker::Seer })));
}

#[test]
fn the_seer_sees_a_player() {
    let mut game = table(&[], &["狼人", "预言家"]);
    let out = game.advance(answer(2, Asker::Seer, " 1\n"));
    assert_eq!(said(&out), vec![(2, "玩家 1 的身份是：狼人")]);
    let out = game.advance(answer(2, Asker::Seer, "3"));
    assert_eq!(said(&out), vec![(2, "找不到该玩家，请重新选择。")]);
    let out = game.advance(answer(2, Asker::Seer, "one"));
    assert_eq!(said(&out), vec![(2, "输入无效，请输入数字。")]);
    let out = game.advance(Question { player: 2, asker: Asker::Seer }.answered(None));
    assert!(out.messages.is_empty() && is_done(&out));
}

#[test]
fn the_seer_sees_two_center_cards() {
    let mut game = table(&["a", "b", "c"], &["预言家"]);
    let mut seen: HashSet<String> = HashSet::new();
    for _ in 0..400 {
        let step = answer(1, Asker::Seer, "0\n");
        assert!(game.can_advance(&step));
        let out = game.advance(step);
        assert_eq!(out.messages.len(), 1);
        seen.insert(out.messages[0].text.clone());
    }
    let mut expected: HashSet<String> = HashSet::new();
    for first in ["a", "b", "c"] {
        for second in ["a", "b", "c"] {
            if first != second {
                expected.insert(format!("底下两张牌是：{} 和 {}", first, second));
            }
        }
    }
    assert_eq!(seen, expected);
    assert_eq!(
        said(&game.show_two_cards(1, &vec![2, 0, 1])),
        vec![(1, "底下两张牌是：c 和 a")]
    );
    let short = table(&["a"], &["预言家"]);
    assert!(!short.can_advance(&answer(1, Asker::Seer, "0")));
    assert!(short.can_advance(&answer(1, Asker::Seer, "1")));
    assert!(short.can_advance(&answer(1, Asker::Robber, "0")));
}

#[test]
fn the_robber_robs() {
    let mut game = table(&[], &["强盗", "村民", "狼人"]);
    let out = game.advance(Step::Begin(Turn::Robber));
    assert_eq!(
        said(&out),
        vec![(1, "你是强盗，你可以选择一个玩家与其交换身份。请输入你想交换的玩家编号：")]
    );
    assert!(matches!(out.next, Next::Ask(Question { player: 1, asker: Asker::Robber })));
    let out = game.advance(answer(1, Asker::Robber, "3\n"));
    assert_eq!(said(&out), vec![(1, "你偷取了玩家 3 的身份：狼人，这现在是你的新身份。")]);
    assert!(is_done(&out) && !out.table_held);
    assert_eq!(roles(&game, 3), vec!["狼人", "村民", "强盗"]);
}

#[test]
fn the_robber_may_fail() {
    let mut game = table(&[], &["强盗", "村民"]);
    let out = game.advance(answer(1, Asker::Robber, "9"));
    assert_eq!(said(&out), vec![(1, "找不到该玩家，未进行交换。")]);
    assert!(out.table_held);
    let out = game.advance(answer(1, Asker::Robber, ""));
    assert_eq!(said(&out), vec![(1, "输入无效，请输入数字。")]);
    assert!(!out.table_held);
    let out = game.advance(answer(1, Asker::Robber, "1"));
    assert_eq!(said(&out), vec![(1, "你偷取了玩家 1 的身份：强盗，这现在是你的新身份。")]);
    let out = game.advance(Question { player: 1, asker: Asker::Robber }.answered(None));
    assert!(out.messages.is_empty());
    assert_eq!(roles(&game, 2), vec!["强盗", "村民"]);
    game.leave(1);
    let out = game.advance(answer(1, Asker::Robber, "2"));
    assert_eq!(said(&out), vec![(1, "找不到该玩家，未进行交换。")]);
    assert!(out.table_held);
    assert_eq!(game.role_of(2), Some("村民".to_string()));
}

#[test]
fn the_troublemaker_exchanges_two_cards() {
    let mut game = table(&[], &["女巫", "捣蛋鬼", "狼人"]);
    let out = game.advance(Step::Begin(Turn::Troublemaker));
    assert_eq!(
        said(&out),
        vec![(
            2,
            "你是捣蛋鬼，可以选择两名其他玩家交换他们的身份。请输入两个玩家编号（用空格分隔）："
        )]
    );
    assert!(matches!(out.next, Next::Ask(Question { player: 2, asker: Asker::Troublemaker })));
    let out = game.advance(answer(2, Asker::Troublemaker, " 1  3\n"));
    assert_eq!(said(&out), vec![(2, "你交换了玩家 1 和玩家 3 的身份。")]);
    assert_eq!(roles(&game, 3), vec!["狼人", "捣蛋鬼", "女巫"]);
    // Once more undoes it, whoever is named first.
    game.advance(answer(2, Asker::Troublemaker, "3 1"));
    assert_eq!(roles(&game, 3), vec!["女巫", "捣蛋鬼", "狼人"]);
    let out = game.advance(answer(2, Asker::Troublemaker, "3 3"));
    assert_eq!(said(&out), vec![(2, "你交换了玩家 3 和玩家 3 的身份。")]);
    assert_eq!(roles(&game, 3), vec!["女巫", "捣蛋鬼", "狼人"]);
}

#[test]
fn the_troublemaker_may_fail() {
    let mut game = table(&[], &["女巫", "捣蛋鬼"]);
    let cases = [
        ("1 7", "找不到指定的一个或两个玩家，未进行交换。"),
        ("7 1", "找不到指定的一个或两个玩家，未进行交换。"),
        ("1 x", "输入无效，请输入两个数字，用空格分隔。"),
        ("x 1", "输入无效，请输入两个数字，用空格分隔。"),
        ("1", "请输入恰好两个玩家编号，用空格分隔。"),
        ("", "请输入恰好两个玩家编号，用空格分隔。"),
        ("1 2 3", "请输入恰好两个玩家编号，用空格分隔。"),
        ("1,2", "请输入恰好两个玩家编号，用空格分隔。"),
    ];
    for (choice, text) in cases {
        let out = game.advance(answer(2, Asker::Troublemaker, choice));
        assert_eq!(said(&out), vec![(2, text)]);
        assert!(is_done(&out) && !out.table_held);
    }
    let out = game.advance(Question { player: 2, asker: Asker::Troublemaker }.answered(None));
    assert!(out.messages.is_empty());
    assert_eq!(roles(&game, 2), vec!["女巫", "捣蛋鬼"]);
}

#[test]
fn the_drunk_exchanges_with_the_center() {
    let mut centers: HashSet<Vec<String>> = HashSet::new();
    for _ in 0..200 {
        let mut game = table(&["a", "b", "c"], &["酒鬼", "村民"]);
        let out = game.advance(Step::Begin(Turn::Drunk));
        assert_eq!(
            said(&out),
            vec![(1, "你是酒鬼，你会与一张中心牌交换身份，但你不知道是哪一张。")]
        );
        let step = match out.next {
            Next::Continue(step) => step,
            other => panic!("{:?}", other),
        };
        let out = game.advance(step);
        assert!(is_done(&out) && out.messages.is_empty());
        assert_eq!(
            out.log,
            Some("酒鬼 p1 与中心牌交换身份，新身份为 酒鬼".to_string())
        );
        let mut all = game.center_cards().clone();
        all.extend(roles(&game, 2));
        all.sort();
        assert_eq!(all, vec!["a", "b", "c", "村民", "酒鬼"]);
        assert_eq!(game.role_of(2), Some("村民".to_string()));
        centers.insert(game.center_cards().clone());
    }
    assert_eq!(centers.len(), 3);
}

#[test]
fn the_drunk_exchanges_with_a_given_card() {
    let mut game = table(&["a", "b", "c"], &["酒鬼"]);
    game.exchange_with_center(1, 1);
    assert_eq!(game.role_of(1), Some("b".to_string()));
    assert_eq!(game.center_cards(), &vec!["a".to_string(), "酒鬼".to_string(), "c".to_string()]);
    game.exchange_with_center(1, 1);
    assert_eq!(game.role_of(1), Some("酒鬼".to_string()));
    assert_eq!(game.center_cards(), &vec!["a".to_string(), "b".to_string(), "c".to_string()]);
}

#[test]
fn the_drunk_may_have_nothing_to_exchange() {
    let mut game = table(&[], &["酒鬼"]);
    let out = game.advance(Step::DrunkSwap { drunk: 1 });
    assert!(is_done(&out) && out.log.is_none());
    assert_eq!(game.role_of(1), Some("酒鬼".to_string()));
    let mut game = table(&["a"], &["酒鬼"]);
    game.leave(1);
    let out = game.advance(Step::DrunkSwap { drunk: 1 });
    assert!(is_done(&out) && out.log.is_none());
    assert_eq!(game.center_cards(), &vec!["a".to_string()]);
}

#[test]
fn insomniacs_see_their_cards() {
    let mut game = table(&[], &["失眠者", "狼人", "失眠者"]);
    let mut step = Step::Begin(Turn::Insomniac);
    let mut heard: Vec<(usize, String)> = Vec::new();
    let mut steps = 0;
    let mut exchanged = false;
    loop {
        let out = game.advance(step);
        steps += 1;
        heard.extend(out.messages.into_iter().map(|m| (m.to, m.text)));
        match out.next {
            Next::Continue(following) => step = following,
            _ => break,
        }
        if !exchanged {
            game.swap_roles(1, 2);
            exchanged = true;
        }
    }
    heard.sort();
    assert_eq!(
        heard,
        vec![
            (1, "你是失眠者，你的最终身份是：狼人".to_string()),
            (3, "你是失眠者，你的最终身份是：失眠者".to_string()),
        ]
    );
    assert_eq!(steps, 3);
}

#[test]
fn insomniacs_report_in_order() {
    let mut game = table(&[], &["失眠者", "狼人"]);
    let out = game.advance(Step::InsomniacReport { remaining: vec![2, 1] });
    assert_eq!(said(&out), vec![(2, "你是失眠者，你的最终身份是：狼人")]);
    match out.next {
        Next::Continue(Step::InsomniacReport { remaining }) => assert_eq!(remaining, vec![1]),
        other => panic!("{:?}", other),
    }
    let out = game.advance(Step::InsomniacReport { remaining: vec![] });
    assert!(is_done(&out) && out.messages.is_empty());
}

#[test]
fn an_insomniac_who_left_has_no_card() {
    let mut game = table(&[], &["失眠者"]);
    game.leave(1);
    let out = game.advance(Step::InsomniacReport { remaining: vec![1] });
    assert_eq!(said(&out), vec![(1, "你是失眠者，你的最终身份是：")]);
    assert!(is_done(&out));
}

#[test]
fn a_full_game_begins() {
    let mut game = table(&["a", "b"], &["1", "2", "3", "4", "5", "6"]);
    assert_eq!(game.begin_game(), None);
    assert!(!game.is_night());
    let roles = ["x", "y", "1", "2", "3", "4", "5", "6", "7"];
    let mut game: Table = GameState::new(7, roles.iter().map(|s| s.to_string()).collect());
    for i in 0..7 {
        assert_eq!(game.begin_game(), None);
        game.join(format!("p{}", i), i);
    }
    let (log, announcement) = game.begin_game().unwrap();
    assert_eq!(log, "设置中心牌: [\"x\", \"y\"]");
    assert_eq!(announcement, "夜晚开始，所有特殊角色行动。");
    assert!(game.is_night());
    assert_eq!(game.center_cards(), &vec!["x".to_string(), "y".to_string()]);
}

#[test]
fn a_night_keeps_the_deck_together() {
    let center = ["村民", "女巫", "爪牙"];
    let cards = ["强盗", "捣蛋鬼", "酒鬼", "失眠者"];
    let mut game = table(&center, &cards);
    game.advance(answer(1, Asker::Robber, "4"));
    game.advance(answer(2, Asker::Troublemaker, "1 3"));
    game.advance(Step::DrunkSwap { drunk: 3 });
    let mut now: Vec<String> = game.center_cards().clone();
    now.extend(roles(&game, 4));
    now.sort();
    let mut before: Vec<String> = center.iter().chain(&cards).map(|s| s.to_string()).collect();
    before.sort();
    assert_eq!(now, before);
}
