use one_night::game::{Admission, Dispatch, GameState, Wait};
use one_night::roles::{new_deck, SEATS};

type Table = GameState<u32, &'static str>;

fn strings(items: &[&str]) -> Vec<String> {
    items.iter().map(|s| s.to_string()).collect()
}

fn sit(game: &mut Table, name: &str, channel: u32) -> usize {
    match game.join(name.to_string(), channel) {
        Admission::Seated { id, .. } => id,
        Admission::Refused { reply } => panic!("{}", reply),
    }
}

fn is_refused(game: &mut Table, name: &str) -> bool {
    match game.join(name.to_string(), 0) {
        Admission::Seated { .. } => false,
        Admission::Refused { reply } => {
            assert_eq!(reply, "游戏已满，无法加入");
            true
        }
    }
}

#[test]
fn the_deck() {
    assert_eq!(
        new_deck(),
        strings(&[
            "村民", "狼人", "爪牙", "守夜人", "预言家", "强盗", "女巫", "捣蛋鬼", "酒鬼", "失眠者"
        ])
    );
    assert_eq!(SEATS, 6);
}

#[test]
fn seats_and_cards_go_from_the_end() {
    let mut game: Table = GameState::new(SEATS, new_deck());
    let expected = [
        (6, "失眠者"),
        (5, "酒鬼"),
        (4, "捣蛋鬼"),
        (3, "女巫"),
        (2, "强盗"),
        (1, "预言家"),
    ];
    for (seat, role) in expected {
        match game.join(format!("p{}", seat), seat as u32) {
            Admission::Seated { id, reply, log } => {
                assert_eq!(id, seat);
                assert_eq!(reply, format!("你的 ID: {}，你的身份是: {}", seat, role));
                assert_eq!(log, format!("玩家 p{} (ID: {}) 加入游戏，身份: {}", seat, seat, role));
            }
            Admission::Refused { reply } => panic!("{}", reply),
        }
        assert_eq!(game.role_of(seat), Some(role.to_string()));
        assert!(game.is_seated(seat));
        assert!(!game.should_start_game());
    }
    assert!(is_refused(&mut game, "late"));
    assert_eq!(
        game.setup_center_cards(),
        "设置中心牌: [\"村民\", \"狼人\", \"爪牙\", \"守夜人\"]"
    );
    assert_eq!(game.center_cards(), &strings(&["村民", "狼人", "爪牙", "守夜人"]));
}

#[test]
fn a_full_game_has_seven_players() {
    let mut game: Table = GameState::new(8, new_deck());
    for i in 0..6 {
        sit(&mut game, &format!("p{}", i), i);
        assert!(!game.should_start_game());
    }
    sit(&mut game, "seventh", 7);
    assert!(game.should_start_game());
    sit(&mut game, "eighth", 8);
    assert!(!game.should_start_game());
    game.leave(1);
    assert!(game.should_start_game());
}

#[test]
fn leaving_gives_back_the_seat_but_not_the_card() {
    let mut game: Table = GameState::new(2, strings(&["村民", "狼人", "女巫"]));
    let anna = sit(&mut game, "anna", 10);
    assert_eq!((anna, game.role_of(anna)), (2, Some("女巫".to_string())));
    game.leave(anna);
    assert!(!game.is_seated(anna));
    assert_eq!(game.role_of(anna), None);
    assert_eq!(game.send_private_message(anna, "x"), None);
    let bert = sit(&mut game, "bert", 11);
    assert_eq!((bert, game.role_of(bert)), (2, Some("狼人".to_string())));
    let carl = sit(&mut game, "carl", 12);
    assert_eq!((carl, game.role_of(carl)), (1, Some("村民".to_string())));
}

#[test]
fn a_seat_without_a_card_is_lost() {
    let mut game: Table = GameState::new(2, strings(&["村民", "狼人"]));
    for _ in 0..2 {
        let id = sit(&mut game, "anna", 1);
        assert_eq!(id, 2);
        game.leave(id);
    }
    // No card is left, and each refusal costs one of the two seats.
    assert!(is_refused(&mut game, "bert"));
    assert!(is_refused(&mut game, "carl"));
    assert!(is_refused(&mut game, "dora"));
    assert!(!game.is_seated(1));
    assert!(!game.is_seated(2));
}

#[test]
fn players_of_one_name_leave_one_by_one() {
    let mut game: Table = GameState::new(3, strings(&["村民", "狼人", "女巫"]));
    let first = sit(&mut game, "anna", 1);
    let second = sit(&mut game, "anna", 2);
    game.leave(first);
    assert!(game.is_seated(second));
    assert_eq!(game.send_private_message(second, "hi"), Some((&2, "hi".to_string())));
    game.leave(second);
    assert!(!game.is_seated(second));
}

#[test]
fn messages_go_to_the_channel_of_the_seat() {
    let mut game: Table = GameState::new(3, new_deck());
    let id = sit(&mut game, "anna", 77);
    assert_eq!(game.send_private_message(id, "早"), Some((&77, "早".to_string())));
    assert_eq!(game.send_private_message(1, "早"), None);
}

#[test]
fn the_robot_takes_the_last_card() {
    let mut game: Table = GameState::new(3, strings(&["村民", "狼人"]));
    assert_eq!(game.robot(), None);
    game.setup_robot();
    assert_eq!(game.robot(), Some("狼人".to_string()));
    let id = sit(&mut game, "anna", 1);
    assert_eq!(game.role_of(id), Some("村民".to_string()));
}

#[test]
fn an_answer_goes_to_the_latest_question() {
    let mut game: Table = GameState::new(3, new_deck());
    let id = sit(&mut game, "anna", 1);
    let asked = game.receive_player_input(id, "first");
    assert!(asked.superseded.is_none());
    assert_eq!((asked.prompt.to, asked.prompt.text.as_str()), (id, "请输入你的选择："));
    let asked = game.receive_player_input(id, "second");
    assert_eq!(asked.superseded, Some(("first", "操作已超时".to_string())));
    match game.process_client_message(id, "4\n".to_string()) {
        Dispatch::Deliver { reply, message } => {
            assert_eq!((reply, message.as_str()), ("second", "4\n"));
        }
        Dispatch::Unasked { log } => panic!("{}", log),
    }
    match game.process_client_message(id, " 5 \n".to_string()) {
        Dispatch::Deliver { reply, .. } => panic!("{}", reply),
        Dispatch::Unasked { log } => assert_eq!(log, "玩家 3 发送了消息：5"),
    }
}

#[test]
fn waiting_ends_in_one_of_three_ways() {
    let mut game: Table = GameState::new(3, new_deck());
    game.receive_player_input(2, "slot");
    let done = game.resolve_player_input(2, Wait::Answered("7".to_string()));
    assert_eq!(done.choice, Some("7".to_string()));
    assert!(done.notice.is_none());
    let done = game.resolve_player_input(2, Wait::Abandoned);
    assert_eq!(done.choice, None);
    assert!(done.notice.is_none());
    // Neither of them takes the question back.
    let asked = game.receive_player_input(2, "slot2");
    assert!(asked.superseded.is_some());
    let done = game.resolve_player_input(2, Wait::TimedOut);
    assert_eq!(done.choice, None);
    let notice = done.notice.unwrap();
    assert_eq!((notice.to, notice.text.as_str()), (2, "操作超时，已跳过"));
    let asked = game.receive_player_input(2, "slot3");
    assert!(asked.superseded.is_none());
}

#[test]
fn a_question_outlives_the_player() {
    let mut game: Table = GameState::new(1, strings(&["村民", "狼人"]));
    let id = sit(&mut game, "anna", 1);
    game.receive_player_input(id, "slot");
    game.leave(id);
    let id = sit(&mut game, "bert", 2);
    match game.process_client_message(id, "hello".to_string()) {
        Dispatch::Deliver { reply, .. } => assert_eq!(reply, "slot"),
        Dispatch::Unasked { log } => panic!("{}", log),
    }
}

#[test]
fn players_and_center_hold_the_deck() {
    let mut game: Table = GameState::new(SEATS, new_deck());
    let mut cards: Vec<String> = Vec::new();
    for i in 0..6 {
        let id = sit(&mut game, &format!("p{}", i), i);
        cards.push(game.role_of(id).unwrap());
    }
    game.setup_center_cards();
    cards.extend(game.center_cards().iter().cloned());
    cards.sort();
    let mut deck = new_deck();
    deck.sort();
    assert_eq!(cards, deck);
}
