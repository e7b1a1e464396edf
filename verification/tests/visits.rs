use one_night::game::GameState;
use one_night::roles::new_deck;
use one_night::session::{ClientAction, Read, Session};

type Table = GameState<u32, &'static str>;

fn bytes(text: &str) -> Read {
    Read::Bytes(text.as_bytes().to_vec())
}

#[test]
fn a_visit() {
    let mut game: Table = GameState::new(2, new_deck());
    let (session, action) = game.handle_client(Session::Connecting { channel: 9 }, bytes("小明"));
    match action {
        ClientAction::Welcome { reply, log } => {
            assert_eq!(reply, "你的 ID: 2，你的身份是: 失眠者");
            assert_eq!(log, "玩家 小明 (ID: 2) 加入游戏，身份: 失眠者");
        }
        other => panic!("{:?}", other),
    }
    assert!(matches!(session, Session::Playing { id: 2 }));
    assert_eq!(game.send_private_message(2, "x"), Some((&9, "x".to_string())));

    let (session, action) = game.handle_client(session, bytes("hello\n"));
    match action {
        ClientAction::Log { line } => assert_eq!(line, "玩家 2 发送了消息：hello"),
        other => panic!("{:?}", other),
    }

    game.receive_player_input(2, "slot");
    let (session, action) = game.handle_client(session, bytes("1\n"));
    match action {
        ClientAction::Deliver { waiting, message } => {
            assert_eq!((waiting, message.as_str()), ("slot", "1\n"));
        }
        other => panic!("{:?}", other),
    }

    let (session, action) = game.handle_client(session, Read::Bytes(vec![]));
    assert!(matches!(session, Session::Closed));
    assert!(matches!(action, ClientAction::Close));
    assert!(!game.is_seated(2));
}

#[test]
fn a_failed_read_ends_a_visit() {
    let mut game: Table = GameState::new(2, new_deck());
    let (session, _) = game.handle_client(Session::Connecting { channel: 9 }, bytes("a"));
    let (session, action) = game.handle_client(session, Read::Failed);
    assert!(matches!(session, Session::Closed));
    assert!(matches!(action, ClientAction::Close));
    assert!(!game.is_seated(2));
    let (session, action) = game.handle_client(session, bytes("b"));
    assert!(matches!(session, Session::Closed));
    assert!(matches!(action, ClientAction::Close));
}

#[test]
fn a_client_without_a_name_goes_unnoticed() {
    let mut game: Table = GameState::new(1, new_deck());
    let (session, action) =
        game.handle_client(Session::Connecting { channel: 9 }, Read::Bytes(vec![]));
    assert!(matches!(session, Session::Closed));
    assert!(matches!(action, ClientAction::Close));
    let (session, _) = game.handle_client(Session::Connecting { channel: 9 }, bytes("a"));
    assert!(matches!(session, Session::Playing { id: 1 }));
}

#[test]
fn a_client_too_many_is_refused() {
    let mut game: Table = GameState::new(1, new_deck());
    game.handle_client(Session::Connecting { channel: 1 }, bytes("a"));
    let (session, action) = game.handle_client(Session::Connecting { channel: 2 }, bytes("b"));
    assert!(matches!(session, Session::Closed));
    match action {
        ClientAction::Refuse { reply } => assert_eq!(reply, "游戏已满，无法加入"),
        other => panic!("{:?}", other),
    }
}

#[test]
fn bytes_that_are_no_text_are_replaced() {
    let mut game: Table = GameState::new(1, new_deck());
    let name = Read::Bytes(vec![b'a', 0xff]);
    let (_, action) = game.handle_client(Session::Connecting { channel: 1 }, name);
    match action {
        ClientAction::Welcome { log, .. } => {
            assert_eq!(log, "玩家 a\u{fffd} (ID: 1) 加入游戏，身份: 失眠者");
        }
        other => panic!("{:?}", other),
    }
}
