use chat::auth::Auth;
use chat::client_error::ClientError;
use chat::config::ChatConfig;
use chat::connection::{ClientConnection, ClientState, Event, Step};
use chat::message::{AuthRequest, AuthResponse, ClientMessage};
use chat::session::{read_reply, request_frame, send_failure, Exchange};
use chat::tui::{Key, KeyOutcome, TuiApp};
use chat::widgets::{Area, MessageRenderer};

fn handshake_text(r: Result<u64, ClientError>) -> String {
    match r {
        Err(ClientError::Handshake(m)) => m,
        other => panic!("expected a handshake error, got {:?}", other),
    }
}

#[test]
fn default_config() {
    let c = ChatConfig::default();
    assert_eq!(c.server_addr, "127.0.0.1:8000");
    assert_eq!(c.max_frame_size, 65536);
}

#[test]
fn authenticate_reads_success_and_refusal() {
    let ok = AuthResponse::Success { user_id: 17 }.encode().unwrap();
    assert_eq!(read_reply(Exchange::Authenticate, Some(Ok(ok))).unwrap(), 17);
    let no = AuthResponse::Failure { reason: "Invalid password".to_string() }.encode().unwrap();
    assert_eq!(handshake_text(read_reply(Exchange::Authenticate, Some(Ok(no)))), "Authentication failed: Invalid password");
    let lookup = AuthResponse::LookupResult { user_id: 2 }.encode().unwrap();
    assert_eq!(handshake_text(read_reply(Exchange::Authenticate, Some(Ok(lookup)))), "Unexpected response from server");
    assert_eq!(handshake_text(read_reply(Exchange::Authenticate, Some(Ok(vec![1, 2])))), "Unexpected response from server");
    assert_eq!(handshake_text(read_reply(Exchange::Authenticate, None)), "Connection closed during handshake");
    let e = std::io::Error::new(std::io::ErrorKind::Other, "boom");
    assert_eq!(handshake_text(read_reply(Exchange::Authenticate, Some(Err(e)))), "Handshake error: boom");
}

#[test]
fn lookup_and_start_chat_replies() {
    let lookup = AuthResponse::LookupResult { user_id: 4 }.encode().unwrap();
    assert_eq!(read_reply(Exchange::Lookup, Some(Ok(lookup))).unwrap(), 4);
    let success = AuthResponse::Success { user_id: 4 }.encode().unwrap();
    assert_eq!(handshake_text(read_reply(Exchange::Lookup, Some(Ok(success.clone())))), "Unexpected response from server");
    let no = AuthResponse::Failure { reason: "User not found".to_string() }.encode().unwrap();
    assert_eq!(handshake_text(read_reply(Exchange::Lookup, Some(Ok(no.clone())))), "Lookup failed: User not found");
    assert_eq!(handshake_text(read_reply(Exchange::Lookup, None)), "Connection closed during lookup");
    assert!(read_reply(Exchange::StartChat, Some(Ok(success))).is_ok());
    assert_eq!(handshake_text(read_reply(Exchange::StartChat, Some(Ok(no)))), "Start chat failed: User not found");
    let lookup = AuthResponse::LookupResult { user_id: 4 }.encode().unwrap();
    assert_eq!(handshake_text(read_reply(Exchange::StartChat, Some(Ok(lookup)))), "Unexpected response from server during start_chat");
    assert_eq!(handshake_text(read_reply(Exchange::StartChat, None)), "Connection closed during start_chat");
    let e = std::io::Error::new(std::io::ErrorKind::Other, "reset");
    assert_eq!(handshake_text(read_reply(Exchange::Lookup, Some(Err(e)))), "Lookup error: reset");
}

#[test]
fn request_frames_and_send_failures() {
    let bytes = request_frame(Exchange::StartChat, &AuthRequest::StartChat).unwrap();
    assert_eq!(bytes, vec![0, 0, 0, 3]);
    let e = std::io::Error::new(std::io::ErrorKind::Other, "pipe");
    match send_failure(Exchange::Lookup, e) {
        ClientError::Handshake(m) => assert_eq!(m, "Failed to send lookup request: pipe"),
        other => panic!("unexpected {:?}", other),
    }
}

#[test]
fn choice_and_credentials_are_trimmed() {
    assert!(Auth::parse_choice("1\n").unwrap());
    assert!(!Auth::parse_choice("  2  \n").unwrap());
    match Auth::parse_choice("3\n") {
        Err(ClientError::Handshake(m)) => assert_eq!(m, "Invalid choice"),
        other => panic!("unexpected {:?}", other),
    }
    match Auth::credentials(true, " amy\n", "pw \n") {
        AuthRequest::Register { username, password } => {
            assert_eq!(username, "amy");
            assert_eq!(password, "pw");
        }
        other => panic!("unexpected {:?}", other),
    }
    assert!(matches!(Auth::credentials(false, "a", "b"), AuthRequest::Login { .. }));
    assert_eq!(Auth::recipient("\tbob \r\n"), "bob");
}

#[test]
fn retry_answer() {
    assert!(ClientConnection::wants_retry("y\n"));
    assert!(ClientConnection::wants_retry("  Y "));
    assert!(!ClientConnection::wants_retry("yes\n"));
    assert!(!ClientConnection::wants_retry("n"));
}

#[test]
fn client_session_course() {
    let conn = ClientConnection::new("10.0.0.1:9");
    assert_eq!(conn.address(), "10.0.0.1:9");
    let s = match ClientConnection::next_state(ClientState::Initial, Event::Started) {
        Step::Continue(s) => s,
        _ => panic!(),
    };
    assert!(matches!(s, ClientState::Authenticating));
    let s = match ClientConnection::next_state(s, Event::Authenticated(Ok(5))) {
        Step::Continue(s) => s,
        _ => panic!(),
    };
    assert!(matches!(s, ClientState::SelectingRecipient { from_id: 5 }));
    let s = match ClientConnection::next_state(s, Event::RecipientChosen(Err(ClientError::Handshake("x".to_string())))) {
        Step::Continue(s) => s,
        _ => panic!(),
    };
    assert!(matches!(s, ClientState::SelectingRecipient { from_id: 5 }));
    let s = match ClientConnection::next_state(s, Event::RecipientChosen(Ok((6, Ok(()))))) {
        Step::Continue(s) => s,
        _ => panic!(),
    };
    assert!(matches!(s, ClientState::Chatting { from_id: 5, to_id: 6 }));
    let s = match ClientConnection::next_state(s, Event::ChatEnded(Ok(()))) {
        Step::Continue(s) => s,
        _ => panic!(),
    };
    assert!(matches!(s, ClientState::Terminated));
    assert!(matches!(ClientConnection::next_state(s, Event::Closed), Step::Finish(Ok(()))));
}

#[test]
fn client_errors_lead_to_retry_or_exit() {
    let s = match ClientConnection::next_state(ClientState::Authenticating, Event::Authenticated(Err(ClientError::Connection("refused".to_string())))) {
        Step::Continue(s) => s,
        _ => panic!(),
    };
    assert!(matches!(s, ClientState::Error(ClientError::Connection(_))));
    assert!(matches!(ClientConnection::next_state(s, Event::RetryAnswered(true)), Step::Continue(ClientState::Initial)));
    let s = ClientState::Error(ClientError::Send("gone".to_string()));
    assert!(matches!(ClientConnection::next_state(s, Event::RetryAnswered(false)), Step::Finish(Err(ClientError::Send(_)))));
    let s = ClientState::SelectingRecipient { from_id: 1 };
    assert!(matches!(ClientConnection::next_state(s, Event::InputFailed(ClientError::Receive("eof".to_string()))), Step::Finish(Err(ClientError::Receive(_)))));
    let s = ClientState::SelectingRecipient { from_id: 1 };
    assert!(matches!(
        ClientConnection::next_state(s, Event::RecipientChosen(Ok((2, Err(ClientError::Handshake("no".to_string())))))),
        Step::Continue(ClientState::Error(ClientError::Handshake(_)))
    ));
}

#[test]
fn client_error_messages() {
    assert_eq!(ClientError::Connection("down".to_string()).message(), "Connection error: down");
    assert_eq!(ClientError::Handshake("h".to_string()).message(), "Handshake error: h");
    assert_eq!(ClientError::Send("s".to_string()).message(), "Send error: s");
    assert_eq!(ClientError::Receive("r".to_string()).message(), "Receive error: r");
    assert_eq!(ClientError::Channel("c".to_string()).message(), "Channel error: c");
    assert_eq!(ClientError::Codec("k".to_string()).message(), "Codec error: k");
    let io = std::io::Error::new(std::io::ErrorKind::Other, "disk");
    assert_eq!(ClientError::from(io).message(), "IO error: disk");
    let parse = "x".parse::<u64>().unwrap_err();
    assert_eq!(ClientError::from(parse).message(), "Parse error: invalid digit found in string");
}

#[test]
fn typing_and_sending_a_message() {
    let mut app = TuiApp::new(1, 2);
    assert_eq!(app.mode_title(), " (EDITING) - Press 'Esc' to stop editing, 'Enter' to send ");
    assert!(matches!(app.handle_key(Key::Enter), KeyOutcome::Continue));
    for c in "hix".chars() {
        assert!(matches!(app.handle_key(Key::Char(c)), KeyOutcome::Continue));
    }
    assert!(matches!(app.handle_key(Key::Backspace), KeyOutcome::Continue));
    assert_eq!(app.input(), "hi");
    let expected = ClientMessage::new(1, 2, "hi".to_string()).encode().unwrap();
    match app.handle_key(Key::Enter) {
        KeyOutcome::Send(bytes) => assert_eq!(bytes, expected),
        _ => panic!("expected a frame to send"),
    }
    assert_eq!(app.input(), "");
    assert_eq!(app.message(0).get_content(), "hi");
    assert_eq!(app.message(0).get_sender_id(), 1);
    assert_eq!(app.message(0).get_recipient_id(), 2);
}

#[test]
fn normal_mode_keys() {
    let mut app = TuiApp::new(1, 2);
    assert!(matches!(app.handle_key(Key::Esc), KeyOutcome::Continue));
    assert_eq!(app.mode_title(), " (NORMAL) - Press 'e' to edit, 'q' to quit ");
    assert!(matches!(app.handle_key(Key::Char('x')), KeyOutcome::Continue));
    assert_eq!(app.input(), "");
    assert!(matches!(app.handle_key(Key::Char('e')), KeyOutcome::Continue));
    assert!(matches!(app.handle_key(Key::Char('q')), KeyOutcome::Continue));
    assert_eq!(app.input(), "q");
    app.handle_key(Key::Esc);
    assert!(matches!(app.handle_key(Key::Char('q')), KeyOutcome::Quit));
    assert!(matches!(app.handle_key(Key::Esc), KeyOutcome::Quit));
    app.handle_key(Key::Backspace);
    assert_eq!(app.input(), "q");
}

#[test]
fn received_messages_are_shown() {
    let mut app = TuiApp::new(1, 2);
    app.receive(ClientMessage::new(2, 1, "yo".to_string()));
    assert_eq!(app.message(0).get_sender_id(), 2);
    assert_eq!(app.message(0).get_content(), "yo");
}

#[test]
fn layout_stacks_bubbles_from_the_bottom() {
    let area = Area { x: 1, y: 1, width: 40, height: 20 };
    let msgs = vec![
        ClientMessage::new(1, 2, "hello".to_string()),
        ClientMessage::new(2, 1, "a reply that is rather longer than the others".to_string()),
    ];
    assert!(MessageRenderer::fits(&area, &msgs, 1));
    let bubbles = MessageRenderer::layout(&area, &msgs, 1);
    assert_eq!(bubbles.len(), 2);
    // newest first: the reply, from the other user, on the left
    let b = &bubbles[0];
    assert_eq!((b.index, b.outgoing), (1, false));
    // text 45 bytes, max text width 40/2+10-2 = 28, width 30, lines (45+27)/28 = 2, height 4
    assert_eq!((b.x, b.y, b.width, b.height), (1, 17, 30, 4));
    let b = &bubbles[1];
    assert_eq!((b.index, b.outgoing), (0, true));
    // text 5 bytes: width max(7,10)+2 = 12, lines (5+9)/10 = 1, height 3; one row of gap
    assert_eq!((b.x, b.y, b.width, b.height), (29, 13, 12, 3));
}

#[test]
fn layout_stops_at_the_top() {
    let area = Area { x: 0, y: 0, width: 30, height: 5 };
    let msgs = vec![
        ClientMessage::new(2, 1, "old".to_string()),
        ClientMessage::new(2, 1, "new".to_string()),
    ];
    let bubbles = MessageRenderer::layout(&area, &msgs, 1);
    assert_eq!(bubbles.len(), 1);
    assert_eq!(bubbles[0].index, 1);
    assert_eq!((bubbles[0].y, bubbles[0].height), (2, 3));
    assert!(MessageRenderer::layout(&area, &Vec::new(), 1).is_empty());
}

#[test]
fn layout_that_would_overflow_does_not_fit() {
    let area = Area { x: 0, y: 0, width: 5, height: 20 };
    let msgs = vec![ClientMessage::new(1, 2, "mine".to_string())];
    assert!(!MessageRenderer::fits(&area, &msgs, 1));
    let theirs = vec![ClientMessage::new(2, 1, "theirs".to_string())];
    assert!(MessageRenderer::fits(&area, &theirs, 1));
    let inner = TuiApp::inner_area(&Area { x: 0, y: 0, width: 80, height: 21 });
    assert_eq!((inner.x, inner.y, inner.width, inner.height), (1, 1, 78, 19));
}

#[test]
fn screen_splits_into_messages_and_input() {
    let (chat, input) = TuiApp::screen_areas(&Area { x: 0, y: 0, width: 80, height: 24 });
    assert_eq!((chat.x, chat.y, chat.width, chat.height), (0, 0, 80, 21));
    assert_eq!((input.x, input.y, input.width, input.height), (0, 21, 80, 3));
}

#[test]
fn key_sequence_sends_each_typed_message_once() {
    let mut app = TuiApp::new(4, 9);
    let keys = vec![
        Key::Char('a'),
        Key::Char('b'),
        Key::Backspace,
        Key::Char('c'),
        Key::Enter,
        Key::Enter,
        Key::Char('z'),
        Key::Enter,
        Key::Char('w'),
        Key::Esc,
        Key::Char('q'),
    ];
    let mut frames = Vec::new();
    let mut quit = false;
    for k in keys {
        match app.handle_key(k) {
            KeyOutcome::Send(b) => frames.push(b),
            KeyOutcome::Quit => {
                quit = true;
                break;
            }
            KeyOutcome::Continue => {}
        }
    }
    assert!(quit);
    assert_eq!(
        frames,
        vec![
            ClientMessage::new(4, 9, "ac".to_string()).encode().unwrap(),
            ClientMessage::new(4, 9, "z".to_string()).encode().unwrap(),
        ]
    );
    assert_eq!(app.input(), "w");
}
