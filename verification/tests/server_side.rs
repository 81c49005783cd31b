use chat::client_registry::{ClientRegistry, Route};
use chat::error::ChatError;
use chat::handshake::HandshakeHandler;
use chat::message::{AuthRequest, AuthResponse, ClientMessage};
use chat::user_store::{User, UserRegistry, UserStore};

fn user(id: u64, name: &str, pw: &str) -> User {
    User { id, username: name.to_string(), password: pw.to_string() }
}

#[test]
fn registry_keeps_the_last_user_of_a_name() {
    let reg = UserRegistry::new(vec![user(1, "ann", "a"), user(2, "ben", "b"), user(3, "ann", "c")]);
    assert_eq!(reg.count(), 2);
    let ann = reg.get_by_username("ann").unwrap();
    assert_eq!(ann.id, 3);
    assert_eq!(ann.password, "c");
    assert!(reg.contains("ben"));
    assert!(!reg.contains("cid"));
    assert!(reg.get_by_username("cid").is_none());
}

#[test]
fn registry_insert_replaces() {
    let mut reg = UserRegistry::new(vec![]);
    assert_eq!(reg.count(), 0);
    reg.insert(user(5, "dan", "x"));
    reg.insert(user(6, "dan", "y"));
    assert_eq!(reg.count(), 1);
    assert_eq!(reg.get_by_username("dan").unwrap().id, 6);
}

#[test]
fn register_assigns_count_plus_one() {
    let mut store = UserStore::new(vec![user(1, "ann", "a")]);
    assert_eq!(store.register("ben".to_string(), "pw".to_string()), Ok(2));
    assert_eq!(store.register("cid".to_string(), "pw".to_string()), Ok(3));
    assert_eq!(store.register("ben".to_string(), "other".to_string()), Err("User already exists".to_string()));
    assert_eq!(store.login("ben", "pw"), Ok(2));
    assert_eq!(store.lookup("cid"), Ok(3));
}

#[test]
fn login_refusals() {
    let mut store = UserStore::new(vec![]);
    assert_eq!(store.register("eve".to_string(), "right".to_string()), Ok(1));
    assert_eq!(store.login("eve", "wrong"), Err("Invalid password".to_string()));
    assert_eq!(store.login("nobody", "right"), Err("User not found".to_string()));
    assert_eq!(store.lookup("nobody"), Err("User not found".to_string()));
    assert_eq!(store.login("eve", "right"), Ok(1));
}

fn respond(h: &mut HandshakeHandler, store: &mut UserStore, req: AuthRequest) -> (AuthResponse, Option<(u64, String)>) {
    h.respond(store, req)
}

#[test]
fn start_chat_before_authentication_is_refused() {
    let mut store = UserStore::new(vec![]);
    let mut h = HandshakeHandler::new();
    match respond(&mut h, &mut store, AuthRequest::StartChat) {
        (AuthResponse::Failure { reason }, None) => assert_eq!(reason, "Not authenticated"),
        other => panic!("unexpected {:?}", other),
    }
}

#[test]
fn register_then_start_chat() {
    let mut store = UserStore::new(vec![user(1, "ann", "a")]);
    let mut h = HandshakeHandler::new();
    match respond(&mut h, &mut store, AuthRequest::Register { username: "bob".to_string(), password: "pw".to_string() }) {
        (AuthResponse::Success { user_id: 2 }, None) => {}
        other => panic!("unexpected {:?}", other),
    }
    match respond(&mut h, &mut store, AuthRequest::Lookup { username: "ann".to_string() }) {
        (AuthResponse::LookupResult { user_id: 1 }, None) => {}
        other => panic!("unexpected {:?}", other),
    }
    match respond(&mut h, &mut store, AuthRequest::StartChat) {
        (AuthResponse::Success { user_id: 2 }, Some((2, name))) => assert_eq!(name, "bob"),
        other => panic!("unexpected {:?}", other),
    }
    match respond(&mut h, &mut store, AuthRequest::StartChat) {
        (AuthResponse::Failure { reason }, None) => assert_eq!(reason, "Not authenticated"),
        other => panic!("unexpected {:?}", other),
    }
}

#[test]
fn failed_login_keeps_earlier_authentication() {
    let mut store = UserStore::new(vec![user(1, "ann", "a"), user(2, "ben", "b")]);
    let mut h = HandshakeHandler::new();
    assert!(matches!(respond(&mut h, &mut store, AuthRequest::Login { username: "ann".to_string(), password: "a".to_string() }), (AuthResponse::Success { user_id: 1 }, None)));
    match respond(&mut h, &mut store, AuthRequest::Login { username: "ben".to_string(), password: "x".to_string() }) {
        (AuthResponse::Failure { reason }, None) => assert_eq!(reason, "Invalid password"),
        other => panic!("unexpected {:?}", other),
    }
    match respond(&mut h, &mut store, AuthRequest::Lookup { username: "zed".to_string() }) {
        (AuthResponse::Failure { reason }, None) => assert_eq!(reason, "User not found"),
        other => panic!("unexpected {:?}", other),
    }
    assert!(matches!(respond(&mut h, &mut store, AuthRequest::StartChat), (AuthResponse::Success { user_id: 1 }, Some((1, _)))));
}

#[test]
fn handle_frame_answers_in_wire_format() {
    let mut store = UserStore::new(vec![]);
    let mut h = HandshakeHandler::new();
    let frame = AuthRequest::Register { username: "zoe".to_string(), password: "pw".to_string() }.encode().unwrap();
    let (reply, done) = h.handle_frame(&mut store, &frame).unwrap();
    assert!(done.is_none());
    assert_eq!(reply, vec![0, 0, 0, 0, 0, 0, 0, 0, 0, 0, 0, 1]);
    let frame = AuthRequest::StartChat.encode().unwrap();
    let (reply, done) = h.handle_frame(&mut store, &frame).unwrap();
    assert_eq!(reply, vec![0, 0, 0, 0, 0, 0, 0, 0, 0, 0, 0, 1]);
    assert_eq!(done, Some((1, "zoe".to_string())));
    assert!(matches!(h.handle_frame(&mut store, &[0, 0, 0, 9]), Err(ChatError::Decode(_))));
    assert_eq!(store.lookup("zoe"), Ok(1));
}

#[test]
fn client_registry_tracks_ids() {
    let mut reg = ClientRegistry::new();
    let (tx, _rx) = tokio::sync::mpsc::channel::<bytes::Bytes>(4);
    assert!(!reg.is_registered(3));
    reg.register(3, 70, tx.clone());
    assert!(reg.is_registered(3));
    assert_eq!(reg.get_sender(3).map(|(tag, _)| tag), Some(70));
    reg.register(3, 71, tx.clone());
    assert_eq!(reg.get_sender(3).map(|(tag, _)| tag), Some(71));
    assert!(reg.get_sender(4).is_none());
    reg.deregister(3);
    assert!(!reg.is_registered(3));
    assert!(reg.get_sender(3).is_none());
}

#[test]
fn route_delivers_to_the_recipient_channel() {
    let mut reg = ClientRegistry::new();
    let (tx, mut rx) = tokio::sync::mpsc::channel::<bytes::Bytes>(4);
    let (other_tx, mut other_rx) = tokio::sync::mpsc::channel::<bytes::Bytes>(4);
    reg.register(8, 100, tx);
    reg.register(10, 101, other_tx);
    let frame = ClientMessage::new(1, 8, "hello".to_string()).encode().unwrap();
    match reg.route(&frame) {
        Route::Deliver { recipient_id, tag, sender } => {
            assert_eq!(recipient_id, 8);
            assert_eq!(tag, 100);
            sender.try_send(bytes::Bytes::from(frame.clone())).unwrap();
            let got = rx.try_recv().unwrap();
            assert_eq!(got.as_ref(), frame.as_slice());
            assert!(other_rx.try_recv().is_err());
        }
        _ => panic!("expected delivery"),
    }
    let other = ClientMessage::new(1, 9, "x".to_string()).encode().unwrap();
    assert!(matches!(reg.route(&other), Route::UnknownRecipient(9)));
    assert!(matches!(reg.route(&[1, 2, 3]), Route::Undecodable(ChatError::Protocol(_))));
}

#[test]
fn registered_users_wait_to_be_saved() {
    let mut store = UserStore::new(vec![user(1, "ann", "a")]);
    assert!(store.take_unsaved().is_empty());
    assert_eq!(store.count(), 1);
    store.register("bob".to_string(), "b".to_string()).unwrap();
    assert!(store.register("ann".to_string(), "z".to_string()).is_err());
    store.register("cy".to_string(), "c".to_string()).unwrap();
    let unsaved = store.take_unsaved();
    assert_eq!(unsaved.len(), 2);
    assert_eq!((unsaved[0].id, unsaved[0].username.as_str(), unsaved[0].password.as_str()), (2, "bob", "b"));
    assert_eq!((unsaved[1].id, unsaved[1].username.as_str()), (3, "cy"));
    assert!(store.take_unsaved().is_empty());
    assert_eq!(store.count(), 3);
}

#[test]
fn whole_handshake_starts_as_latest_authenticated_user() {
    let mut store = UserStore::new(vec![user(1, "ann", "a")]);
    let mut h = HandshakeHandler::new();
    let reqs = vec![
        AuthRequest::StartChat,
        AuthRequest::Register { username: "bob".to_string(), password: "b".to_string() },
        AuthRequest::Login { username: "ann".to_string(), password: "wrong".to_string() },
        AuthRequest::Lookup { username: "ann".to_string() },
        AuthRequest::Register { username: "ann".to_string(), password: "x".to_string() },
        AuthRequest::StartChat,
    ];
    let expected = vec![
        AuthResponse::Failure { reason: "Not authenticated".to_string() },
        AuthResponse::Success { user_id: 2 },
        AuthResponse::Failure { reason: "Invalid password".to_string() },
        AuthResponse::LookupResult { user_id: 1 },
        AuthResponse::Failure { reason: "User already exists".to_string() },
        AuthResponse::Success { user_id: 2 },
    ];
    let mut last_done = None;
    for (req, want) in reqs.iter().zip(expected.iter()) {
        let (reply, done) = h.handle_frame(&mut store, &req.encode().unwrap()).unwrap();
        assert_eq!(reply, want.encode().unwrap());
        last_done = done;
    }
    assert_eq!(last_done, Some((2, "bob".to_string())));
}
