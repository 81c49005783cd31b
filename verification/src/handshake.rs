//! The server's side of the handshake: it answers registration, login and
//! lookup requests until the client asks to start chatting as the user it
//! authenticated as.

use vstd::prelude::*;
use crate::error::{ChatError, ChatResult};
use crate::message::{
    AuthRequest, AuthResponse, RequestView, ResponseView, parse_request, response_bytes,
};
use crate::user_store::{
    UserStore, UserTable, register_result, register_table, register_added, login_result, lookup_result,
};

verus! {

/// The effect of one request on the handshake: the user the connection is
/// authenticated as afterwards, the table of users, the response sent, and
/// the user the chat starts as, once it starts.
pub struct HandshakeOutcome {
    pub info: Option<(u64, Seq<char>)>,
    pub users: UserTable,
    pub response: ResponseView,
    pub done: Option<(u64, Seq<char>)>,
    /// The users registered by the request, to be written to disk.
    pub added: Seq<(u64, Seq<char>, Seq<char>)>,
}

/// How the server answers `req` when the connection is authenticated as
/// `info` and the users are `users`.
pub open spec fn handshake_step(
    info: Option<(u64, Seq<char>)>,
    users: UserTable,
    req: RequestView,
) -> HandshakeOutcome {
    match req {
        RequestView::Register { username, password } => match register_result(users, username) {
            Ok(id) => HandshakeOutcome {
                info: Some((id, username)),
                users: register_table(users, username, password),
                response: ResponseView::Success { user_id: id },
                done: None,
                added: register_added(users, username, password),
            },
            Err(reason) => HandshakeOutcome {
                info,
                users,
                response: ResponseView::Failure { reason },
                done: None,
                added: Seq::empty(),
            },
        },
        RequestView::Login { username, password } => match login_result(users, username, password) {
            Ok(id) => HandshakeOutcome {
                info: Some((id, username)),
                users,
                response: ResponseView::Success { user_id: id },
                done: None,
                added: Seq::empty(),
            },
            Err(reason) => HandshakeOutcome {
                info,
                users,
                response: ResponseView::Failure { reason },
                done: None,
                added: Seq::empty(),
            },
        },
        RequestView::Lookup { username } => match lookup_result(users, username) {
            Ok(id) => HandshakeOutcome {
                info,
                users,
                response: ResponseView::LookupResult { user_id: id },
                done: None,
                added: Seq::empty(),
            },
            Err(reason) => HandshakeOutcome {
                info,
                users,
                response: ResponseView::Failure { reason },
                done: None,
                added: Seq::empty(),
            },
        },
        RequestView::StartChat => match info {
            Some(i) => HandshakeOutcome {
                info: None,
                users,
                response: ResponseView::Success { user_id: i.0 },
                done: Some(i),
                added: Seq::empty(),
            },
            None => HandshakeOutcome {
                info: None,
                users,
                response: ResponseView::Failure { reason: "Not authenticated"@ },
                done: None,
                added: Seq::empty(),
            },
        },
    }
}

/// Where `req` registers a name that is not taken, the table has room for
/// one more id.
pub open spec fn room_for(users: UserTable, req: RequestView) -> bool {
    req matches RequestView::Register { username, .. } && !users.dom().contains(username)
        ==> users.dom().len() < u64::MAX
}

/// A user id and name, the name taken by its characters.
pub open spec fn user_info_view(i: Option<(u64, String)>) -> Option<(u64, Seq<char>)> {
    match i {
        Some((id, name)) => Some((id, name@)),
        None => None,
    }
}

/// The state of one connection's handshake: the user it has authenticated
/// as, if any.
pub struct HandshakeHandler {
    user_info: Option<(u64, String)>,
}

impl View for HandshakeHandler {
    type V = Option<(u64, Seq<char>)>;

    closed spec fn view(&self) -> Option<(u64, Seq<char>)> {
        user_info_view(self.user_info)
    }
}

impl HandshakeHandler {
    /// A handshake that has not authenticated anyone yet.
    pub fn new() -> (r: HandshakeHandler)
        ensures
            r@ is None,
    {
        HandshakeHandler { user_info: None }
    }

    /// Answers one request, updating the users and the authenticated user.
    pub fn respond(&mut self, store: &mut UserStore, req: AuthRequest) -> (r: (
        AuthResponse,
        Option<(u64, String)>,
    ))
        requires
            room_for(old(store).users(), req@),
        ensures
            ({
                let o = handshake_step(old(self)@, old(store).users(), req@);
                &&& final(self)@ == o.info
                &&& final(store).users() == o.users
                &&& final(store).unsaved() == old(store).unsaved() + o.added
                &&& r.0@ == o.response
                &&& user_info_view(r.1) == o.done
            }),
    {
        match req {
            AuthRequest::Register { username, password } => {
                match store.register(username.clone(), password.clone()) {
                    Ok(id) => {
                        self.user_info = Some((id, username));
                        (AuthResponse::Success { user_id: id }, None)
                    },
                    Err(reason) => (AuthResponse::Failure { reason }, None),
                }
            },
            AuthRequest::Login { username, password } => {
                match store.login(username.as_str(), password.as_str()) {
                    Ok(id) => {
                        self.user_info = Some((id, username));
                        (AuthResponse::Success { user_id: id }, None)
                    },
                    Err(reason) => (AuthResponse::Failure { reason }, None),
                }
            },
            AuthRequest::Lookup { username } => {
                match store.lookup(username.as_str()) {
                    Ok(id) => (AuthResponse::LookupResult { user_id: id }, None),
                    Err(reason) => (AuthResponse::Failure { reason }, None),
                }
            },
            AuthRequest::StartChat => {
                match self.user_info.take() {
                    Some(info) => {
                        let id = info.0;
                        (AuthResponse::Success { user_id: id }, Some(info))
                    },
                    None => (
                        AuthResponse::Failure { reason: String::from_str("Not authenticated") },
                        None,
                    ),
                }
            },
        }
    }

    /// Handles one frame of the handshake: reads the request in `raw`,
    /// answers it, and gives the response's bytes, with the user to chat as
    /// once the client has asked to start chatting. A frame that holds no
    /// request is a decoding error and changes nothing.
    pub fn handle_frame(&mut self, store: &mut UserStore, raw: &[u8]) -> (r: ChatResult<
        (Vec<u8>, Option<(u64, String)>),
    >)
        requires
            parse_request(raw@) matches Some(req) ==> room_for(old(store).users(), req),
        ensures
            match parse_request(raw@) {
                None => {
                    &&& r matches Err(e) && e is Decode
                    &&& final(self)@ == old(self)@
                    &&& final(store).users() == old(store).users()
                    &&& final(store).unsaved() == old(store).unsaved()
                },
                Some(req) => {
                    let o = handshake_step(old(self)@, old(store).users(), req);
                    &&& r matches Ok((bytes, done)) && bytes@ == response_bytes(o.response)
                        && user_info_view(done) == o.done
                    &&& final(self)@ == o.info
                    &&& final(store).users() == o.users
                    &&& final(store).unsaved() == old(store).unsaved() + o.added
                },
            },
    {
        match AuthRequest::decode(raw) {
            Err(e) => Err(e),
            Ok(req) => {
                let (response, done) = self.respond(store, req);
                match response.encode() {
                    Ok(bytes) => Ok((bytes, done)),
                    Err(e) => Err(e),
                }
            },
        }
    }
}

/// Asking to start chatting before any registration or login succeeded is
/// refused as not authenticated, and the handshake goes on.
pub proof fn lemma_start_chat_needs_authentication(users: UserTable)
    ensures
        handshake_step(None, users, RequestView::StartChat) == (HandshakeOutcome {
            info: None,
            users,
            response: ResponseView::Failure { reason: "Not authenticated"@ },
            done: None,
            added: Seq::empty(),
        }),
{
}

/// After a successful registration, starting the chat succeeds with the new
/// id and starts the chat as the registered user.
pub proof fn lemma_register_then_start_chat(
    info: Option<(u64, Seq<char>)>,
    users: UserTable,
    username: Seq<char>,
    password: Seq<char>,
)
    requires
        users.dom().finite(),
        !users.dom().contains(username),
        users.dom().len() < u64::MAX,
    ensures
        ({
            let id = (users.dom().len() + 1) as u64;
            let first = handshake_step(
                info,
                users,
                RequestView::Register { username, password },
            );
            let second = handshake_step(first.info, first.users, RequestView::StartChat);
            &&& first.response == ResponseView::Success { user_id: id }
            &&& second.response == ResponseView::Success { user_id: id }
            &&& second.done == Some((id, username))
            &&& second.info is None
        }),
{
}

/// After a successful login, starting the chat starts it as the user logged
/// in, with that user's id.
pub proof fn lemma_login_then_start_chat(
    info: Option<(u64, Seq<char>)>,
    users: UserTable,
    username: Seq<char>,
    password: Seq<char>,
)
    requires
        login_result(users, username, password) is Ok,
    ensures
        ({
            let id = users[username].0;
            let first = handshake_step(info, users, RequestView::Login { username, password });
            let second = handshake_step(first.info, first.users, RequestView::StartChat);
            &&& second.response == ResponseView::Success { user_id: id }
            &&& second.done == Some((id, username))
        }),
{
}

/// Only a request to start chatting ends the handshake; any other request
/// leaves `done` empty, and one that fails leaves the authenticated user as
/// it was. Logins and lookups never change the users.
pub proof fn lemma_handshake_only_start_chat_finishes(
    info: Option<(u64, Seq<char>)>,
    users: UserTable,
    req: RequestView,
)
    ensures
        !(req is StartChat) ==> handshake_step(info, users, req).done is None,
        handshake_step(info, users, req).response is Failure ==> handshake_step(info, users, req).done is None,
        handshake_step(info, users, req).response is Failure && !(req is StartChat) ==> handshake_step(
            info,
            users,
            req,
        ).info == info && handshake_step(info, users, req).users == users,
        !(req is Register) ==> handshake_step(info, users, req).users == users,
{
}

/// A run of the handshake over `reqs`, from the authenticated user `info`
/// and the users `users`: the authenticated user and the users afterwards,
/// the responses sent, one per request read, in order, and the user the chat
/// starts as. Once the chat starts, later requests are not read.
pub open spec fn handshake_run(
    info: Option<(u64, Seq<char>)>,
    users: UserTable,
    reqs: Seq<RequestView>,
) -> (Option<(u64, Seq<char>)>, UserTable, Seq<ResponseView>, Option<(u64, Seq<char>)>)
    decreases reqs.len(),
{
    if reqs.len() == 0 {
        (info, users, Seq::empty(), None)
    } else {
        let (i1, u1, rs, d) = handshake_run(info, users, reqs.drop_last());
        if d is Some {
            (i1, u1, rs, d)
        } else {
            let o = handshake_step(i1, u1, reqs.last());
            (o.info, o.users, rs.push(o.response), o.done)
        }
    }
}

/// Whether `req` registers or logs in and `resp` tells that it succeeded.
pub open spec fn authenticates(req: RequestView, resp: ResponseView) -> bool {
    (req is Register || req is Login) && resp is Success
}

/// The user name a registration or login names.
pub open spec fn request_name(req: RequestView) -> Seq<char> {
    match req {
        RequestView::Register { username, .. } => username,
        RequestView::Login { username, .. } => username,
        _ => Seq::empty(),
    }
}

proof fn lemma_open_run(users: UserTable, reqs: Seq<RequestView>)
    requires
        handshake_run(None, users, reqs).3 is None,
    ensures
        ({
            let (info, _u, resps, _d) = handshake_run(None, users, reqs);
            &&& resps.len() == reqs.len()
            &&& info matches Some((id, name)) ==> exists|k: int|
                0 <= k < reqs.len() && #[trigger] authenticates(reqs[k], resps[k])
                    && request_name(reqs[k]) == name && resps[k] == (ResponseView::Success { user_id: id })
                    && forall|j: int| k < j < reqs.len() ==> !authenticates(reqs[j], #[trigger] resps[j])
            &&& info is None ==> forall|j: int|
                0 <= j < reqs.len() ==> !authenticates(reqs[j], #[trigger] resps[j])
        }),
    decreases reqs.len(),
{
    if reqs.len() > 0 {
        let front = reqs.drop_last();
        let (i1, u1, rs, d) = handshake_run(None, users, front);
        assert(d is None);
        lemma_open_run(users, front);
        let last = reqs.last();
        let o = handshake_step(i1, u1, last);
        let resps = rs.push(o.response);
        let n = reqs.len() - 1;
        assert(reqs[n] == last);
        assert(resps[n] == o.response);
        assert forall|j: int| 0 <= j < n implies reqs[j] == front[j] && resps[j] == rs[j] by {}
        if authenticates(last, o.response) {
            assert(o.info == Some((o.response->Success_user_id, request_name(last))));
            assert(authenticates(reqs[n], resps[n]));
        } else {
            assert(o.info == i1);
            if let Some((id, name)) = i1 {
                let k = choose|k: int|
                    0 <= k < front.len() && #[trigger] authenticates(front[k], rs[k])
                        && request_name(front[k]) == name && rs[k] == (ResponseView::Success { user_id: id })
                        && forall|j: int| k < j < front.len() ==> !authenticates(front[j], #[trigger] rs[j]);
                assert(authenticates(reqs[k], resps[k]));
                assert forall|j: int| k < j < reqs.len() implies !authenticates(reqs[j], #[trigger] resps[j]) by {
                    if j < n {
                        assert(!authenticates(front[j], rs[j]));
                    }
                }
            }
        }
    }
}

/// A whole handshake: when the request read last is the one that starts the
/// chat, it is a request to start chatting, every request read got exactly
/// one response, in order, the last one a success with the user's id, and
/// the chat starts as the user of the latest successful registration or
/// login before it; no registration or login after that one succeeded.
pub proof fn lemma_handshake_run(users: UserTable, reqs: Seq<RequestView>)
    requires
        reqs.len() > 0,
        handshake_run(None, users, reqs.drop_last()).3 is None,
        handshake_run(None, users, reqs).3 is Some,
    ensures
        ({
            let (_i, _u, resps, done) = handshake_run(None, users, reqs);
            let (id, name) = done->0;
            let n = reqs.len() - 1;
            &&& reqs.last() is StartChat
            &&& resps.len() == reqs.len()
            &&& resps.last() == (ResponseView::Success { user_id: id })
            &&& exists|k: int|
                0 <= k < n && #[trigger] authenticates(reqs[k], resps[k]) && request_name(reqs[k]) == name
                    && resps[k] == (ResponseView::Success { user_id: id })
                    && forall|j: int| k < j < n ==> !authenticates(reqs[j], #[trigger] resps[j])
        }),
{
    let front = reqs.drop_last();
    lemma_open_run(users, front);
    let (i1, u1, rs, d) = handshake_run(None, users, front);
    let o = handshake_step(i1, u1, reqs.last());
    assert(reqs.last() is StartChat);
    let (id, name) = i1->0;
    let resps = rs.push(o.response);
    let k = choose|k: int|
        0 <= k < front.len() && #[trigger] authenticates(front[k], rs[k]) && request_name(front[k]) == name
            && rs[k] == (ResponseView::Success { user_id: id })
            && forall|j: int| k < j < front.len() ==> !authenticates(front[j], #[trigger] rs[j]);
    assert(reqs[k] == front[k] && resps[k] == rs[k]);
    assert(authenticates(reqs[k], resps[k]));
    assert forall|j: int| k < j < front.len() implies !authenticates(reqs[j], #[trigger] resps[j]) by {
        assert(reqs[j] == front[j] && resps[j] == rs[j]);
        assert(!authenticates(front[j], rs[j]));
    }
}

/// Registering a name that is already taken is refused with "User already
/// exists": the authenticated user, the users and the users to save stay as
/// they were, and the handshake goes on.
pub proof fn lemma_register_taken_is_refused(
    info: Option<(u64, Seq<char>)>,
    users: UserTable,
    username: Seq<char>,
    password: Seq<char>,
)
    requires
        users.dom().contains(username),
    ensures
        handshake_step(info, users, RequestView::Register { username, password }) == (HandshakeOutcome {
            info,
            users,
            response: ResponseView::Failure { reason: "User already exists"@ },
            done: None,
            added: Seq::empty(),
        }),
{
}

/// Registering a new name succeeds with the next id, one past the number of
/// users: the connection is authenticated as the new user, who is added to
/// the users and to those to save.
pub proof fn lemma_register_new_is_accepted(
    info: Option<(u64, Seq<char>)>,
    users: UserTable,
    username: Seq<char>,
    password: Seq<char>,
)
    requires
        !users.dom().contains(username),
        users.dom().len() < u64::MAX,
    ensures
        ({
            let id = (users.dom().len() + 1) as u64;
            handshake_step(info, users, RequestView::Register { username, password }) == (HandshakeOutcome {
                info: Some((id, username)),
                users: users.insert(username, (id, username, password)),
                response: ResponseView::Success { user_id: id },
                done: None,
                added: seq![(id, username, password)],
            })
        }),
{
}

/// A login answers "User not found" for an unknown name and "Invalid
/// password" for a wrong password, leaving the authenticated user as it
/// was; with the right password it succeeds with the user's id and
/// authenticates the connection as that user. A login never changes the
/// users nor starts the chat.
pub proof fn lemma_login_answers(
    info: Option<(u64, Seq<char>)>,
    users: UserTable,
    username: Seq<char>,
    password: Seq<char>,
)
    ensures
        ({
            let o = handshake_step(info, users, RequestView::Login { username, password });
            &&& o.users == users
            &&& o.done is None
            &&& o.added == Seq::<(u64, Seq<char>, Seq<char>)>::empty()
            &&& !users.dom().contains(username) ==> o.info == info && o.response == (ResponseView::Failure {
                reason: "User not found"@,
            })
            &&& users.dom().contains(username) && users[username].2 != password ==> o.info == info
                && o.response == (ResponseView::Failure { reason: "Invalid password"@ })
            &&& users.dom().contains(username) && users[username].2 == password ==> o.info == Some(
                (users[username].0, username),
            ) && o.response == (ResponseView::Success { user_id: users[username].0 })
        }),
{
}

/// A lookup answers the id of a known name and "User not found" for an
/// unknown one; it changes nothing else.
pub proof fn lemma_lookup_answers(info: Option<(u64, Seq<char>)>, users: UserTable, username: Seq<char>)
    ensures
        ({
            let o = handshake_step(info, users, RequestView::Lookup { username });
            &&& o.info == info
            &&& o.users == users
            &&& o.done is None
            &&& o.added == Seq::<(u64, Seq<char>, Seq<char>)>::empty()
            &&& users.dom().contains(username) ==> o.response == (ResponseView::LookupResult {
                user_id: users[username].0,
            })
            &&& !users.dom().contains(username) ==> o.response == (ResponseView::Failure {
                reason: "User not found"@,
            })
        }),
{
}

/// Asking to start chatting once authenticated succeeds with the user's id
/// and starts the chat as that user, leaving the handshake unauthenticated.
pub proof fn lemma_start_chat_when_authenticated(id: u64, name: Seq<char>, users: UserTable)
    ensures
        handshake_step(Some((id, name)), users, RequestView::StartChat) == (HandshakeOutcome {
            info: None,
            users,
            response: ResponseView::Success { user_id: id },
            done: Some((id, name)),
            added: Seq::empty(),
        }),
{
}

} // verus!
