//! The client's course through a session: it authenticates, chooses a
//! recipient, chats, and on an error asks whether to start again. The work
//! of each stage (prompts, network, the chat view) is done by the caller,
//! which hands over what came of it; this module decides the next stage.

use vstd::prelude::*;
use crate::client_error::ClientError;
use crate::text::{trim, to_lowercase, trimmed, lowercased, str_eq};

verus! {

/// The stage the client is in.
pub enum ClientState {
    Initial,
    Authenticating,
    SelectingRecipient { from_id: u64 },
    Chatting { from_id: u64, to_id: u64 },
    Error(ClientError),
    Terminated,
}

/// What came of the work of a stage.
pub enum Event {
    /// The banner of a new session was shown.
    Started,
    /// Reading the user's answers failed.
    InputFailed(ClientError),
    /// Connecting and authenticating ended: the user's id, or the error.
    Authenticated(Result<u64, ClientError>),
    /// Looking up the recipient ended: its id with what came of starting the
    /// chat, or the lookup's error.
    RecipientChosen(Result<(u64, Result<(), ClientError>), ClientError>),
    /// The chat view was left, normally or with an error.
    ChatEnded(Result<(), ClientError>),
    /// The user answered whether to try again after an error.
    RetryAnswered(bool),
    /// The farewell was shown.
    Closed,
}

/// Where the client goes next: another stage, or the end of the program
/// with its result.
pub enum Step {
    Continue(ClientState),
    Finish(Result<(), ClientError>),
}

/// The client's next stage after `state` given `event`.
pub open spec fn transition(state: ClientState, event: Event) -> Step {
    match (state, event) {
        (ClientState::Initial, _) => Step::Continue(ClientState::Authenticating),
        (ClientState::Authenticating, Event::InputFailed(e)) => Step::Finish(Err(e)),
        (ClientState::Authenticating, Event::Authenticated(Ok(from_id))) => Step::Continue(
            ClientState::SelectingRecipient { from_id },
        ),
        (ClientState::Authenticating, Event::Authenticated(Err(e))) => Step::Continue(
            ClientState::Error(e),
        ),
        (ClientState::SelectingRecipient { .. }, Event::InputFailed(e)) => Step::Finish(Err(e)),
        (ClientState::SelectingRecipient { from_id }, Event::RecipientChosen(Ok((to_id, Ok(()))))) => Step::Continue(
            ClientState::Chatting { from_id, to_id },
        ),
        (ClientState::SelectingRecipient { .. }, Event::RecipientChosen(Ok((_, Err(e))))) => Step::Continue(
            ClientState::Error(e),
        ),
        (ClientState::SelectingRecipient { from_id }, Event::RecipientChosen(Err(_))) => Step::Continue(
            ClientState::SelectingRecipient { from_id },
        ),
        (ClientState::Chatting { .. }, Event::ChatEnded(Ok(()))) => Step::Continue(ClientState::Terminated),
        (ClientState::Chatting { .. }, Event::ChatEnded(Err(e))) => Step::Continue(ClientState::Error(e)),
        (ClientState::Error(_), Event::RetryAnswered(true)) => Step::Continue(ClientState::Initial),
        (ClientState::Error(e), Event::RetryAnswered(false)) => Step::Finish(Err(e)),
        (ClientState::Terminated, _) => Step::Finish(Ok(())),
        (s, _) => Step::Continue(s),
    }
}

/// A session goes from authentication to choosing a recipient with the id
/// the server gave, and from there to chatting as that id with the chosen
/// recipient; a failed lookup keeps the client choosing, and an error of
/// any other stage leads to the error stage.
pub proof fn lemma_session_course(from_id: u64, to_id: u64, e: ClientError)
    ensures
        transition(ClientState::Initial, Event::Started) == Step::Continue(ClientState::Authenticating),
        transition(ClientState::Authenticating, Event::Authenticated(Ok(from_id))) == Step::Continue(
            ClientState::SelectingRecipient { from_id },
        ),
        transition(
            ClientState::SelectingRecipient { from_id },
            Event::RecipientChosen(Ok((to_id, Ok(())))),
        ) == Step::Continue(ClientState::Chatting { from_id, to_id }),
        transition(ClientState::SelectingRecipient { from_id }, Event::RecipientChosen(Err(e)))
            == Step::Continue(ClientState::SelectingRecipient { from_id }),
        transition(ClientState::Authenticating, Event::Authenticated(Err(e))) == Step::Continue(
            ClientState::Error(e),
        ),
        transition(ClientState::Chatting { from_id, to_id }, Event::ChatEnded(Err(e)))
            == Step::Continue(ClientState::Error(e)),
{
}

/// After an error the client starts over when the user asks to, and
/// otherwise ends with that error; a session that ended normally ends the
/// program without error.
pub proof fn lemma_error_and_end(e: ClientError, from_id: u64, to_id: u64)
    ensures
        transition(ClientState::Error(e), Event::RetryAnswered(true)) == Step::Continue(ClientState::Initial),
        transition(ClientState::Error(e), Event::RetryAnswered(false)) == Step::Finish(Err::<(), ClientError>(e)),
        transition(ClientState::Chatting { from_id, to_id }, Event::ChatEnded(Ok(()))) == Step::Continue(
            ClientState::Terminated,
        ),
        transition(ClientState::Terminated, Event::Closed) == Step::Finish(Ok::<(), ClientError>(())),
{
}

/// When reading the user's answers fails while authenticating or choosing a
/// recipient, the program ends with that very error; and the program ends
/// without error only from the stage after a chat that ended normally, so
/// no error is ever turned into a success.
pub proof fn lemma_errors_are_not_dropped(state: ClientState, event: Event, e: ClientError, from_id: u64)
    ensures
        transition(ClientState::Authenticating, Event::InputFailed(e)) == Step::Finish(Err::<(), ClientError>(e)),
        transition(ClientState::SelectingRecipient { from_id }, Event::InputFailed(e)) == Step::Finish(
            Err::<(), ClientError>(e),
        ),
        (transition(state, event) == Step::Finish(Ok::<(), ClientError>(()))) <==> state is Terminated,
        transition(state, event) matches Step::Finish(Err(x)) ==> (event == Event::InputFailed(x) || (state
            == ClientState::Error(x) && event == Event::RetryAnswered(false))),
{
}

/// The client of one chat server.
pub struct ClientConnection {
    addr: String,
}

impl ClientConnection {
    /// A client of the server at `addr`.
    pub fn new(addr: &str) -> (r: ClientConnection)
        ensures
            r.addr()@ == addr@,
    {
        ClientConnection { addr: String::from_str(addr) }
    }

    /// The server's address.
    pub closed spec fn addr(&self) -> String {
        self.addr
    }

    /// The server's address.
    pub fn address(&self) -> (r: &str)
        ensures
            r@ == self.addr()@,
    {
        self.addr.as_str()
    }

    /// Whether the answer on `line` asks to try again: it is "y" in any case,
    /// surrounding whitespace ignored.
    pub fn wants_retry(line: &str) -> (r: bool)
        ensures
            r == (lowercased(trimmed(line@)) == "y"@),
    {
        let answer = to_lowercase(trim(line));
        str_eq(answer.as_str(), "y")
    }

    /// The stage after `state`, given what came of its work.
    pub fn next_state(state: ClientState, event: Event) -> (r: Step)
        ensures
            r == transition(state, event),
    {
        match state {
            ClientState::Initial => Step::Continue(ClientState::Authenticating),
            ClientState::Authenticating => match event {
                Event::InputFailed(e) => Step::Finish(Err(e)),
                Event::Authenticated(Ok(from_id)) => Step::Continue(
                    ClientState::SelectingRecipient { from_id },
                ),
                Event::Authenticated(Err(e)) => Step::Continue(ClientState::Error(e)),
                _ => Step::Continue(ClientState::Authenticating),
            },
            ClientState::SelectingRecipient { from_id } => match event {
                Event::InputFailed(e) => Step::Finish(Err(e)),
                Event::RecipientChosen(Ok((to_id, Ok(())))) => Step::Continue(
                    ClientState::Chatting { from_id, to_id },
                ),
                Event::RecipientChosen(Ok((_, Err(e)))) => Step::Continue(ClientState::Error(e)),
                Event::RecipientChosen(Err(_)) => Step::Continue(
                    ClientState::SelectingRecipient { from_id },
                ),
                _ => Step::Continue(ClientState::SelectingRecipient { from_id }),
            },
            ClientState::Chatting { from_id, to_id } => match event {
                Event::ChatEnded(Ok(())) => Step::Continue(ClientState::Terminated),
                Event::ChatEnded(Err(e)) => Step::Continue(ClientState::Error(e)),
                _ => Step::Continue(ClientState::Chatting { from_id, to_id }),
            },
            ClientState::Error(e) => match event {
                Event::RetryAnswered(true) => Step::Continue(ClientState::Initial),
                Event::RetryAnswered(false) => Step::Finish(Err(e)),
                _ => Step::Continue(ClientState::Error(e)),
            },
            ClientState::Terminated => Step::Finish(Ok(())),
        }
    }
}

} // verus!
