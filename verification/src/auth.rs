//! What the client makes of the lines the user types before chatting.

use vstd::prelude::*;
use crate::client_error::ClientError;
use crate::message::{AuthRequest, RequestView};
use crate::text::{trim, trimmed, str_eq, all_white_space, is_white_space, lemma_trim_padding};

verus! {

/// Whitespace around the menu choice does not matter: a line holding "1" or
/// "2" between any whitespace is read as that choice (registration or login),
/// and a name between whitespace is read as the name.
pub proof fn lemma_choice_ignores_whitespace(p: Seq<char>, q: Seq<char>, name: Seq<char>)
    requires
        all_white_space(p),
        all_white_space(q),
        name.len() > 0 ==> !is_white_space(name[0]) && !is_white_space(name.last()),
    ensures
        trimmed(p + "1"@ + q) == "1"@,
        trimmed(p + "2"@ + q) == "2"@,
        trimmed(p + name + q) == name,
{
    reveal_strlit("1");
    reveal_strlit("2");
    lemma_trim_padding(p, "1"@, q);
    lemma_trim_padding(p, "2"@, q);
    lemma_trim_padding(p, name, q);
}

/// The prompts for credentials and for the recipient.
pub struct Auth;

impl Auth {
    /// The menu choice on `line`: "1" registers, "2" logs in; surrounding
    /// whitespace is ignored. Anything else is an invalid choice.
    pub fn parse_choice(line: &str) -> (r: Result<bool, ClientError>)
        ensures
            trimmed(line@) == "1"@ ==> r == Ok::<bool, ClientError>(true),
            trimmed(line@) == "2"@ ==> r == Ok::<bool, ClientError>(false),
            trimmed(line@) != "1"@ && trimmed(line@) != "2"@ ==> (r matches Err(
                ClientError::Handshake(m),
            ) && m@ == "Invalid choice"@),
    {
        let choice = trim(line);
        proof {
            reveal_strlit("1");
            reveal_strlit("2");
            assert("1"@[0] != "2"@[0]);
            assert("1"@ != "2"@);
        }
        if str_eq(choice, "1") {
            Ok(true)
        } else if str_eq(choice, "2") {
            Ok(false)
        } else {
            Err(ClientError::Handshake(String::from_str("Invalid choice")))
        }
    }

    /// The request that the user's answers make: registration or login with
    /// the name and password on the given lines, without surrounding
    /// whitespace.
    pub fn credentials(is_register: bool, username_line: &str, password_line: &str) -> (r: AuthRequest)
        ensures
            is_register ==> r@ == (RequestView::Register {
                username: trimmed(username_line@),
                password: trimmed(password_line@),
            }),
            !is_register ==> r@ == (RequestView::Login {
                username: trimmed(username_line@),
                password: trimmed(password_line@),
            }),
    {
        let username = String::from_str(trim(username_line));
        let password = String::from_str(trim(password_line));
        if is_register {
            AuthRequest::Register { username, password }
        } else {
            AuthRequest::Login { username, password }
        }
    }

    /// The recipient's name on `line`, without surrounding whitespace.
    pub fn recipient(line: &str) -> (r: String)
        ensures
            r@ == trimmed(line@),
    {
        String::from_str(trim(line))
    }
}

} // verus!
