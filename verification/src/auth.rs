//! Basic authentication: reading the `Authorization` header and judging
//! what it presents against the configured credentials.

use crate::b64::base64_bytes;
use crate::b64::decode_string;
use crate::b64::decoded_text;
use crate::config::Credential;
use crate::text::same_text;
use crate::text::split_at_first;
use crate::text::split_once;
use vstd::prelude::*;

verus! {

/// What the pipeline does with a request after looking at its credentials.
#[derive(Debug, Clone, Copy, PartialEq, Eq, Structural)]
pub enum Verdict {
    /// The request goes on.
    Granted,
    /// No usable credentials: status 401 with a challenge.
    Challenge,
    /// Credentials that match no configured pair: status 403.
    Denied,
}

/// The password configured for `user` at or after place `from`, where the
/// first entry with that name counts.
pub open spec fn password_from(credentials: Seq<Credential>, user: Seq<char>, from: int) -> Option<
    Seq<char>,
>
    decreases credentials.len() - from,
{
    if from < 0 || from >= credentials.len() {
        None
    } else if credentials[from].username@ == user {
        Some(credentials[from].password@)
    } else {
        password_from(credentials, user, from + 1)
    }
}

/// The verdict on the text that a token decodes to: `user:password`.
pub open spec fn verdict_on_text(credentials: Seq<Credential>, presented: Option<Seq<char>>) -> Verdict {
    match presented {
        None => Verdict::Challenge,
        Some(text) => match split_at_first(text, ':') {
            None => Verdict::Challenge,
            Some((user, password)) => if password_from(credentials, user, 0) == Some(password) {
                Verdict::Granted
            } else {
                Verdict::Denied
            },
        },
    }
}

/// The text that the header presents: what stands after the first space,
/// decoded from base64.
pub open spec fn presented_text(header: Seq<char>) -> Option<Seq<char>> {
    match split_at_first(header, ' ') {
        None => None,
        Some((_, token)) => match decoded_text(base64_bytes(token)) {
            Ok(text) => Some(text),
            Err(_) => None,
        },
    }
}

/// The verdict on a request with the given `Authorization` header.
pub open spec fn verdict(credentials: Seq<Credential>, authorization: Option<Seq<char>>) -> Verdict {
    if credentials.len() == 0 {
        Verdict::Granted
    } else {
        match authorization {
            None => Verdict::Challenge,
            Some(header) => verdict_on_text(credentials, presented_text(header)),
        }
    }
}

/// Looks up the password configured for `user`.
fn password_of<'a>(credentials: &'a Vec<Credential>, user: &str) -> (password: Option<&'a String>)
    ensures
        match password {
            Some(p) => password_from(credentials@, user@, 0) == Some(p@),
            None => password_from(credentials@, user@, 0) is None,
        },
{
    let mut i: usize = 0;
    while i < credentials.len()
        invariant
            i <= credentials@.len(),
            password_from(credentials@, user@, 0) == password_from(credentials@, user@, i as int),
        decreases credentials@.len() - i,
    {
        if same_text(credentials[i].username.as_str(), user) {
            return Some(&credentials[i].password);
        }
        i = i + 1;
    }
    None
}

/// Judges the text that a token decoded to, or the lack of it. Text without
/// a colon is no credential; a user that is not configured, or a password
/// that differs from the configured one, is denied.
pub fn judge(credentials: &Vec<Credential>, presented: Option<&str>) -> (outcome: Verdict)
    ensures
        outcome == verdict_on_text(
            credentials@,
            match presented {
                Some(text) => Some(text@),
                None => None,
            },
        ),
{
    match presented {
        None => Verdict::Challenge,
        Some(text) => match split_once(text, ':') {
            None => Verdict::Challenge,
            Some((user, password)) => match password_of(credentials, user.as_str()) {
                Some(expected) => if same_text(expected.as_str(), password.as_str()) {
                    Verdict::Granted
                } else {
                    Verdict::Denied
                },
                None => Verdict::Denied,
            },
        },
    }
}

/// Judges a request by its `Authorization` header. Without configured
/// credentials every request is granted.
pub fn authorize(credentials: &Vec<Credential>, authorization: Option<&str>) -> (outcome: Verdict)
    ensures
        outcome == verdict(
            credentials@,
            match authorization {
                Some(header) => Some(header@),
                None => None,
            },
        ),
{
    if credentials.len() == 0 {
        return Verdict::Granted;
    }
    match authorization {
        None => Verdict::Challenge,
        Some(header) => match split_once(header, ' ') {
            None => Verdict::Challenge,
            Some((_, token)) => match decode_string(token.as_str()) {
                Ok(text) => judge(credentials, Some(text.as_str())),
                Err(_) => judge(credentials, None),
            },
        },
    }
}

} // verus!
