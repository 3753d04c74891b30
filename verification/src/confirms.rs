//! The compute side of confirmation dispatch: which queue a channel's
//! notices go to, and the notice itself. Publishing the framed bytes to
//! the broker is the surrounding program's job.

use vstd::prelude::*;

use vstd::string::StrSliceExecFns;
use vstd::string::StringExecFns;

use crate::codec::{encode_confirmation, spec_encode_confirmation, ConfirmationMessage};
use crate::models::Login;
use crate::store::login_value;

verus! {

/// The queue that carries confirmations for the channel of `login`.
pub open spec fn spec_confirmation_queue(login: Login) -> Seq<char> {
    match login {
        Login::Email(_) => "confirmations_email"@,
        Login::Phone(_) => "confirmations_phone"@,
    }
}

/// Names the queue that carries confirmations for this channel.
pub fn confirmation_queue(login: &Login) -> (q: &'static str)
    ensures
        q@ == spec_confirmation_queue(*login),
{
    match login {
        Login::Email(_) => "confirmations_email",
        Login::Phone(_) => "confirmations_phone",
    }
}

/// The URL a confirmation notice asks the user to visit.
pub open spec fn spec_confirmation_url(token: Seq<char>) -> Seq<char> {
    "https://hw.sskvor.dev/v1/confirm?token="@ + token
}

/// Builds the notice for a pending login: the login value and the
/// confirmation URL carrying the token.
pub fn confirmation_message(login: &Login, token: &String) -> (m: ConfirmationMessage)
    ensures
        m.login@ == login_value(*login),
        m.url@ == spec_confirmation_url(token@),
{
    let value = match login {
        Login::Email(e) => e.clone(),
        Login::Phone(p) => p.clone(),
    };
    let mut url = String::from_str("https://hw.sskvor.dev/v1/confirm?token=");
    url.append(token.as_str());
    ConfirmationMessage { login: value, url }
}

/// Builds the full payload for one confirmation: the queue to publish on
/// and the framed notice.
pub fn confirmation_payload(login: &Login, token: &String) -> (r: (&'static str, Vec<u8>))
    ensures
        r.0@ == spec_confirmation_queue(*login),
        r.1@ == spec_encode_confirmation(login_value(*login), spec_confirmation_url(token@)),
{
    let message = confirmation_message(login, token);
    let bytes = encode_confirmation(&message);
    (confirmation_queue(login), bytes)
}

/// The body of the email a confirmation notice turns into.
pub fn confirmation_email_text(url: &String) -> (t: String)
    ensures
        t@ == "Visit "@ + url@ + " to confirm your email"@,
{
    let mut text = String::from_str("Visit ");
    text.append(url.as_str());
    text.append(" to confirm your email");
    text
}

/// The body of the text message a confirmation notice turns into.
pub fn confirmation_sms_text(url: &String) -> (t: String)
    ensures
        t@ == "Visit "@ + url@ + " to confirm your phone"@,
{
    let mut text = String::from_str("Visit ");
    text.append(url.as_str());
    text.append(" to confirm your phone");
    text
}

} // verus!
