//! Posting a message to a Discord webhook: the request's address and body,
//! and which answer counts as delivered.
use vstd::prelude::*;
use crate::weburl::{parse_url, url_serialization};

verus! {

/// The webhook's address before parsing.
pub open spec fn webhook_text(channel_id: Seq<char>, token: Seq<char>) -> Seq<char> {
    "https://discordapp.com/api/webhooks/"@ + channel_id + "/"@ + token
}

/// The JSON body that carries `msg`, which is put in as it is (the caller
/// escapes it).
pub open spec fn payload(msg: Seq<char>) -> Seq<char> {
    "{\n\t\"content\": \""@ + msg + "\"\n}"@
}

/// The webhook URL of channel `channel_id` with `token`, parsed.
pub fn webhook_url(channel_id: &str, token: &str) -> (r: Result<String, url::ParseError>)
    ensures
        r is Ok <==> url_serialization(webhook_text(channel_id@, token@)) is Some,
        r matches Ok(u) ==> url_serialization(webhook_text(channel_id@, token@)) == Some(u@),
{
    let mut text = String::from_str("https://discordapp.com/api/webhooks/");
    text.append(channel_id);
    text.append("/");
    text.append(token);
    parse_url(text.as_str())
}

/// The JSON body of a webhook request that posts `msg`.
pub fn discord_payload(msg: &str) -> (r: String)
    ensures
        r@ == payload(msg@),
{
    let mut body = String::from_str("{\n\t\"content\": \"");
    body.append(msg);
    body.append("\"\n}");
    body
}

/// Whether a webhook answer with HTTP status `status` means the message
/// was delivered: only 204 No Content does.
pub fn is_delivered(status: u16) -> (b: bool)
    ensures
        b == (status == 204),
{
    status == 204
}

} // verus!
