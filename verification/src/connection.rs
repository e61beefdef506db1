//! One exchange on a control connection: what a chunk of received bytes
//! asks for, and what is written back.

use vstd::prelude::*;
use vstd::utf8::{decode_utf8, encode_utf8, valid_utf8};

use crate::json::{duplicate, json_get, json_index, parse_json, parsed_json, Json, JsonValue};
use crate::text::{owned, str_eq, trim, trim_end_nul, trim_trailing_nul, trim_whitespace};

verus! {

/// The text of `bytes`, with each invalid UTF-8 sequence replaced by
/// U+FFFD (`String::from_utf8_lossy`).
pub uninterp spec fn utf8_lossy(bytes: Seq<u8>) -> Seq<char>;

/// Trusted: `String::from_utf8_lossy`. Its result is named; std documents
/// that a valid UTF-8 input is returned as it is, which the second clause
/// states.
#[verifier::external_body]
fn decode_lossy(bytes: &[u8]) -> (s: String)
    ensures
        s@ == utf8_lossy(bytes@),
        valid_utf8(bytes@) ==> s@ == decode_utf8(bytes@),
{
    String::from_utf8_lossy(bytes).into_owned()
}

/// A keep-alive probe: `ping` or `heartbeat`, or any text shorter than ten
/// bytes in UTF-8 that does not open a JSON object or array.
pub open spec fn is_heartbeat(clean: Seq<char>) -> bool {
    ||| clean == "ping"@
    ||| clean == "heartbeat"@
    ||| (encode_utf8(clean).len() < 10 && !(clean.len() > 0 && (clean[0] == '{' || clean[0] == '[')))
}

/// The request text of a chunk of received bytes: decoded, without the
/// trailing NUL padding.
pub open spec fn request_text(data: Seq<u8>) -> Seq<char> {
    trim_end_nul(utf8_lossy(data))
}

/// What to do with a chunk of bytes read from a control connection.
pub enum ConnStep {
    /// The peer closed the connection.
    Close,
    /// Write this text back and wait for the next request.
    Reply(String),
    /// Parse this text as JSON and hand it to `route_request`.
    Parse(String),
}

/// The step for the bytes of one read: an empty read closes the
/// connection, a keep-alive probe is answered `pong`, anything else is
/// parsed as a JSON request.
pub fn handle_read(data: &[u8]) -> (step: ConnStep)
    ensures
        valid_utf8(data@) ==> request_text(data@) == trim_end_nul(decode_utf8(data@)),
        data@.len() == 0 ==> step is Close,
        data@.len() != 0 ==> (if is_heartbeat(trim(request_text(data@))) {
            step matches ConnStep::Reply(r) && r@ == "pong"@
        } else {
            step matches ConnStep::Parse(t) && t@ == request_text(data@)
        }),
{
    let decoded = decode_lossy(data);
    if data.len() == 0 {
        return ConnStep::Close;
    }
    let text = trim_trailing_nul(decoded.as_str());
    let clean = trim_whitespace(text);
    let opens_json = clean.unicode_len() > 0 && (clean.get_char(0) == '{' || clean.get_char(0)
        == '[');
    let short = clean.as_bytes().len() < 10;
    assert(opens_json == (clean@.len() > 0 && (clean@[0] == '{' || clean@[0] == '[')));
    assert(short == (encode_utf8(clean@).len() < 10));
    if str_eq(clean, "ping") || str_eq(clean, "heartbeat") || (short && !opens_json) {
        ConnStep::Reply(owned("pong"))
    } else {
        ConnStep::Parse(owned(text))
    }
}

/// What a parsed request asks for.
pub enum Request {
    /// Write this text back.
    Reply(String),
    /// Run the handler for `action` on `payload`.
    Dispatch { action: String, payload: JsonValue },
}

/// The reply to a request that is not JSON, with the parser's message.
pub open spec fn parse_error_text(message: Seq<char>) -> Seq<char> {
    "{\"error\": \"Invalid JSON format: "@ + message + "\"}\n"@
}

/// The reply to a request without a string `action` member.
pub open spec fn missing_action_text() -> Seq<char> {
    "{\"error\": \"Missing 'action' field\"}\n"@
}

/// `req` is what the parse result `parsed` asks for: the error reply when
/// it is not JSON, else the `action` member (a string) with the `payload`
/// member (`null` when absent), else the missing-action reply.
pub open spec fn is_request_for(parsed: Result<Json, Seq<char>>, req: Request) -> bool {
    match parsed {
        Err(e) => req matches Request::Reply(r) && r@ == parse_error_text(e),
        Ok(v) => match json_get(v, "action"@) {
            Some(Json::Str(a)) => req matches Request::Dispatch { action, payload } && action@ == a
                && payload@ == json_index(v, "payload"@),
            _ => req matches Request::Reply(r) && r@ == missing_action_text(),
        },
    }
}

/// A parse result as plain values.
pub open spec fn parse_view(parsed: Result<JsonValue, String>) -> Result<Json, Seq<char>> {
    match parsed {
        Ok(v) => Ok(v@),
        Err(e) => Err(e@),
    }
}

/// The request text as `handle_read` passed it on: parsed as JSON, then
/// taken apart by `route_request`.
pub fn handle_request(text: &str) -> (req: Request)
    ensures
        is_request_for(parsed_json(text@), req),
{
    let parsed = parse_json(text);
    route_request(&parsed)
}

/// The request that a parse result makes.
pub fn route_request(parsed: &Result<JsonValue, String>) -> (req: Request)
    ensures
        is_request_for(parse_view(*parsed), req),
{
    match parsed {
        Err(e) => {
            let mut r = owned("{\"error\": \"Invalid JSON format: ");
            r.append(e.as_str());
            r.append("\"}\n");
            Request::Reply(r)
        },
        Ok(v) => {
            let action = match v.get("action") {
                Some(a) => a.as_str(),
                None => None,
            };
            match action {
                Some(a) => {
                    let payload = match v.get("payload") {
                        Some(p) => duplicate(p),
                        None => JsonValue::Null,
                    };
                    Request::Dispatch { action: owned(a), payload }
                },
                None => Request::Reply(owned("{\"error\": \"Missing 'action' field\"}\n")),
            }
        },
    }
}

/// A handler's response as written to the connection: followed by a line
/// break.
pub fn frame_response(response: &str) -> (framed: String)
    ensures
        framed@ == response@ + "\n"@,
{
    let mut framed = owned(response);
    framed.append("\n");
    framed
}

} // verus!
