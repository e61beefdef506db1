//! The messages this program sends to the plugin host and to its own
//! control API, and where each goes.

use vstd::prelude::*;

use crate::handlers::{status_word, status_word_of};
use crate::text::{hex_lower, owned, str_eq, to_hex_lower};

verus! {

/// The local port of the plugin host, which collects the logs.
pub const PLUGIN_PORT: u16 = 9877;

/// The local port of this program's own plugin listener.
pub const SELF_PORT: u16 = 9876;

/// A message to write to a TCP connection on `127.0.0.1:port`.
pub struct Outgoing {
    pub port: u16,
    pub message: String,
}

/// The client id: the third command line argument when there are more than
/// one, else the empty string.
pub open spec fn client_id_spec(args: Seq<Seq<char>>) -> Seq<char> {
    if args.len() > 1 {
        args[2]
    } else {
        Seq::empty()
    }
}

/// The client id, from this process's command line arguments (program name
/// first). With exactly two arguments there is no third one to take.
pub fn get_client_id(args: &Vec<String>) -> (id: String)
    requires
        args@.len() != 2,
    ensures
        id@ == client_id_spec(crate::text::views(args@)),
{
    if args.len() > 1 {
        assert(crate::text::views(args@)[2] == args@[2]@);
        owned(args[2].as_str())
    } else {
        String::new()
    }
}

/// A message laid out as the plugin host reads it: one `"key": "value"`
/// member per line, indented by four spaces.
pub open spec fn member_line(key: Seq<char>, value: Seq<char>) -> Seq<char> {
    "    \""@ + key + "\": \""@ + value + "\""@
}

fn push_member_line(msg: &mut String, key: &str, value: &str)
    ensures
        final(msg)@ == old(msg)@ + member_line(key@, value@),
{
    msg.append("    \"");
    msg.append(key);
    msg.append("\": \"");
    msg.append(value);
    msg.append("\"");
    assert(msg@ =~= old(msg)@ + member_line(key@, value@));
}

/// The online status message for a rendezvous connection state.
pub open spec fn online_status_text(online_state: int) -> Seq<char> {
    "{\n"@ + member_line("type"@, "online_status"@) + ",\n"@ + member_line(
        "status"@,
        status_word(online_state),
    ) + "\n}"@
}

/// The online status message, given the rendezvous connection state.
pub fn get_server_status(online_state: i64) -> (msg: String)
    ensures
        msg@ == online_status_text(online_state as int),
{
    let mut msg = owned("{\n");
    push_member_line(&mut msg, "type", "online_status");
    msg.append(",\n");
    push_member_line(&mut msg, "status", status_word_of(online_state));
    msg.append("\n}");
    assert(msg@ =~= online_status_text(online_state as int));
    msg
}

/// The screen recording log message.
pub open spec fn screen_record_text(id: Seq<char>, record_type: Seq<char>, target_id: Seq<char>) -> Seq<
    char,
> {
    "{\n"@ + member_line("type"@, "screen_record"@) + ",\n"@ + member_line("id"@, id) + ",\n"@
        + member_line("record_type"@, record_type) + ",\n"@ + member_line("target_id"@, target_id)
        + "\n}"@
}

fn screen_record_message(id: &str, record_type: &str, target_id: &str) -> (msg: String)
    ensures
        msg@ == screen_record_text(id@, record_type@, target_id@),
{
    let mut msg = owned("{\n");
    push_member_line(&mut msg, "type", "screen_record");
    msg.append(",\n");
    push_member_line(&mut msg, "id", id);
    msg.append(",\n");
    push_member_line(&mut msg, "record_type", record_type);
    msg.append(",\n");
    push_member_line(&mut msg, "target_id", target_id);
    msg.append("\n}");
    assert(msg@ =~= screen_record_text(id@, record_type@, target_id@));
    msg
}

/// The screen recording log for the plugin host, given this process's
/// command line arguments.
pub fn send_screen_record_log_data(record_type: &str, target_id: &str, args: &Vec<String>) -> (out:
    Outgoing)
    requires
        args@.len() != 2,
    ensures
        out.port == PLUGIN_PORT,
        out.message@ == screen_record_text(
            client_id_spec(crate::text::views(args@)),
            record_type@,
            target_id@,
        ),
{
    let id = get_client_id(args);
    Outgoing { port: PLUGIN_PORT, message: screen_record_message(id.as_str(), record_type, target_id) }
}

/// The file whose digest goes with a transfer log: the sent file for
/// `SEND_FILE`, the target path for `RECEIVE_FILE`, else no file.
pub open spec fn file_to_hash_spec(transfer_type: Seq<char>, to_path: Seq<char>, file_name: Seq<char>) -> Seq<
    char,
> {
    if transfer_type == "SEND_FILE"@ {
        file_name
    } else if transfer_type == "RECEIVE_FILE"@ {
        to_path
    } else {
        Seq::empty()
    }
}

/// The path of the file to digest for a transfer log.
pub fn file_to_hash<'a>(transfer_type: &str, to_path: &'a str, file_name: &'a str) -> (path: &'a str)
    ensures
        path@ == file_to_hash_spec(transfer_type@, to_path@, file_name@),
{
    if str_eq(transfer_type, "SEND_FILE") {
        file_name
    } else if str_eq(transfer_type, "RECEIVE_FILE") {
        to_path
    } else {
        proof {
            reveal_strlit("");
        }
        ""
    }
}

/// The MD5 digest of `data`.
pub uninterp spec fn md5_of(data: Seq<u8>) -> Seq<u8>;

/// Trusted: `md5::compute`, whose `Digest` holds the 16 bytes of the MD5
/// digest of its input; the digest itself is named, not described.
#[verifier::external_body]
fn md5_digest(data: &[u8]) -> (digest: Vec<u8>)
    ensures
        digest@ == md5_of(data@),
        digest@.len() == 16,
{
    md5::compute(data).0.to_vec()
}

/// The digest text of a transfer log: the lower-case hex MD5 digest of the
/// file's contents, or the empty string when the file could not be read.
pub open spec fn file_md5_spec(contents: Option<Seq<u8>>) -> Seq<char> {
    match contents {
        Some(bytes) => hex_lower(md5_of(bytes)),
        None => Seq::empty(),
    }
}

/// The digest text of a transfer log, given the file's contents if they
/// could be read.
pub fn file_md5_text(contents: Option<&[u8]>) -> (text: String)
    ensures
        text@ == file_md5_spec(
            match contents {
                Some(b) => Some(b@),
                None => None,
            },
        ),
{
    match contents {
        Some(bytes) => {
            let digest = md5_digest(bytes);
            to_hex_lower(digest.as_slice())
        },
        None => String::new(),
    }
}

/// The file transfer log message.
pub open spec fn file_transfer_text(
    id: Seq<char>,
    transfer_type: Seq<char>,
    to_path: Seq<char>,
    file_name: Seq<char>,
    file_md5: Seq<char>,
) -> Seq<char> {
    "{\n"@ + member_line("type"@, "file_transfer"@) + ",\n"@ + member_line("id"@, id) + ",\n"@
        + member_line("transfer_type"@, transfer_type) + ",\n"@ + member_line("to_path"@, to_path)
        + ",\n"@ + member_line("file_name"@, file_name) + ",\n"@ + member_line("file_md5"@, file_md5)
        + "\n}"@
}

/// The file transfer log for the plugin host, given the contents of the
/// file named by `file_to_hash` (if it could be read) and this process's
/// command line arguments.
pub fn send_file_transfer_log_data(
    transfer_type: &str,
    to_path: &str,
    file_name: &str,
    file_contents: Option<&[u8]>,
    args: &Vec<String>,
) -> (out: Outgoing)
    requires
        args@.len() != 2,
    ensures
        out.port == PLUGIN_PORT,
        out.message@ == file_transfer_text(
            client_id_spec(crate::text::views(args@)),
            transfer_type@,
            to_path@,
            file_name@,
            file_md5_spec(
                match file_contents {
                    Some(b) => Some(b@),
                    None => None,
                },
            ),
        ),
{
    let file_md5 = file_md5_text(file_contents);
    let id = get_client_id(args);
    let mut msg = owned("{\n");
    push_member_line(&mut msg, "type", "file_transfer");
    msg.append(",\n");
    push_member_line(&mut msg, "id", id.as_str());
    msg.append(",\n");
    push_member_line(&mut msg, "transfer_type", transfer_type);
    msg.append(",\n");
    push_member_line(&mut msg, "to_path", to_path);
    msg.append(",\n");
    push_member_line(&mut msg, "file_name", file_name);
    msg.append(",\n");
    push_member_line(&mut msg, "file_md5", file_md5.as_str());
    msg.append("\n}");
    assert(msg@ =~= file_transfer_text(id@, transfer_type@, to_path@, file_name@, file_md5@));
    Outgoing { port: PLUGIN_PORT, message: msg }
}

pub open spec fn is_digit(c: char) -> bool {
    '0' <= c && c <= '9'
}

/// `-MM-DD HH:MM:SS.mmm`: the part of a time stamp after the year.
pub open spec fn is_time_tail(t: Seq<char>) -> bool {
    &&& t.len() == 19
    &&& t[0] == '-' && is_digit(t[1]) && is_digit(t[2])
    &&& t[3] == '-' && is_digit(t[4]) && is_digit(t[5])
    &&& t[6] == ' ' && is_digit(t[7]) && is_digit(t[8])
    &&& t[9] == ':' && is_digit(t[10]) && is_digit(t[11])
    &&& t[12] == ':' && is_digit(t[13]) && is_digit(t[14])
    &&& t[15] == '.' && is_digit(t[16]) && is_digit(t[17]) && is_digit(t[18])
}

/// The year as `%Y` writes it: four digits for the years 0 to 9999, else a
/// sign and at least five digits. The clock is read only from 1970 on, so in
/// any time zone the year is at least 1969.
pub open spec fn is_year_text(y: Seq<char>) -> bool {
    ||| (y.len() == 4 && forall|i: int| 0 <= i < 4 ==> is_digit(#[trigger] y[i]))
    ||| (y.len() >= 6 && y[0] == '+' && forall|i: int| 1 <= i < y.len() ==> is_digit(#[trigger] y[i]))
}

/// A local time stamp in the form `%Y-%m-%d %H:%M:%S%.3f`, such as
/// `2021-08-25 15:00:00.000`: 23 characters for years before 10000.
pub open spec fn is_time_stamp(t: Seq<char>) -> bool {
    &&& t.len() >= 23
    &&& is_year_text(t.subrange(0, t.len() - 19))
    &&& is_time_tail(t.subrange(t.len() - 19, t.len() as int))
}

/// The current local time as `%Y-%m-%d %H:%M:%S%.3f`, or `None` when the
/// system clock reads before 1970 or beyond what chrono can represent.
///
/// Trusted: what `chrono::Local::now` does (`SystemTime::now` since the Unix
/// epoch, `DateTime::from_timestamp`, `with_timezone(&Local)`), with the two
/// failures where `Utc::now` panics turned into `None`, then
/// `DateTime::format`. chrono writes the year as four zero-padded digits (a
/// sign and more digits outside 0..=9999), month, day, hour, minute and
/// second as two zero-padded digits each, and `%.3f` as a point and three
/// digits; the contract states that shape. Which time it is, and whether the
/// clock can be read, depends on the machine and is not stated.
#[verifier::external_body]
fn local_time_text() -> (t: Option<String>)
    ensures
        t matches Some(s) ==> is_time_stamp(s@),
{
    let since = std::time::SystemTime::now().duration_since(std::time::UNIX_EPOCH).ok()?;
    let secs = i64::try_from(since.as_secs()).ok()?;
    let utc = chrono::DateTime::from_timestamp(secs, since.subsec_nanos())?;
    Some(utc.with_timezone(&chrono::Local).format("%Y-%m-%d %H:%M:%S%.3f").to_string())
}

/// The connection status message, stamped with `time`.
pub open spec fn connection_status_text(client_id: Seq<char>, status: Seq<char>, time: Seq<char>) -> Seq<
    char,
> {
    "{\n"@ + member_line("type"@, "connection_status"@) + ",\n"@ + member_line(
        "client_id"@,
        client_id,
    ) + ",\n"@ + member_line("status"@, status) + ",\n"@ + member_line("time"@, time) + "\n}"@
}

/// The connection status message for the given time text.
pub fn connection_status_message(client_id: &str, status: &str, time: &str) -> (msg: String)
    ensures
        msg@ == connection_status_text(client_id@, status@, time@),
{
    let mut msg = owned("{\n");
    push_member_line(&mut msg, "type", "connection_status");
    msg.append(",\n");
    push_member_line(&mut msg, "client_id", client_id);
    msg.append(",\n");
    push_member_line(&mut msg, "status", status);
    msg.append(",\n");
    push_member_line(&mut msg, "time", time);
    msg.append("\n}");
    assert(msg@ =~= connection_status_text(client_id@, status@, time@));
    msg
}

/// The connection status message, stamped with the current local time;
/// `None` when the system clock cannot be read as a date.
pub fn get_connection_status(client_id: &str, status: &str) -> (msg: Option<String>)
    ensures
        msg matches Some(m) ==> exists|time: Seq<char>|
            is_time_stamp(time) && m@ == #[trigger] connection_status_text(client_id@, status@, time),
{
    match local_time_text() {
        Some(time) => Some(connection_status_message(client_id, status, time.as_str())),
        None => None,
    }
}

/// The online status for the plugin host.
pub fn send_online_status(online_state: i64) -> (out: Outgoing)
    ensures
        out.port == PLUGIN_PORT,
        out.message@ == online_status_text(online_state as int),
{
    Outgoing { port: PLUGIN_PORT, message: get_server_status(online_state) }
}

/// The connection status for the plugin host, stamped with the current
/// local time; `None` when the system clock cannot be read as a date.
pub fn send_connection_status(client_id: &str, status: &str) -> (out: Option<Outgoing>)
    ensures
        out matches Some(o) ==> {
            &&& o.port == PLUGIN_PORT
            &&& exists|time: Seq<char>|
                is_time_stamp(time) && o.message@ == #[trigger] connection_status_text(
                    client_id@,
                    status@,
                    time,
                )
        },
{
    match get_connection_status(client_id, status) {
        Some(message) => Some(Outgoing { port: PLUGIN_PORT, message }),
        None => None,
    }
}

/// The request to this program's own listener that ends a file transfer.
pub open spec fn close_file_transfer_text(id: Seq<char>) -> Seq<char> {
    "{\n    \"action\": \"close_connection_by_id\",\n    \"payload\": {\n        \"id\": \""@ + id
        + "\",\n        \"connect_type\": \"file-transfer\"\n    }\n}"@
}

/// Asks this program's own listener to end the file transfer with `id`.
pub fn send_close_file_transfer(id: &str) -> (out: Outgoing)
    ensures
        out.port == SELF_PORT,
        out.message@ == close_file_transfer_text(id@),
{
    let mut msg = owned(
        "{\n    \"action\": \"close_connection_by_id\",\n    \"payload\": {\n        \"id\": \"",
    );
    msg.append(id);
    msg.append("\",\n        \"connect_type\": \"file-transfer\"\n    }\n}");
    Outgoing { port: SELF_PORT, message: msg }
}

/// The request to this program's own listener that restarts the client
/// with administrator rights.
pub open spec fn reboot_with_admin_text() -> Seq<char> {
    "{\n    \"action\": \"reboot_client_with_admin\",\n    \"payload\": {\n    }\n}"@
}

/// Asks this program's own listener to restart the client with
/// administrator rights.
pub fn send_reboot_client_with_admin() -> (out: Outgoing)
    ensures
        out.port == SELF_PORT,
        out.message@ == reboot_with_admin_text(),
{
    Outgoing {
        port: SELF_PORT,
        message: owned("{\n    \"action\": \"reboot_client_with_admin\",\n    \"payload\": {\n    }\n}"),
    }
}

} // verus!
