//! The actions of the local control API: which handler an action names,
//! the checks each handler makes on its payload, the configuration changes
//! it asks for, and the response text it answers with.
//!
//! Reading and writing the configuration store, talking to the server
//! process and starting or ending processes are left to the caller: a
//! handler returns them as `Effect`s, or takes what was read as arguments.

use vstd::prelude::*;

use crate::json::{
    json_wf, key_less, lemma_object_wf, object_members,
    json_index, json_text, object1, object2, object3, json_text_of, str_field, str_value, Json, JsonValue,
};
use crate::text::{int_text, owned, push_int, str_eq, views};

verus! {

/// The text of a response: the result code, the message (written between
/// quotes as it is) and the JSON text of the data, laid out over five lines.
pub open spec fn resp_text(code: int, msg: Seq<char>, data: Seq<char>) -> Seq<char> {
    "{\n    \"code\": "@ + int_text(code) + ",\n    \"msg\": \""@ + msg + "\",\n    \"data\": "@ + data
        + "\n}"@
}

/// The response that reports success with no data.
pub open spec fn ok_text() -> Seq<char> {
    resp_text(1, Seq::empty(), "null"@)
}

/// The response to a payload that lacks a required string member.
pub open spec fn format_error_text() -> Seq<char> {
    resp_text(-1, "payload args format error"@, "null"@)
}

/// Builds a response from its code, message and data.
pub fn get_resp(code: i32, msg: &str, data: &JsonValue) -> (res: String)
    requires
        json_wf(data@),
    ensures
        res@ == resp_text(code as int, msg@, json_text(data@)),
{
    let mut out = String::new();
    out.append("{\n    \"code\": ");
    push_int(&mut out, code as i64);
    out.append(",\n    \"msg\": \"");
    out.append(msg);
    out.append("\",\n    \"data\": ");
    let text = json_text_of(data);
    out.append(text.as_str());
    out.append("\n}");
    out
}

/// A response with no data.
fn resp_without_data(code: i32, msg: &str) -> (res: String)
    ensures
        res@ == resp_text(code as int, msg@, "null"@),
{
    get_resp(code, msg, &JsonValue::Null)
}

/// The success response with no data.
pub fn ok_response() -> (res: String)
    ensures
        res@ == ok_text(),
{
    proof {
        reveal_strlit("");
    }
    resp_without_data(1, "")
}

/// The response to a payload that lacks a required string member.
pub fn payload_args_format_error() -> (res: String)
    ensures
        res@ == format_error_text(),
{
    resp_without_data(-1, "payload args format error")
}

/// Every key in `keys` names a string member of `payload`.
pub open spec fn has_string_members(payload: Json, keys: Seq<Seq<char>>) -> bool {
    forall|i: int| 0 <= i < keys.len() ==> json_index(payload, #[trigger] keys[i]) is Str
}

/// The views of a sequence of string slices.
pub open spec fn str_views(keys: Seq<&str>) -> Seq<Seq<char>> {
    keys.map_values(|k: &str| k@)
}

/// Whether every key names a string member of `payload`.
pub fn check_payload_format(payload: &JsonValue, keys: &[&str]) -> (ok: bool)
    ensures
        ok == has_string_members(payload@, str_views(keys@)),
{
    let n = keys.len();
    for i in 0..n
        invariant
            n == keys@.len(),
            forall|j: int| 0 <= j < i ==> json_index(payload@, #[trigger] str_views(keys@)[j]) is Str,
    {
        if !payload.member_is_string(keys[i]) {
            assert(str_views(keys@)[i as int] == keys@[i as int]@);
            return false;
        }
    }
    true
}


/// The handler that an action names.
#[derive(Clone, Copy, Debug, PartialEq, Eq, Structural)]
pub enum Handler {
    GetTemporaryPassword,
    UpdateTemporaryPassword,
    CreateNewConnect,
    GetServerStatus,
    SetCustomServer,
    GetConnectionStatus,
    CloseConnectionById,
    SetAutoRecording,
    GetAutoRecording,
    SetPermanentPassword,
    GetPermanentPassword,
    SetVerificationMethod,
    GetVerificationMethod,
    /// No handler has this name.
    WrongAction,
}

pub open spec fn handler_for(action: Seq<char>) -> Handler {
    if action == "get_temporary_password"@ {
        Handler::GetTemporaryPassword
    } else if action == "update_temporary_password"@ {
        Handler::UpdateTemporaryPassword
    } else if action == "create_new_connect"@ {
        Handler::CreateNewConnect
    } else if action == "get_server_status"@ {
        Handler::GetServerStatus
    } else if action == "set_custom_server"@ {
        Handler::SetCustomServer
    } else if action == "get_connection_status"@ {
        Handler::GetConnectionStatus
    } else if action == "close_connection_by_id"@ {
        Handler::CloseConnectionById
    } else if action == "set_auto_recording"@ {
        Handler::SetAutoRecording
    } else if action == "get_auto_recording"@ {
        Handler::GetAutoRecording
    } else if action == "set_permanent_password"@ {
        Handler::SetPermanentPassword
    } else if action == "get_permanent_password"@ {
        Handler::GetPermanentPassword
    } else if action == "set_verification_method"@ {
        Handler::SetVerificationMethod
    } else if action == "get_verification_method"@ {
        Handler::GetVerificationMethod
    } else {
        Handler::WrongAction
    }
}

/// The handler that `action` names.
pub fn route_action(action: &str) -> (h: Handler)
    ensures
        h == handler_for(action@),
{
    if str_eq(action, "get_temporary_password") {
        Handler::GetTemporaryPassword
    } else if str_eq(action, "update_temporary_password") {
        Handler::UpdateTemporaryPassword
    } else if str_eq(action, "create_new_connect") {
        Handler::CreateNewConnect
    } else if str_eq(action, "get_server_status") {
        Handler::GetServerStatus
    } else if str_eq(action, "set_custom_server") {
        Handler::SetCustomServer
    } else if str_eq(action, "get_connection_status") {
        Handler::GetConnectionStatus
    } else if str_eq(action, "close_connection_by_id") {
        Handler::CloseConnectionById
    } else if str_eq(action, "set_auto_recording") {
        Handler::SetAutoRecording
    } else if str_eq(action, "get_auto_recording") {
        Handler::GetAutoRecording
    } else if str_eq(action, "set_permanent_password") {
        Handler::SetPermanentPassword
    } else if str_eq(action, "get_permanent_password") {
        Handler::GetPermanentPassword
    } else if str_eq(action, "set_verification_method") {
        Handler::SetVerificationMethod
    } else if str_eq(action, "get_verification_method") {
        Handler::GetVerificationMethod
    } else {
        Handler::WrongAction
    }
}

/// The response to an action that names no handler.
pub fn wrong_action_response() -> (res: String)
    ensures
        res@ == resp_text(0, "wrong action"@, "null"@),
{
    resp_without_data(0, "wrong action")
}

/// A change that a handler asks the caller to make.
pub enum Effect {
    /// `LocalConfig::set_option(key, value)`.
    SetLocalOption(String, String),
    /// `Config::set_option(key, value)`.
    SetConfigOption(String, String),
    /// `ui_interface::set_options`, with these entries.
    SetOptions(Vec<(String, String)>),
    /// `Config::set_permanent_password` in this process.
    SetPermanentPassword(String),
    /// End the connection processes whose command line holds this keyword.
    KillConnect(String),
}

/// An `Effect` as plain values.
pub enum EffectSpec {
    SetLocalOption(Seq<char>, Seq<char>),
    SetConfigOption(Seq<char>, Seq<char>),
    SetOptions(Seq<(Seq<char>, Seq<char>)>),
    SetPermanentPassword(Seq<char>),
    KillConnect(Seq<char>),
}

pub open spec fn pair_views(v: Seq<(String, String)>) -> Seq<(Seq<char>, Seq<char>)> {
    v.map_values(|p: (String, String)| (p.0@, p.1@))
}

impl View for Effect {
    type V = EffectSpec;

    open spec fn view(&self) -> EffectSpec {
        match self {
            Effect::SetLocalOption(k, v) => EffectSpec::SetLocalOption(k@, v@),
            Effect::SetConfigOption(k, v) => EffectSpec::SetConfigOption(k@, v@),
            Effect::SetOptions(entries) => EffectSpec::SetOptions(pair_views(entries@)),
            Effect::SetPermanentPassword(p) => EffectSpec::SetPermanentPassword(p@),
            Effect::KillConnect(k) => EffectSpec::KillConnect(k@),
        }
    }
}

pub open spec fn effect_views(v: Seq<Effect>) -> Seq<EffectSpec> {
    v.map_values(|e: Effect| e@)
}

/// What a handler asks for and what it answers.
pub struct Outcome {
    /// Changes to make, in order, before answering.
    pub effects: Vec<Effect>,
    /// The response text.
    pub response: String,
}

/// The outcome with these effects and response, as plain values.
pub open spec fn outcome_is(o: Outcome, effects: Seq<EffectSpec>, response: Seq<char>) -> bool {
    effect_views(o.effects@) == effects && o.response@ == response
}

fn payload_string(payload: &JsonValue, key: &str) -> (s: String)
    requires
        json_index(payload@, key@) is Str,
    ensures
        s@ == str_field(payload@, key@),
{
    match payload.str_member(key) {
        Some(v) => v.to_string(),
        None => String::new(),
    }
}

/// `Y` or `N`.
pub open spec fn is_yes_no(s: Seq<char>) -> bool {
    s == "Y"@ || s == "N"@
}

/// `set_auto_recording`: the recording options that the payload sets, and
/// the answer. The save directory is set (when not empty) before the two
/// switches are checked, and the incoming switch before the outgoing one is.
pub open spec fn set_auto_recording_spec(p: Json) -> (Seq<EffectSpec>, Seq<char>) {
    if !has_string_members(
        p,
        seq!["video_save_directory"@, "allow_auto_record_incoming"@, "allow_auto_record_outgoing"@],
    ) {
        (Seq::empty(), format_error_text())
    } else {
        let dir = str_field(p, "video_save_directory"@);
        let incoming = str_field(p, "allow_auto_record_incoming"@);
        let outgoing = str_field(p, "allow_auto_record_outgoing"@);
        let first = if dir.len() != 0 {
            seq![EffectSpec::SetLocalOption("video-save-directory"@, dir)]
        } else {
            Seq::empty()
        };
        if !is_yes_no(incoming) {
            (first, resp_text(0, "allow_auto_record_incoming error,only Y or N"@, "null"@))
        } else {
            let second = first.push(
                EffectSpec::SetConfigOption("allow-auto-record-incoming"@, incoming),
            );
            if !is_yes_no(outgoing) {
                (second, resp_text(0, "allow_auto_record_outgoing error,only Y or N"@, "null"@))
            } else {
                (
                    second.push(EffectSpec::SetLocalOption("allow-auto-record-outgoing"@, outgoing)),
                    ok_text(),
                )
            }
        }
    }
}

fn is_y_or_n(s: &str) -> (b: bool)
    ensures
        b == is_yes_no(s@),
{
    str_eq(s, "Y") || str_eq(s, "N")
}

/// Sets the recording directory and the automatic recording switches.
pub fn set_auto_recording(payload: &JsonValue) -> (o: Outcome)
    ensures
        outcome_is(o, set_auto_recording_spec(payload@).0, set_auto_recording_spec(payload@).1),
{
    let keys = vec!["video_save_directory", "allow_auto_record_incoming", "allow_auto_record_outgoing"];
    assert(str_views(keys@) =~= seq![
        "video_save_directory"@,
        "allow_auto_record_incoming"@,
        "allow_auto_record_outgoing"@,
    ]);
    let mut effects: Vec<Effect> = Vec::new();
    if !check_payload_format(payload, keys.as_slice()) {
        assert(effect_views(effects@) =~= Seq::empty());
        return Outcome { effects, response: payload_args_format_error() };
    }
    let dir = payload_string(payload, "video_save_directory");
    let incoming = payload_string(payload, "allow_auto_record_incoming");
    let outgoing = payload_string(payload, "allow_auto_record_outgoing");
    if dir.as_str().unicode_len() != 0 {
        effects.push(Effect::SetLocalOption(owned("video-save-directory"), dir));
    }
    let ghost first = if dir@.len() != 0 {
        seq![EffectSpec::SetLocalOption("video-save-directory"@, dir@)]
    } else {
        Seq::<EffectSpec>::empty()
    };
    assert(effect_views(effects@) =~= first);
    if !is_y_or_n(incoming.as_str()) {
        let response = resp_without_data(0, "allow_auto_record_incoming error,only Y or N");
        return Outcome { effects, response };
    }
    let ghost inc = incoming@;
    effects.push(Effect::SetConfigOption(owned("allow-auto-record-incoming"), incoming));
    let ghost second = first.push(EffectSpec::SetConfigOption("allow-auto-record-incoming"@, inc));
    assert(effect_views(effects@) =~= second);
    if !is_y_or_n(outgoing.as_str()) {
        let response = resp_without_data(0, "allow_auto_record_outgoing error,only Y or N");
        return Outcome { effects, response };
    }
    let ghost outg = outgoing@;
    effects.push(Effect::SetLocalOption(owned("allow-auto-record-outgoing"), outgoing));
    assert(effect_views(effects@) =~= second.push(
        EffectSpec::SetLocalOption("allow-auto-record-outgoing"@, outg),
    ));
    Outcome { effects, response: ok_response() }
}


/// The payload of the two temporary password actions: the device name
/// (`my_name`), or the format error response.
pub open spec fn my_name_spec(p: Json) -> Result<Seq<char>, Seq<char>> {
    if has_string_members(p, seq!["my_name"@]) {
        Ok(str_field(p, "my_name"@))
    } else {
        Err(format_error_text())
    }
}

/// The result of `r` as plain values.
pub open spec fn result_views(r: Result<String, String>) -> Result<Seq<char>, Seq<char>> {
    match r {
        Ok(s) => Ok(s@),
        Err(e) => Err(e@),
    }
}

fn my_name_of(payload: &JsonValue) -> (r: Result<String, String>)
    ensures
        result_views(r) == my_name_spec(payload@),
{
    let keys = vec!["my_name"];
    assert(str_views(keys@) =~= seq!["my_name"@]);
    if !check_payload_format(payload, keys.as_slice()) {
        return Err(payload_args_format_error());
    }
    assert(json_index(payload@, str_views(keys@)[0]) is Str);
    Ok(payload_string(payload, "my_name"))
}

/// First step of `get_temporary_password`: the device name to store before
/// the password is read, or the response to a malformed payload.
pub fn get_temporary_password(payload: &JsonValue) -> (r: Result<String, String>)
    ensures
        result_views(r) == my_name_spec(payload@),
{
    my_name_of(payload)
}

/// First step of `update_temporary_password`: the device name to store
/// before the password is renewed and read, or the response to a malformed
/// payload.
pub fn update_temporary_password(payload: &JsonValue) -> (r: Result<String, String>)
    ensures
        result_views(r) == my_name_spec(payload@),
{
    my_name_of(payload)
}

/// The data of a temporary password response.
pub open spec fn temporary_password_data(password: Seq<char>, id: Seq<char>) -> Json {
    Json::Object(seq![("id"@, Json::Str(id)), ("temporary_password"@, Json::Str(password))])
}

/// Last step of both temporary password actions: the answer that carries
/// the password and this device's id.
pub fn temporary_password_reply(password: &str, id: &str) -> (res: String)
    ensures
        res@ == resp_text(1, Seq::empty(), json_text(temporary_password_data(password@, id@))),
{
    let data = object2("id", str_value(id), "temporary_password", str_value(password));
    proof {
        reveal_strlit("");
    }
    proof {
        reveal_strlit("id");
        reveal_strlit("temporary_password");
        assert(key_less("id"@, "temporary_password"@));
        lemma_object_wf(object_members(data@));
    }
    get_resp(1, "", &data)
}


/// `close_connection_by_id`: the connection processes to end are those whose
/// command line holds `--<connect_type> <id>`.
pub open spec fn close_connection_spec(p: Json) -> (Seq<EffectSpec>, Seq<char>) {
    if has_string_members(p, seq!["id"@, "connect_type"@]) {
        (
            seq![
                EffectSpec::KillConnect(
                    "--"@ + str_field(p, "connect_type"@) + " "@ + str_field(p, "id"@),
                ),
            ],
            ok_text(),
        )
    } else {
        (Seq::empty(), format_error_text())
    }
}

/// Ends the connection with the given peer id and connection type.
pub fn close_connection_by_id(payload: &JsonValue) -> (o: Outcome)
    ensures
        outcome_is(o, close_connection_spec(payload@).0, close_connection_spec(payload@).1),
{
    let keys = vec!["id", "connect_type"];
    assert(str_views(keys@) =~= seq!["id"@, "connect_type"@]);
    let mut effects: Vec<Effect> = Vec::new();
    if !check_payload_format(payload, keys.as_slice()) {
        assert(effect_views(effects@) =~= Seq::empty());
        return Outcome { effects, response: payload_args_format_error() };
    }
    assert(json_index(payload@, str_views(keys@)[0]) is Str);
    assert(json_index(payload@, str_views(keys@)[1]) is Str);
    let id = payload_string(payload, "id");
    let connect_type = payload_string(payload, "connect_type");
    let mut keyword = owned("--");
    keyword.append(connect_type.as_str());
    keyword.append(" ");
    keyword.append(id.as_str());
    let ghost k = keyword@;
    effects.push(Effect::KillConnect(keyword));
    assert(effect_views(effects@) =~= seq![EffectSpec::KillConnect(k)]);
    Outcome { effects, response: ok_response() }
}

/// `set_custom_server`: the id server, relay server and key that the
/// payload names, stored through the server process.
pub open spec fn set_custom_server_spec(p: Json) -> (Seq<EffectSpec>, Seq<char>) {
    if has_string_members(p, seq!["id-server"@, "relay-server"@, "server-key"@]) {
        (
            seq![
                EffectSpec::SetOptions(
                    seq![
                        ("relay-server"@, str_field(p, "relay-server"@)),
                        ("custom-rendezvous-server"@, str_field(p, "id-server"@)),
                        ("key"@, str_field(p, "server-key"@)),
                    ],
                ),
            ],
            ok_text(),
        )
    } else {
        (Seq::empty(), format_error_text())
    }
}

/// Sets the id server, the relay server and the server key.
pub fn set_custom_server(payload: &JsonValue) -> (o: Outcome)
    ensures
        outcome_is(o, set_custom_server_spec(payload@).0, set_custom_server_spec(payload@).1),
{
    let keys = vec!["id-server", "relay-server", "server-key"];
    assert(str_views(keys@) =~= seq!["id-server"@, "relay-server"@, "server-key"@]);
    let mut effects: Vec<Effect> = Vec::new();
    if !check_payload_format(payload, keys.as_slice()) {
        assert(effect_views(effects@) =~= Seq::empty());
        return Outcome { effects, response: payload_args_format_error() };
    }
    assert(json_index(payload@, str_views(keys@)[0]) is Str);
    assert(json_index(payload@, str_views(keys@)[1]) is Str);
    assert(json_index(payload@, str_views(keys@)[2]) is Str);
    let rendezvous_server = payload_string(payload, "id-server");
    let relay_server = payload_string(payload, "relay-server");
    let server_key = payload_string(payload, "server-key");
    let ghost expected = seq![
        ("relay-server"@, relay_server@),
        ("custom-rendezvous-server"@, rendezvous_server@),
        ("key"@, server_key@),
    ];
    let options = vec![
        (owned("relay-server"), relay_server),
        (owned("custom-rendezvous-server"), rendezvous_server),
        (owned("key"), server_key),
    ];
    assert(pair_views(options@) =~= expected);
    effects.push(Effect::SetOptions(options));
    assert(effect_views(effects@) =~= seq![EffectSpec::SetOptions(expected)]);
    Outcome { effects, response: ok_response() }
}

/// The members of a `create_new_connect` payload.
pub struct ConnectRequest {
    /// The connection type, such as `connect` or `file-transfer`.
    pub connect_type: String,
    /// The peer id as given.
    pub id: String,
    /// The name to show for the peer.
    pub co_name: String,
    /// The name of this device.
    pub my_name: String,
    /// The peer's temporary password.
    pub temporary_password: String,
}

/// The keys that a `create_new_connect` payload must hold as strings.
pub open spec fn connect_keys() -> Seq<Seq<char>> {
    seq!["type"@, "id"@, "co_name"@, "my_name"@, "temporary_password"@]
}

/// The members of a well-formed `create_new_connect` payload, in the order
/// of the fields of `ConnectRequest`.
pub open spec fn connect_fields(p: Json) -> Seq<Seq<char>> {
    seq![
        str_field(p, "type"@),
        str_field(p, "id"@),
        str_field(p, "co_name"@),
        str_field(p, "my_name"@),
        str_field(p, "temporary_password"@),
    ]
}

/// The fields of a `ConnectRequest`, in order.
pub open spec fn request_fields(req: ConnectRequest) -> Seq<Seq<char>> {
    seq![req.connect_type@, req.id@, req.co_name@, req.my_name@, req.temporary_password@]
}

/// First step of `create_new_connect`: the members of the payload, or the
/// response to a malformed payload.
pub fn create_new_connect(payload: &JsonValue) -> (r: Result<ConnectRequest, String>)
    ensures
        has_string_members(payload@, connect_keys()) <==> r is Ok,
        r matches Ok(req) ==> request_fields(req) == connect_fields(payload@),
        r matches Err(e) ==> e@ == format_error_text(),
{
    let keys = vec!["type", "id", "co_name", "my_name", "temporary_password"];
    assert(str_views(keys@) =~= connect_keys());
    if !check_payload_format(payload, keys.as_slice()) {
        return Err(payload_args_format_error());
    }
    assert(json_index(payload@, str_views(keys@)[0]) is Str);
    assert(json_index(payload@, str_views(keys@)[1]) is Str);
    assert(json_index(payload@, str_views(keys@)[2]) is Str);
    assert(json_index(payload@, str_views(keys@)[3]) is Str);
    assert(json_index(payload@, str_views(keys@)[4]) is Str);
    let req = ConnectRequest {
        connect_type: payload_string(payload, "type"),
        id: payload_string(payload, "id"),
        co_name: payload_string(payload, "co_name"),
        my_name: payload_string(payload, "my_name"),
        temporary_password: payload_string(payload, "temporary_password"),
    };
    assert(request_fields(req) =~= connect_fields(payload@));
    Ok(req)
}

/// What to do for a connection request once the peer id is resolved.
pub enum ConnectPlan {
    /// Answer with this response and start nothing.
    Refuse(String),
    /// Store `alias` as the peer's alias and `peer` as the last remote id,
    /// then start this program with `args`.
    Launch { peer: String, alias: String, args: Vec<String> },
}

/// The arguments that start a connection to `remote_id`: relayed when
/// resolving the given id changed it.
pub open spec fn launch_args(
    connect_type: Seq<char>,
    given_id: Seq<char>,
    remote_id: Seq<char>,
    password: Seq<char>,
) -> Seq<Seq<char>> {
    let base = seq!["--"@ + connect_type, remote_id, "--password"@, password];
    if given_id != remote_id {
        base.push("--relay"@)
    } else {
        base
    }
}

/// The response that refuses a connection to this device itself.
pub open spec fn self_connect_text() -> Seq<char> {
    resp_text(0, "禁止与自己建立连接"@, "null"@)
}

/// Second step of `create_new_connect`, given the resolved peer id
/// `remote_id` and this device's id `my_id`.
pub fn plan_new_connect(req: &ConnectRequest, remote_id: &str, my_id: &str) -> (plan: ConnectPlan)
    ensures
        remote_id@ == my_id@ <==> plan is Refuse,
        plan matches ConnectPlan::Refuse(r) ==> r@ == self_connect_text(),
        plan matches ConnectPlan::Launch { peer, alias, args } ==> {
            &&& peer@ == remote_id@
            &&& alias@ == req.co_name@
            &&& views(args@) == launch_args(
                req.connect_type@,
                req.id@,
                remote_id@,
                req.temporary_password@,
            )
        },
{
    let force_relay = !str_eq(req.id.as_str(), remote_id);
    if str_eq(remote_id, my_id) {
        return ConnectPlan::Refuse(resp_without_data(0, "禁止与自己建立连接"));
    }
    let mut first = owned("--");
    first.append(req.connect_type.as_str());
    let mut args: Vec<String> = vec![
        first,
        owned(remote_id),
        owned("--password"),
        owned(req.temporary_password.as_str()),
    ];
    if force_relay {
        args.push(owned("--relay"));
    }
    assert(views(args@) =~= launch_args(
        req.connect_type@,
        req.id@,
        remote_id@,
        req.temporary_password@,
    ));
    ConnectPlan::Launch { peer: owned(remote_id), alias: owned(req.co_name.as_str()), args }
}

/// Last step of `create_new_connect`: success, unless starting the
/// connection in the user's session failed with `launch_error`.
pub fn new_connect_reply(launch_error: Option<&str>) -> (res: String)
    ensures
        launch_error matches Some(e) ==> res@ == resp_text(0, "Failed to launch: "@ + e@, "null"@),
        launch_error is None ==> res@ == ok_text(),
{
    match launch_error {
        Some(e) => {
            let mut msg = owned("Failed to launch: ");
            msg.append(e);
            resp_without_data(0, msg.as_str())
        },
        None => ok_response(),
    }
}

/// The word that reports the rendezvous connection state: `READY` when it
/// is positive, `CONNECTING` when it is zero, `NOT_READY` when negative.
pub open spec fn status_word(online_state: int) -> Seq<char> {
    if online_state > 0 {
        "READY"@
    } else if online_state == 0 {
        "CONNECTING"@
    } else {
        "NOT_READY"@
    }
}

pub fn status_word_of(online_state: i64) -> (w: &'static str)
    ensures
        w@ == status_word(online_state as int),
{
    if online_state > 0 {
        "READY"
    } else if online_state == 0 {
        "CONNECTING"
    } else {
        "NOT_READY"
    }
}

/// `get_server_status`, given the rendezvous connection state.
pub fn get_server_status(online_state: i64) -> (res: String)
    ensures
        res@ == resp_text(
            1,
            Seq::empty(),
            json_text(Json::Object(seq![("status"@, Json::Str(status_word(online_state as int)))])),
        ),
{
    let data = object1("status", str_value(status_word_of(online_state)));
    proof {
        reveal_strlit("");
    }
    proof {
        lemma_object_wf(object_members(data@));
    }
    get_resp(1, "", &data)
}

/// The data of the recording settings answer.
pub open spec fn auto_recording_data(incoming: bool, outgoing: bool, video_save_directory: Seq<char>) -> Json {
    Json::Object(
        seq![
            ("auto_recording_in"@, Json::Bool(incoming)),
            ("auto_recording_out"@, Json::Bool(outgoing)),
            ("video_save_directory"@, Json::Str(video_save_directory)),
        ],
    )
}

/// `get_auto_recording`, given the two recording switches as booleans and
/// the save directory.
pub fn get_auto_recording(incoming: bool, outgoing: bool, video_save_directory: &str) -> (res: String)
    ensures
        res@ == resp_text(
            1,
            Seq::empty(),
            json_text(auto_recording_data(incoming, outgoing, video_save_directory@)),
        ),
{
    let data = object3(
        "auto_recording_in",
        JsonValue::Bool(incoming),
        "auto_recording_out",
        JsonValue::Bool(outgoing),
        "video_save_directory",
        str_value(video_save_directory),
    );
    proof {
        reveal_strlit("");
    }
    proof {
        reveal_strlit("auto_recording_in");
        reveal_strlit("auto_recording_out");
        reveal_strlit("video_save_directory");
        assert(key_less("auto_recording_in"@, "auto_recording_out"@)) by {
            reveal_with_fuel(key_less, 17);
        }
        assert(key_less("auto_recording_out"@, "video_save_directory"@));
        lemma_object_wf(object_members(data@));
    }
    get_resp(1, "", &data)
}

/// The password that a `set_permanent_password` payload gives, or the
/// format error response.
pub open spec fn new_password_spec(p: Json) -> Result<Seq<char>, Seq<char>> {
    if has_string_members(p, seq!["password"@]) {
        Ok(str_field(p, "password"@))
    } else {
        Err(format_error_text())
    }
}

/// First step of `set_permanent_password`: the password to send to the
/// server process, or the response to a malformed payload.
pub fn set_permanent_password(payload: &JsonValue) -> (r: Result<String, String>)
    ensures
        result_views(r) == new_password_spec(payload@),
{
    let keys = vec!["password"];
    assert(str_views(keys@) =~= seq!["password"@]);
    if !check_payload_format(payload, keys.as_slice()) {
        return Err(payload_args_format_error());
    }
    assert(json_index(payload@, str_views(keys@)[0]) is Str);
    Ok(payload_string(payload, "password"))
}

/// What the last step of `set_permanent_password` changes in this process.
pub open spec fn permanent_password_effects(password: Seq<char>, reached_server: bool) -> Seq<
    EffectSpec,
> {
    if reached_server {
        Seq::empty()
    } else {
        seq![EffectSpec::SetPermanentPassword(password)]
    }
}

/// Last step of `set_permanent_password`: when the server process could
/// not be reached, the password is stored in this process instead.
pub fn permanent_password_sent(password: &str, reached_server: bool) -> (o: Outcome)
    ensures
        outcome_is(o, permanent_password_effects(password@, reached_server), ok_text()),
{
    let mut effects: Vec<Effect> = Vec::new();
    if !reached_server {
        effects.push(Effect::SetPermanentPassword(owned(password)));
    }
    assert(effect_views(effects@) =~= if reached_server {
        Seq::empty()
    } else {
        seq![EffectSpec::SetPermanentPassword(password@)]
    });
    Outcome { effects, response: ok_response() }
}

/// The data of the permanent password answer: whether one is set, and the
/// password.
pub open spec fn permanent_password_data(password: Seq<char>) -> Json {
    Json::Object(
        seq![("has_password"@, Json::Bool(password.len() != 0)), ("password"@, Json::Str(password))],
    )
}

/// `get_permanent_password`, given the password the server process holds.
pub fn get_permanent_password(password: &str) -> (res: String)
    ensures
        res@ == resp_text(1, Seq::empty(), json_text(permanent_password_data(password@))),
{
    let has_password = password.unicode_len() != 0;
    let data = object2("has_password", JsonValue::Bool(has_password), "password", str_value(password));
    proof {
        reveal_strlit("");
    }
    proof {
        reveal_strlit("has_password");
        reveal_strlit("password");
        assert(key_less("has_password"@, "password"@));
        lemma_object_wf(object_members(data@));
    }
    get_resp(1, "", &data)
}

/// The three verification methods.
pub open spec fn is_verification_method(m: Seq<char>) -> bool {
    m == "use-permanent-password"@ || m == "use-temporary-password"@ || m == "use-both-passwords"@
}

/// `set_verification_method`, given the permanent password stored in this
/// process: the option it stores and the answer. Using the permanent
/// password alone needs one; using both is stored as the empty value.
pub open spec fn set_verification_method_spec(p: Json, permanent_password: Seq<char>) -> (
    Seq<EffectSpec>,
    Seq<char>,
) {
    if !has_string_members(p, seq!["method"@]) {
        (Seq::empty(), format_error_text())
    } else {
        let m = str_field(p, "method"@);
        if !is_verification_method(m) {
            (
                Seq::empty(),
                resp_text(
                    0,
                    "Invalid method. Valid values: use-permanent-password, use-temporary-password, use-both-passwords"@,
                    "null"@,
                ),
            )
        } else if m == "use-permanent-password"@ && permanent_password.len() == 0 {
            (
                Seq::empty(),
                resp_text(
                    0,
                    "Cannot use permanent password only: no permanent password set"@,
                    "null"@,
                ),
            )
        } else {
            let value = if m == "use-both-passwords"@ {
                Seq::empty()
            } else {
                m
            };
            (seq![EffectSpec::SetOptions(seq![("verification-method"@, value)])], ok_text())
        }
    }
}

/// Chooses which passwords a connecting peer may use.
pub fn set_verification_method(payload: &JsonValue, permanent_password: &str) -> (o: Outcome)
    ensures
        outcome_is(
            o,
            set_verification_method_spec(payload@, permanent_password@).0,
            set_verification_method_spec(payload@, permanent_password@).1,
        ),
{
    let keys = vec!["method"];
    assert(str_views(keys@) =~= seq!["method"@]);
    let mut effects: Vec<Effect> = Vec::new();
    assert(effect_views(effects@) =~= Seq::empty());
    if !check_payload_format(payload, keys.as_slice()) {
        return Outcome { effects, response: payload_args_format_error() };
    }
    assert(json_index(payload@, str_views(keys@)[0]) is Str);
    let method = payload_string(payload, "method");
    let m = method.as_str();
    if !(str_eq(m, "use-permanent-password") || str_eq(m, "use-temporary-password") || str_eq(
        m,
        "use-both-passwords",
    )) {
        let response = resp_without_data(
            0,
            "Invalid method. Valid values: use-permanent-password, use-temporary-password, use-both-passwords",
        );
        return Outcome { effects, response };
    }
    if str_eq(m, "use-permanent-password") && permanent_password.unicode_len() == 0 {
        let response = resp_without_data(
            0,
            "Cannot use permanent password only: no permanent password set",
        );
        return Outcome { effects, response };
    }
    let value = if str_eq(m, "use-both-passwords") {
        proof {
            reveal_strlit("");
        }
        owned("")
    } else {
        owned(m)
    };
    let ghost v = value@;
    assert(v == (if m@ == "use-both-passwords"@ { Seq::<char>::empty() } else { m@ }));
    assert(m@ == str_field(payload@, "method"@));
    assert(is_verification_method(m@));
    let options = vec![(owned("verification-method"), value)];
    assert(pair_views(options@) =~= seq![("verification-method"@, v)]);
    effects.push(Effect::SetOptions(options));
    assert(effect_views(effects@) =~= seq![
        EffectSpec::SetOptions(seq![("verification-method"@, v)]),
    ]);
    Outcome { effects, response: ok_response() }
}

/// The name of the verification method stored as `stored`: anything but the
/// two single-password methods means both passwords.
pub open spec fn method_name(stored: Seq<char>) -> Seq<char> {
    if stored == "use-temporary-password"@ {
        "use-temporary-password"@
    } else if stored == "use-permanent-password"@ {
        "use-permanent-password"@
    } else {
        "use-both-passwords"@
    }
}

/// The data of the verification method answer.
pub open spec fn verification_method_data(
    stored: Seq<char>,
    temporary_enabled: bool,
    permanent_enabled: bool,
) -> Json {
    Json::Object(
        seq![
            ("method"@, Json::Str(method_name(stored))),
            ("permanent_enabled"@, Json::Bool(permanent_enabled)),
            ("temporary_enabled"@, Json::Bool(temporary_enabled)),
        ],
    )
}

/// `get_verification_method`, given the stored option and whether each kind
/// of password is enabled.
pub fn get_verification_method(stored: &str, temporary_enabled: bool, permanent_enabled: bool) -> (res:
    String)
    ensures
        res@ == resp_text(
            1,
            Seq::empty(),
            json_text(verification_method_data(stored@, temporary_enabled, permanent_enabled)),
        ),
{
    let name = if str_eq(stored, "use-temporary-password") {
        "use-temporary-password"
    } else if str_eq(stored, "use-permanent-password") {
        "use-permanent-password"
    } else {
        "use-both-passwords"
    };
    let data = object3(
        "method",
        str_value(name),
        "permanent_enabled",
        JsonValue::Bool(permanent_enabled),
        "temporary_enabled",
        JsonValue::Bool(temporary_enabled),
    );
    proof {
        reveal_strlit("");
    }
    proof {
        reveal_strlit("method");
        reveal_strlit("permanent_enabled");
        reveal_strlit("temporary_enabled");
        assert(key_less("method"@, "permanent_enabled"@));
        assert(key_less("permanent_enabled"@, "temporary_enabled"@));
        lemma_object_wf(object_members(data@));
    }
    get_resp(1, "", &data)
}

} // verus!
