use darkdesk_api::handlers::{
    check_payload_format, close_connection_by_id, create_new_connect, get_auto_recording,
    get_permanent_password, get_resp, get_server_status, get_temporary_password,
    get_verification_method, new_connect_reply, ok_response, payload_args_format_error,
    permanent_password_sent, plan_new_connect, route_action, set_auto_recording,
    set_custom_server, set_permanent_password, set_verification_method,
    temporary_password_reply, update_temporary_password, wrong_action_response, ConnectPlan,
    Effect, Handler, Outcome,
};
use darkdesk_api::json::JsonValue;

const OK: &str = "{\n    \"code\": 1,\n    \"msg\": \"\",\n    \"data\": null\n}";
const FORMAT_ERROR: &str =
    "{\n    \"code\": -1,\n    \"msg\": \"payload args format error\",\n    \"data\": null\n}";

fn payload(members: &[(&str, &str)]) -> JsonValue {
    JsonValue::Object(
        members
            .iter()
            .map(|(k, v)| (k.to_string(), JsonValue::Str(v.to_string())))
            .collect(),
    )
}

fn resp(code: i32, msg: &str, data: &str) -> String {
    format!("{{\n    \"code\": {},\n    \"msg\": \"{}\",\n    \"data\": {}\n}}", code, msg, data)
}

fn local(k: &str, v: &str) -> (String, String, u8) {
    (k.to_string(), v.to_string(), 0)
}

fn config(k: &str, v: &str) -> (String, String, u8) {
    (k.to_string(), v.to_string(), 1)
}

fn effects(o: &Outcome) -> Vec<(String, String, u8)> {
    o.effects
        .iter()
        .map(|e| match e {
            Effect::SetLocalOption(k, v) => (k.clone(), v.clone(), 0),
            Effect::SetConfigOption(k, v) => (k.clone(), v.clone(), 1),
            Effect::SetOptions(entries) => {
                let text: Vec<String> = entries.iter().map(|(k, v)| format!("{}={}", k, v)).collect();
                (text.join(";"), String::new(), 2)
            }
            Effect::SetPermanentPassword(p) => (p.clone(), String::new(), 3),
            Effect::KillConnect(k) => (k.clone(), String::new(), 4),
        })
        .collect()
}

#[test]
fn response_envelope() {
    assert_eq!(ok_response(), OK);
    assert_eq!(payload_args_format_error(), FORMAT_ERROR);
    assert_eq!(wrong_action_response(), resp(0, "wrong action", "null"));
    assert_eq!(get_resp(-12, "m", &JsonValue::Bool(true)), resp(-12, "m", "true"));
    assert_eq!(
        get_resp(i32::MIN, "", &JsonValue::Null),
        resp(i32::MIN, "", "null")
    );
}

#[test]
fn data_text_matches_serde_json() {
    let data = JsonValue::Object(vec![
        ("a\"b".to_string(), JsonValue::Str("line\nbreak \\ \u{1}".to_string())),
        (
            "list".to_string(),
            JsonValue::Array(vec![JsonValue::Null, JsonValue::Bool(false), JsonValue::Number("12".to_string())]),
        ),
    ]);
    let mut map = serde_json::Map::new();
    map.insert("a\"b".to_string(), serde_json::Value::String("line\nbreak \\ \u{1}".to_string()));
    map.insert(
        "list".to_string(),
        serde_json::Value::Array(vec![
            serde_json::Value::Null,
            serde_json::Value::Bool(false),
            serde_json::Value::Number(12.into()),
        ]),
    );
    let expected = serde_json::Value::Object(map).to_string();
    assert_eq!(data.to_json_text(), expected);
    assert_eq!(get_resp(1, "", &data), resp(1, "", &expected));
}

#[test]
fn routing() {
    assert_eq!(route_action("get_temporary_password"), Handler::GetTemporaryPassword);
    assert_eq!(route_action("update_temporary_password"), Handler::UpdateTemporaryPassword);
    assert_eq!(route_action("create_new_connect"), Handler::CreateNewConnect);
    assert_eq!(route_action("get_server_status"), Handler::GetServerStatus);
    assert_eq!(route_action("set_custom_server"), Handler::SetCustomServer);
    assert_eq!(route_action("get_connection_status"), Handler::GetConnectionStatus);
    assert_eq!(route_action("close_connection_by_id"), Handler::CloseConnectionById);
    assert_eq!(route_action("set_auto_recording"), Handler::SetAutoRecording);
    assert_eq!(route_action("get_auto_recording"), Handler::GetAutoRecording);
    assert_eq!(route_action("set_permanent_password"), Handler::SetPermanentPassword);
    assert_eq!(route_action("get_permanent_password"), Handler::GetPermanentPassword);
    assert_eq!(route_action("set_verification_method"), Handler::SetVerificationMethod);
    assert_eq!(route_action("get_verification_method"), Handler::GetVerificationMethod);
    assert_eq!(route_action("reboot_client_with_admin"), Handler::WrongAction);
    assert_eq!(route_action(""), Handler::WrongAction);
    assert_eq!(route_action("GET_SERVER_STATUS"), Handler::WrongAction);
}

#[test]
fn payload_format_checks() {
    let p = payload(&[("a", "x"), ("b", "")]);
    assert!(check_payload_format(&p, &["a", "b"]));
    assert!(check_payload_format(&p, &[]));
    assert!(!check_payload_format(&p, &["a", "c"]));
    let mixed = JsonValue::Object(vec![("a".to_string(), JsonValue::Bool(true))]);
    assert!(!check_payload_format(&mixed, &["a"]));
    assert!(!check_payload_format(&JsonValue::Null, &["a"]));
    assert!(!check_payload_format(&JsonValue::Str("a".to_string()), &["a"]));
}

#[test]
fn temporary_password() {
    assert_eq!(get_temporary_password(&payload(&[("my_name", "pc")])), Ok("pc".to_string()));
    assert_eq!(update_temporary_password(&payload(&[("my_name", "pc")])), Ok("pc".to_string()));
    assert_eq!(get_temporary_password(&payload(&[])), Err(FORMAT_ERROR.to_string()));
    assert_eq!(update_temporary_password(&JsonValue::Null), Err(FORMAT_ERROR.to_string()));
    assert_eq!(
        temporary_password_reply("abc123", "987654321"),
        resp(1, "", "{\"id\":\"987654321\",\"temporary_password\":\"abc123\"}")
    );
}

#[test]
fn close_connection() {
    let o = close_connection_by_id(&payload(&[("id", "122656574"), ("connect_type", "file-transfer")]));
    assert_eq!(o.response, OK);
    assert_eq!(effects(&o), vec![("--file-transfer 122656574".to_string(), String::new(), 4)]);
    let o = close_connection_by_id(&payload(&[("id", "1")]));
    assert_eq!(o.response, FORMAT_ERROR);
    assert!(o.effects.is_empty());
}

#[test]
fn custom_server() {
    let o = set_custom_server(&payload(&[
        ("id-server", "id.example"),
        ("relay-server", "relay.example"),
        ("server-key", "KEY"),
    ]));
    assert_eq!(o.response, OK);
    assert_eq!(
        effects(&o),
        vec![(
            "relay-server=relay.example;custom-rendezvous-server=id.example;key=KEY".to_string(),
            String::new(),
            2
        )]
    );
    let o = set_custom_server(&payload(&[("id-server", "a"), ("relay-server", "b")]));
    assert_eq!(o.response, FORMAT_ERROR);
    assert!(o.effects.is_empty());
}

#[test]
fn auto_recording_set() {
    let o = set_auto_recording(&payload(&[
        ("video_save_directory", "/tmp/rec"),
        ("allow_auto_record_incoming", "Y"),
        ("allow_auto_record_outgoing", "N"),
    ]));
    assert_eq!(o.response, OK);
    assert_eq!(
        effects(&o),
        vec![
            local("video-save-directory", "/tmp/rec"),
            config("allow-auto-record-incoming", "Y"),
            local("allow-auto-record-outgoing", "N"),
        ]
    );
    let o = set_auto_recording(&payload(&[
        ("video_save_directory", ""),
        ("allow_auto_record_incoming", "yes"),
        ("allow_auto_record_outgoing", "N"),
    ]));
    assert_eq!(o.response, resp(0, "allow_auto_record_incoming error,only Y or N", "null"));
    assert!(o.effects.is_empty());
    let o = set_auto_recording(&payload(&[
        ("video_save_directory", "d"),
        ("allow_auto_record_incoming", "N"),
        ("allow_auto_record_outgoing", ""),
    ]));
    assert_eq!(o.response, resp(0, "allow_auto_record_outgoing error,only Y or N", "null"));
    assert_eq!(
        effects(&o),
        vec![local("video-save-directory", "d"), config("allow-auto-record-incoming", "N")]
    );
    let o = set_auto_recording(&payload(&[("video_save_directory", "d")]));
    assert_eq!(o.response, FORMAT_ERROR);
    assert!(o.effects.is_empty());
}

#[test]
fn auto_recording_get() {
    assert_eq!(
        get_auto_recording(true, false, "/videos"),
        resp(
            1,
            "",
            "{\"auto_recording_in\":true,\"auto_recording_out\":false,\"video_save_directory\":\"/videos\"}"
        )
    );
}

#[test]
fn server_status() {
    assert_eq!(get_server_status(1), resp(1, "", "{\"status\":\"READY\"}"));
    assert_eq!(get_server_status(i64::MAX), resp(1, "", "{\"status\":\"READY\"}"));
    assert_eq!(get_server_status(0), resp(1, "", "{\"status\":\"CONNECTING\"}"));
    assert_eq!(get_server_status(-1), resp(1, "", "{\"status\":\"NOT_READY\"}"));
}

#[test]
fn permanent_password() {
    assert_eq!(set_permanent_password(&payload(&[("password", "s3cret")])), Ok("s3cret".to_string()));
    assert_eq!(set_permanent_password(&payload(&[])), Err(FORMAT_ERROR.to_string()));
    let o = permanent_password_sent("s3cret", true);
    assert_eq!(o.response, OK);
    assert!(o.effects.is_empty());
    let o = permanent_password_sent("s3cret", false);
    assert_eq!(o.response, OK);
    assert_eq!(effects(&o), vec![("s3cret".to_string(), String::new(), 3)]);
    assert_eq!(
        get_permanent_password("pw"),
        resp(1, "", "{\"has_password\":true,\"password\":\"pw\"}")
    );
    assert_eq!(
        get_permanent_password(""),
        resp(1, "", "{\"has_password\":false,\"password\":\"\"}")
    );
}

#[test]
fn verification_method_set() {
    let o = set_verification_method(&payload(&[("method", "use-both-passwords")]), "");
    assert_eq!(o.response, OK);
    assert_eq!(effects(&o), vec![("verification-method=".to_string(), String::new(), 2)]);
    let o = set_verification_method(&payload(&[("method", "use-temporary-password")]), "");
    assert_eq!(
        effects(&o),
        vec![("verification-method=use-temporary-password".to_string(), String::new(), 2)]
    );
    let o = set_verification_method(&payload(&[("method", "use-permanent-password")]), "");
    assert_eq!(
        o.response,
        resp(0, "Cannot use permanent password only: no permanent password set", "null")
    );
    assert!(o.effects.is_empty());
    let o = set_verification_method(&payload(&[("method", "use-permanent-password")]), "pw");
    assert_eq!(o.response, OK);
    assert_eq!(
        effects(&o),
        vec![("verification-method=use-permanent-password".to_string(), String::new(), 2)]
    );
    let o = set_verification_method(&payload(&[("method", "both")]), "pw");
    assert_eq!(
        o.response,
        resp(
            0,
            "Invalid method. Valid values: use-permanent-password, use-temporary-password, use-both-passwords",
            "null"
        )
    );
    let o = set_verification_method(&payload(&[]), "pw");
    assert_eq!(o.response, FORMAT_ERROR);
}

#[test]
fn verification_method_get() {
    let both = "{\"method\":\"use-both-passwords\",\"permanent_enabled\":true,\"temporary_enabled\":true}";
    assert_eq!(get_verification_method("", true, true), resp(1, "", both));
    assert_eq!(get_verification_method("something", true, true), resp(1, "", both));
    assert_eq!(
        get_verification_method("use-temporary-password", true, false),
        resp(
            1,
            "",
            "{\"method\":\"use-temporary-password\",\"permanent_enabled\":false,\"temporary_enabled\":true}"
        )
    );
    assert_eq!(
        get_verification_method("use-permanent-password", false, true),
        resp(
            1,
            "",
            "{\"method\":\"use-permanent-password\",\"permanent_enabled\":true,\"temporary_enabled\":false}"
        )
    );
}

#[test]
fn verification_method_round_trip_values() {
    for method in ["use-permanent-password", "use-temporary-password", "use-both-passwords"] {
        let o = set_verification_method(&payload(&[("method", method)]), "pw");
        let stored = match &o.effects[0] {
            Effect::SetOptions(entries) => entries[0].1.clone(),
            _ => panic!("unexpected effect"),
        };
        let read = get_verification_method(&stored, true, true);
        assert!(read.contains(&format!("\"method\":\"{}\"", method)));
    }
}

fn connect_payload(id: &str) -> JsonValue {
    payload(&[
        ("type", "connect"),
        ("id", id),
        ("co_name", "Office"),
        ("my_name", "Home"),
        ("temporary_password", "tmp1"),
    ])
}

#[test]
fn new_connection() {
    let req = create_new_connect(&connect_payload("123456")).unwrap();
    assert_eq!(req.connect_type, "connect");
    assert_eq!(req.id, "123456");
    assert_eq!(req.co_name, "Office");
    assert_eq!(req.my_name, "Home");
    assert_eq!(req.temporary_password, "tmp1");
    match plan_new_connect(&req, "123456", "999") {
        ConnectPlan::Launch { peer, alias, args } => {
            assert_eq!(peer, "123456");
            assert_eq!(alias, "Office");
            assert_eq!(args, vec!["--connect", "123456", "--password", "tmp1"]);
        }
        ConnectPlan::Refuse(_) => panic!("refused"),
    }
    let req = create_new_connect(&connect_payload("123456/r")).unwrap();
    match plan_new_connect(&req, "123456", "999") {
        ConnectPlan::Launch { args, .. } => {
            assert_eq!(args, vec!["--connect", "123456", "--password", "tmp1", "--relay"]);
        }
        ConnectPlan::Refuse(_) => panic!("refused"),
    }
    match plan_new_connect(&req, "999", "999") {
        ConnectPlan::Refuse(r) => assert_eq!(r, resp(0, "禁止与自己建立连接", "null")),
        ConnectPlan::Launch { .. } => panic!("launched"),
    }
    assert!(create_new_connect(&payload(&[("type", "connect")])).is_err());
    assert_eq!(new_connect_reply(None), OK);
    assert_eq!(new_connect_reply(Some("denied")), resp(0, "Failed to launch: denied", "null"));
}

#[test]
fn response_parses_back_with_its_members() {
    let data = JsonValue::Object(vec![
        ("id".to_string(), JsonValue::Str("12\"3".to_string())),
        ("ok".to_string(), JsonValue::Bool(true)),
    ]);
    let text = get_resp(-1, "some message", &data);
    let parsed: serde_json::Value = serde_json::from_str(&text).unwrap();
    let mut expected_data = serde_json::Map::new();
    expected_data.insert("id".to_string(), serde_json::Value::String("12\"3".to_string()));
    expected_data.insert("ok".to_string(), serde_json::Value::Bool(true));
    let mut expected = serde_json::Map::new();
    expected.insert("code".to_string(), serde_json::Value::Number((-1).into()));
    expected.insert("msg".to_string(), serde_json::Value::String("some message".to_string()));
    expected.insert("data".to_string(), serde_json::Value::Object(expected_data));
    assert_eq!(parsed, serde_json::Value::Object(expected));
}
