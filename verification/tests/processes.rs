use darkdesk_api::handlers::{
    close_connection_by_id, create_new_connect, plan_new_connect, ConnectPlan, Effect,
};
use darkdesk_api::json::JsonValue;
use darkdesk_api::process::{get_connection_status, kill_connect, ProcessEntry};

fn entry(pid: u32, name: &str, cmd: &[&str]) -> ProcessEntry {
    ProcessEntry { pid, name: name.to_string(), cmd: cmd.iter().map(|s| s.to_string()).collect() }
}

fn resp(data: &str) -> String {
    format!("{{\n    \"code\": 1,\n    \"msg\": \"\",\n    \"data\": {}\n}}", data)
}

#[test]
fn kill_selection() {
    let procs = vec![
        entry(10, "DarkDesk", &["/opt/DarkDesk", "--connect", "123456", "--password", "x"]),
        entry(11, "DarkDesk", &["/opt/DarkDesk", "--file-transfer", "123456"]),
        entry(12, "other", &["other", "--connect", "123456"]),
        entry(13, "DarkDesk", &["/opt/DarkDesk", "--cm"]),
        entry(14, "DarkDesk", &["/opt/DarkDesk", "--connect", "1234567"]),
    ];
    assert_eq!(kill_connect(&procs, "DarkDesk", "--connect 123456"), vec![10, 14]);
    assert_eq!(kill_connect(&procs, "DarkDesk", "--file-transfer 123456"), vec![11]);
    assert_eq!(kill_connect(&procs, "DarkDesk", "--cm"), vec![13]);
    assert_eq!(kill_connect(&procs, "DarkDesk", "nothing"), Vec::<u32>::new());
    assert_eq!(kill_connect(&procs, "other", ""), vec![12]);
    assert_eq!(kill_connect(&Vec::new(), "DarkDesk", ""), Vec::<u32>::new());
}

#[test]
fn connection_report() {
    let procs = vec![
        entry(76112, "DarkDesk", &["DarkDesk", "--connect", "123456"]),
        entry(76178, "DarkDesk", &["DarkDesk", "--cm"]),
        entry(5, "DarkDesk", &["DarkDesk"]),
        entry(6, "DarkDesk", &["DarkDesk", "--connect"]),
    ];
    assert_eq!(
        get_connection_status(&procs),
        resp(
            "{\"processes\":[{\"name\":\"DarkDesk\",\"peer_id\":\"123456\",\"pid\":76112,\"type\":\"controller\"},{\"name\":\"DarkDesk\",\"pid\":76178,\"type\":\"controlled\"},{\"name\":\"DarkDesk\",\"peer_id\":\"\",\"pid\":6,\"type\":\"controller\"}]}"
        )
    );
    assert_eq!(get_connection_status(&Vec::new()), resp("{\"processes\":[]}"));
}

#[test]
fn connection_report_both_roles_and_first_peer() {
    let procs = vec![entry(
        1,
        "DarkDesk",
        &["DarkDesk", "--cm", "--connect", "a", "--connect", "b"],
    )];
    assert_eq!(
        get_connection_status(&procs),
        resp(
            "{\"processes\":[{\"name\":\"DarkDesk\",\"peer_id\":\"a\",\"pid\":1,\"type\":\"controller\"},{\"name\":\"DarkDesk\",\"pid\":1,\"type\":\"controlled\"}]}"
        )
    );
}

#[test]
fn launched_connection_is_closed_by_its_keyword() {
    let members = [
        ("type", "file-transfer"),
        ("id", "123456/r"),
        ("co_name", "Office"),
        ("my_name", "Home"),
        ("temporary_password", "tmp1"),
    ];
    let payload = JsonValue::Object(
        members.iter().map(|(k, v)| (k.to_string(), JsonValue::Str(v.to_string()))).collect(),
    );
    let req = create_new_connect(&payload).unwrap();
    let args = match plan_new_connect(&req, "123456", "999") {
        ConnectPlan::Launch { args, .. } => args,
        ConnectPlan::Refuse(_) => panic!("refused"),
    };
    let mut cmd = vec!["/opt/DarkDesk".to_string()];
    cmd.extend(args);
    let procs = vec![ProcessEntry { pid: 4321, name: "DarkDesk".to_string(), cmd }];
    let close = JsonValue::Object(vec![
        ("id".to_string(), JsonValue::Str("123456".to_string())),
        ("connect_type".to_string(), JsonValue::Str("file-transfer".to_string())),
    ]);
    let keyword = match &close_connection_by_id(&close).effects[0] {
        Effect::KillConnect(k) => k.clone(),
        _ => panic!("wrong effect"),
    };
    assert_eq!(kill_connect(&procs, "DarkDesk", &keyword), vec![4321]);
}
