use darkdesk_api::messages::{
    connection_status_message, file_md5_text, file_to_hash, get_client_id,
    get_connection_status, get_server_status, send_close_file_transfer,
    send_connection_status, send_file_transfer_log_data, send_online_status,
    send_reboot_client_with_admin, send_screen_record_log_data, PLUGIN_PORT, SELF_PORT,
};

fn args(list: &[&str]) -> Vec<String> {
    list.iter().map(|s| s.to_string()).collect()
}

#[test]
fn client_id() {
    assert_eq!(get_client_id(&args(&["prog", "--server", "abc"])), "abc");
    assert_eq!(get_client_id(&args(&["prog", "--server", "abc", "x"])), "abc");
    assert_eq!(get_client_id(&args(&["prog"])), "");
    assert_eq!(get_client_id(&args(&[])), "");
}

#[test]
fn online_status() {
    let expected = "{\n    \"type\": \"online_status\",\n    \"status\": \"READY\"\n}";
    assert_eq!(get_server_status(3), expected);
    let out = send_online_status(3);
    assert_eq!(out.port, PLUGIN_PORT);
    assert_eq!(out.port, 9877);
    assert_eq!(out.message, expected);
    assert_eq!(
        get_server_status(0),
        "{\n    \"type\": \"online_status\",\n    \"status\": \"CONNECTING\"\n}"
    );
    assert_eq!(
        get_server_status(-5),
        "{\n    \"type\": \"online_status\",\n    \"status\": \"NOT_READY\"\n}"
    );
}

#[test]
fn screen_record() {
    let out = send_screen_record_log_data("start", "123456", &args(&["prog", "--id", "777"]));
    assert_eq!(out.port, PLUGIN_PORT);
    assert_eq!(
        out.message,
        "{\n    \"type\": \"screen_record\",\n    \"id\": \"777\",\n    \"record_type\": \"start\",\n    \"target_id\": \"123456\"\n}"
    );
}

#[test]
fn transfer_file_choice() {
    assert_eq!(file_to_hash("SEND_FILE", "/to", "/from/a.txt"), "/from/a.txt");
    assert_eq!(file_to_hash("RECEIVE_FILE", "/to/a.txt", "a.txt"), "/to/a.txt");
    assert_eq!(file_to_hash("OTHER", "/to", "a"), "");
}

#[test]
fn transfer_digest() {
    assert_eq!(file_md5_text(Some(b"")), "d41d8cd98f00b204e9800998ecf8427e");
    assert_eq!(file_md5_text(Some(b"abc")), "900150983cd24fb0d6963f7d28e17f72");
    assert_eq!(file_md5_text(None), "");
}

#[test]
fn file_transfer() {
    let out = send_file_transfer_log_data(
        "SEND_FILE",
        "/remote",
        "/local/a.txt",
        Some(b"abc"),
        &args(&["prog", "--id", "42"]),
    );
    assert_eq!(out.port, PLUGIN_PORT);
    assert_eq!(
        out.message,
        "{\n    \"type\": \"file_transfer\",\n    \"id\": \"42\",\n    \"transfer_type\": \"SEND_FILE\",\n    \"to_path\": \"/remote\",\n    \"file_name\": \"/local/a.txt\",\n    \"file_md5\": \"900150983cd24fb0d6963f7d28e17f72\"\n}"
    );
    let out = send_file_transfer_log_data("OTHER", "/r", "f", None, &args(&["prog"]));
    assert!(out.message.contains("\"file_md5\": \"\"\n}"));
    assert!(out.message.contains("\"id\": \"\",\n"));
}

#[test]
fn connection_status() {
    assert_eq!(
        connection_status_message("c1", "connected", "2021-08-25 15:00:00.000"),
        "{\n    \"type\": \"connection_status\",\n    \"client_id\": \"c1\",\n    \"status\": \"connected\",\n    \"time\": \"2021-08-25 15:00:00.000\"\n}"
    );
    let msg = get_connection_status("c1", "closed").unwrap();
    let prefix = "{\n    \"type\": \"connection_status\",\n    \"client_id\": \"c1\",\n    \"status\": \"closed\",\n    \"time\": \"";
    assert!(msg.starts_with(prefix));
    let time = &msg[prefix.len()..msg.len() - 3];
    assert!(msg.ends_with("\"\n}"));
    assert_eq!(time.len(), 23);
    assert_eq!(&time[4..5], "-");
    assert_eq!(&time[10..11], " ");
    assert_eq!(&time[19..20], ".");
    let out = send_connection_status("c1", "closed").unwrap();
    assert_eq!(out.port, PLUGIN_PORT);
    assert!(out.message.starts_with(prefix));
}

#[test]
fn messages_to_self() {
    let out = send_close_file_transfer("122656574");
    assert_eq!(out.port, SELF_PORT);
    assert_eq!(out.port, 9876);
    assert_eq!(
        out.message,
        "{\n    \"action\": \"close_connection_by_id\",\n    \"payload\": {\n        \"id\": \"122656574\",\n        \"connect_type\": \"file-transfer\"\n    }\n}"
    );
    let out = send_reboot_client_with_admin();
    assert_eq!(out.port, SELF_PORT);
    assert_eq!(
        out.message,
        "{\n    \"action\": \"reboot_client_with_admin\",\n    \"payload\": {\n    }\n}"
    );
}
