use lucky_wol_agent::clock::unix_now;
use lucky_wol_agent::config::AppConfig;
use lucky_wol_agent::envelope::{decrypt_message, unpack_message};
use lucky_wol_agent::login::{create_login_message, create_login_message_at};

use base64::Engine;

fn config() -> AppConfig {
    AppConfig {
        host: "https://lucky.lan/admin".to_string(),
        token: "to\"ken".to_string(),
        message_key: "lucky666".to_string(),
        skip_cert_verification: true,
        execution_action: "shutdown".to_string(),
        device_key: "Client_x".to_string(),
        device_name: "书桌".to_string(),
        mac: "00:00:00:00:00:01".to_string(),
        broadcast_ip: "192.168.1.255".to_string(),
        relay: false,
        wol_port: 9,
        wol_repeat: 5,
        power_off_cmd: "shutdown /s\n".to_string(),
        auto_connect: false,
        minimize_to_tray: true,
        launch_at_startup: false,
        update_time: -7,
    }
}

fn opened(text: &str) -> (u8, Vec<u8>) {
    let cipher_text = base64::engine::general_purpose::STANDARD.decode(text).unwrap();
    let plain = decrypt_message(&cipher_text, "lucky666").unwrap();
    let mut length = [0u8; 8];
    length.copy_from_slice(&plain[1..9]);
    let length = i64::from_be_bytes(length) as usize;
    assert!(plain[9 + length..].iter().all(|byte| *byte == 0));
    (plain[0], plain[9..9 + length].to_vec())
}

#[test]
fn a_login_tells_everything_in_order() {
    let text = create_login_message_at(&config(), 1234).unwrap().unwrap();
    let (kind, payload) = opened(&text);
    assert_eq!(kind, b'0');
    let expected = "{\"Enable\":true,\"ServerURL\":\"wss://lucky.lan/api/wol/service\",\
\"InsecureSkipVerify\":true,\"Token\":\"to\\\"ken\",\"Relay\":false,\"Key\":\"Client_x\",\
\"DeviceName\":\"书桌\",\"Mac\":\"00:00:00:00:00:01\",\"BroadcastIP\":\"192.168.1.255\",\
\"Port\":9,\"Repeat\":5,\"PowerOffCMD\":\"shutdown /s\\n\",\"UpdateTime\":-7,\
\"ClientTimeStamp\":1234}";
    assert_eq!(String::from_utf8(payload).unwrap(), expected);
}

#[test]
fn a_login_is_valid_json() {
    let text = create_login_message_at(&config(), i64::MAX).unwrap().unwrap();
    let (_, payload) = opened(&text);
    let value: serde_json::Value = serde_json::from_slice(&payload).unwrap();
    assert_eq!(value["ClientTimeStamp"].as_i64(), Some(i64::MAX));
    assert_eq!(value["Token"].as_str(), Some("to\"ken"));
    assert_eq!(value["Enable"].as_bool(), Some(true));
    assert_eq!(value.as_object().unwrap().len(), 14);
}

#[test]
fn a_login_bears_the_present_time() {
    let before = unix_now();
    let text = create_login_message(&config()).unwrap().unwrap();
    let after = unix_now();
    let (_, payload) = opened(&text);
    let value: serde_json::Value = serde_json::from_slice(&payload).unwrap();
    let time = value["ClientTimeStamp"].as_i64().unwrap();
    assert!(before <= time && time <= after);
}

#[test]
fn a_login_depends_on_the_key() {
    let mut other = config();
    other.message_key = "another!".to_string();
    let text = create_login_message_at(&other, 1234).unwrap().unwrap();
    assert_ne!(text, create_login_message_at(&config(), 1234).unwrap().unwrap());
    assert!(unpack_message(&text, "another!").is_err());
}
