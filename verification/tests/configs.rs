use std::path::{Path, PathBuf};

use lucky_wol_agent::clock::unix_now;
use lucky_wol_agent::config::{
    choose_device_name, config_dir, config_dir_under, config_path, config_path_under,
    default_device_name, fresh_device_key, load_config, AppConfig, SyncClientConfigure,
};
use lucky_wol_agent::power::Platform;

fn config() -> AppConfig {
    AppConfig {
        host: "lucky:16601".to_string(),
        token: "token".to_string(),
        message_key: "lucky666".to_string(),
        skip_cert_verification: false,
        execution_action: "sleep".to_string(),
        device_key: "Client_x".to_string(),
        device_name: "desk".to_string(),
        mac: "00:00:00:00:00:01".to_string(),
        broadcast_ip: "192.168.1.255".to_string(),
        relay: true,
        wol_port: 9,
        wol_repeat: 5,
        power_off_cmd: "systemctl suspend".to_string(),
        auto_connect: true,
        minimize_to_tray: true,
        launch_at_startup: false,
        update_time: 5,
    }
}

fn settings(text: &str) -> SyncClientConfigure {
    SyncClientConfigure {
        enable: false,
        server_url: text.to_string(),
        insecure_skip_verify: true,
        token: text.to_string(),
        relay: false,
        key: text.to_string(),
        device_name: text.to_string(),
        mac: text.to_string(),
        broadcast_ip: text.to_string(),
        port: 7,
        repeat: 0,
        power_off_cmd: text.to_string(),
        update_time: -3,
    }
}

fn fields(config: &AppConfig) -> (Vec<String>, Vec<bool>, u16, u8, i64) {
    (
        vec![
            config.host.clone(),
            config.token.clone(),
            config.message_key.clone(),
            config.execution_action.clone(),
            config.device_key.clone(),
            config.device_name.clone(),
            config.mac.clone(),
            config.broadcast_ip.clone(),
            config.power_off_cmd.clone(),
        ],
        vec![
            config.skip_cert_verification,
            config.relay,
            config.auto_connect,
            config.minimize_to_tray,
            config.launch_at_startup,
        ],
        config.wol_port,
        config.wol_repeat,
        config.update_time,
    )
}

fn is_fresh(key: &str) -> bool {
    key.len() == 39
        && key.starts_with("Client_")
        && key[7..].chars().all(|c| c.is_ascii_digit() || ('a' <= c && c <= 'f'))
}

#[test]
fn device_keys_are_fresh() {
    let one = fresh_device_key();
    let other = fresh_device_key();
    assert!(is_fresh(&one));
    assert!(is_fresh(&other));
    assert_ne!(one, other);
}

#[test]
fn the_configuration_has_its_own_folder() {
    let base = PathBuf::from("base");
    assert_eq!(config_dir_under(Some(base.clone())), Ok(Path::new("base/LuckyWOLAgent").to_path_buf()));
    assert_eq!(
        config_path_under(Some(base)),
        Ok(Path::new("base/LuckyWOLAgent/agent-config.json").to_path_buf())
    );
}

#[test]
fn without_a_configuration_directory_there_is_no_place() {
    assert_eq!(config_dir_under(None), Err("无法定位本地配置目录。".to_string()));
    assert_eq!(config_path_under(None), Err("无法定位本地配置目录。".to_string()));
}

#[test]
fn the_file_lies_in_the_folder() {
    match (config_dir(), config_path()) {
        (Ok(directory), Ok(path)) => {
            assert!(directory.ends_with("LuckyWOLAgent"));
            assert_eq!(path, directory.join("agent-config.json"));
        }
        (Err(one), Err(other)) => {
            assert_eq!(one, "无法定位本地配置目录。");
            assert_eq!(other, one);
        }
        _ => panic!("only one of them has a place"),
    }
}

#[test]
fn a_device_is_named_after_its_machine() {
    assert_eq!(choose_device_name(Some("desk ".to_string())), "desk ");
    assert_eq!(choose_device_name(Some(" \t".to_string())), "Lucky被控端设备");
    assert_eq!(choose_device_name(Some(String::new())), "Lucky被控端设备");
    assert_eq!(choose_device_name(None), "Lucky被控端设备");
    assert!(!default_device_name().trim().is_empty());
}

#[test]
fn a_fresh_configuration() {
    let before = unix_now();
    let fresh = AppConfig::default_for(Platform::Linux);
    let after = unix_now();
    assert_eq!(fresh.host, "");
    assert_eq!(fresh.token, "");
    assert_eq!(fresh.message_key, "lucky666");
    assert!(!fresh.skip_cert_verification);
    assert_eq!(fresh.execution_action, "shutdown");
    assert!(is_fresh(&fresh.device_key));
    assert_eq!(fresh.device_name, default_device_name());
    assert_eq!(fresh.broadcast_ip, "");
    assert!(fresh.relay);
    assert_eq!(fresh.wol_port, 9);
    assert_eq!(fresh.wol_repeat, 5);
    assert_eq!(fresh.power_off_cmd, "shutdown -h now");
    assert!(fresh.auto_connect);
    assert!(fresh.minimize_to_tray);
    assert!(!fresh.launch_at_startup);
    assert!(before <= fresh.update_time && fresh.update_time <= after);
}

#[test]
fn loading_a_fresh_configuration_changes_nothing() {
    let fresh = AppConfig::default_for(Platform::Windows);
    let loaded = load_config(Some(fresh.clone()), Platform::Windows);
    assert_eq!(fields(&loaded), fields(&fresh));
}

#[test]
fn without_a_stored_configuration_a_fresh_one_is_loaded() {
    let loaded = load_config(None, Platform::Macos);
    assert!(is_fresh(&loaded.device_key));
    assert_eq!(loaded.power_off_cmd, "osascript -e 'tell app \"System Events\" to shut down'");
}

#[test]
fn a_stored_configuration_is_brought_into_shape() {
    let mut stored = config();
    stored.message_key = "other".to_string();
    stored.execution_action = " HIBERNATE ".to_string();
    stored.power_off_cmd = "format c:".to_string();
    stored.wol_port = 7;
    stored.host = " lucky ".to_string();
    let loaded = load_config(Some(stored.clone()), Platform::Linux);
    stored.message_key = "lucky666".to_string();
    stored.execution_action = "hibernate".to_string();
    stored.power_off_cmd = "systemctl hibernate".to_string();
    assert_eq!(fields(&loaded), fields(&stored));
}

#[test]
fn saving_brings_a_configuration_into_shape() {
    let mut asked = config();
    asked.host = " lucky:16601\n".to_string();
    asked.token = "\ttoken ".to_string();
    asked.message_key = "mine".to_string();
    asked.execution_action = "Hibernate".to_string();
    asked.device_key = " Client_y ".to_string();
    asked.device_name = " desk".to_string();
    asked.mac = " m ".to_string();
    asked.broadcast_ip = " b ".to_string();
    asked.wol_port = 40000;
    asked.wol_repeat = 0;
    asked.launch_at_startup = true;
    let saved = asked.sanitize("Client_fallback".to_string(), 77, Platform::Windows);
    let mut expected = config();
    expected.execution_action = "hibernate".to_string();
    expected.device_key = "Client_y".to_string();
    expected.mac = "m".to_string();
    expected.broadcast_ip = "b".to_string();
    expected.power_off_cmd = "shutdown /h".to_string();
    expected.launch_at_startup = true;
    expected.update_time = 77;
    assert_eq!(fields(&saved), fields(&expected));
}

#[test]
fn saving_fills_in_a_blank_key() {
    let mut asked = config();
    asked.device_key = " ".to_string();
    let saved = asked.clone().sanitize("Client_fallback".to_string(), 77, Platform::Windows);
    assert_eq!(saved.device_key, "Client_fallback");
    assert!(is_fresh(&asked.prepare_save(Platform::Windows).device_key));
}

#[test]
fn saving_bears_the_time() {
    let before = unix_now();
    let saved = config().prepare_save(Platform::Linux);
    let after = unix_now();
    assert!(before <= saved.update_time && saved.update_time <= after);
    assert_eq!(saved.device_key, "Client_x");
}

#[test]
fn loading_gives_back_what_was_saved() {
    let mut asked = config();
    asked.execution_action = " Sleep".to_string();
    let saved = asked.sanitize("k".to_string(), 1, Platform::Macos);
    let loaded = load_config(Some(saved.clone()), Platform::Macos);
    assert_eq!(fields(&loaded), fields(&saved));
}

#[test]
fn saving_twice_is_saving_once() {
    let mut asked = config();
    asked.device_key = String::new();
    asked.host = " lucky ".to_string();
    let once = asked.sanitize(fresh_device_key(), 1, Platform::Linux);
    let twice = once.clone().sanitize(fresh_device_key(), 2, Platform::Linux);
    let mut expected = once;
    expected.update_time = 2;
    assert_eq!(fields(&twice), fields(&expected));
}

#[test]
fn settings_of_the_controller_are_applied() {
    let synced = config().apply_sync(settings(" new "));
    let mut expected = config();
    expected.host = " new ".to_string();
    expected.token = " new ".to_string();
    expected.skip_cert_verification = true;
    expected.device_key = " new ".to_string();
    expected.device_name = " new ".to_string();
    expected.mac = " new ".to_string();
    expected.broadcast_ip = " new ".to_string();
    expected.relay = false;
    expected.wol_port = 7;
    expected.wol_repeat = 0;
    expected.power_off_cmd = " new ".to_string();
    expected.auto_connect = false;
    expected.update_time = -3;
    assert_eq!(fields(&synced), fields(&expected));
}

#[test]
fn blank_settings_keep_the_texts() {
    for text in ["", "  \t"] {
        let synced = config().apply_sync(settings(text));
        assert_eq!(fields(&synced).0, fields(&config()).0);
        assert!(synced.can_connect());
        assert!(!synced.auto_connect);
    }
}

#[test]
fn settings_leave_the_agents_own() {
    let synced = config().apply_sync(settings("new"));
    assert_eq!(synced.message_key, "lucky666");
    assert_eq!(synced.execution_action, "sleep");
    assert!(synced.minimize_to_tray);
    assert!(!synced.launch_at_startup);
}

#[test]
fn a_connection_takes_a_controller_and_a_token() {
    let full = config();
    assert!(full.can_connect());
    assert!(full.connects_by_itself());
    let mut shy = config();
    shy.auto_connect = false;
    assert!(shy.can_connect());
    assert!(!shy.connects_by_itself());
    let mut nowhere = config();
    nowhere.host = String::new();
    assert!(!nowhere.can_connect());
    let mut nobody = config();
    nobody.token = String::new();
    assert!(!nobody.can_connect());
    assert!(!nobody.connects_by_itself());
    let mut blank = config();
    blank.host = " ".to_string();
    assert!(blank.can_connect());
}

#[test]
fn settings_are_copied_whole() {
    let copy = settings("x").clone();
    assert_eq!(copy.key, "x");
    assert_eq!(copy.update_time, -3);
    assert!(copy.insecure_skip_verify);
}
