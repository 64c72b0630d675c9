use lucky_wol_agent::commands::{
    cancel_pending_shutdown, connect_if_set, connect_now, disconnect_now,
    execute_pending_shutdown_now,
    handle_menu_event, handle_window_event, prepare_launch_at_startup, reconnect_now, save_config,
    set_launch_at_startup, start_up, TrayAction, WindowAction, WindowChange,
};
use lucky_wol_agent::config::AppConfig;
use lucky_wol_agent::power::Platform;
use lucky_wol_agent::state::{ActivityEvent, ConnectionPhase, Effect, EventLevel, SharedState};

fn config() -> AppConfig {
    let mut config = AppConfig::default_for(Platform::Windows);
    config.host = "lucky".to_string();
    config.token = "token".to_string();
    config
}

fn nowhere() -> AppConfig {
    AppConfig::default_for(Platform::Windows)
}

fn newest(state: &SharedState) -> ActivityEvent {
    state.recent_events().remove(0)
}

fn starts(state: &mut SharedState) -> bool {
    state.take_effects().iter().any(|effect| matches!(effect, Effect::StartConnector))
}

#[test]
fn a_saved_configuration_connects() {
    let mut state = SharedState::new(nowhere());
    assert_eq!(save_config(&mut state, config(), Ok(()), "now"), Ok(()));
    assert_eq!(state.config_snapshot().host, "lucky");
    assert_eq!(newest(&state).level, EventLevel::Success);
    assert_eq!(newest(&state).title, "配置已保存");
    assert_eq!(newest(&state).detail, "新的运行配置已经写入本地。");
    assert!(starts(&mut state));
}

#[test]
fn a_saved_configuration_may_stay_offline() {
    let mut state = SharedState::new(config());
    let mut shy = config();
    shy.auto_connect = false;
    assert_eq!(save_config(&mut state, shy, Ok(()), "now"), Ok(()));
    assert!(!starts(&mut state));
    assert_eq!(save_config(&mut state, nowhere(), Ok(()), "now"), Ok(()));
    assert!(!starts(&mut state));
}

#[test]
fn a_configuration_that_cannot_be_written_is_dropped() {
    let mut state = SharedState::new(config());
    let error = save_config(&mut state, nowhere(), Err("disk full".to_string()), "now");
    assert_eq!(error, Err("disk full".to_string()));
    assert_eq!(state.config_snapshot().host, "lucky");
    assert!(state.recent_events().is_empty());
    assert!(state.take_effects().is_empty());
}

#[test]
fn connecting_takes_a_controller() {
    let mut state = SharedState::new(nowhere());
    assert_eq!(connect_now(&mut state, "now"), Err("请先填写主控地址和 Token。".to_string()));
    assert!(state.recent_events().is_empty());
    let mut state = SharedState::new(config());
    assert_eq!(connect_now(&mut state, "now"), Ok(()));
    assert_eq!(newest(&state).title, "手动连接");
    assert_eq!(newest(&state).detail, "正在立即发起主控连接。");
    assert!(starts(&mut state));
}

#[test]
fn reconnecting_begins_anew() {
    let mut state = SharedState::new(nowhere());
    reconnect_now(&mut state, "now");
    assert_eq!(newest(&state).title, "请求重连");
    assert_eq!(newest(&state).detail, "正在刷新与主控端的连接。");
    assert!(starts(&mut state));
}

#[test]
fn disconnecting_ends_everything() {
    let mut state = SharedState::new(config());
    reconnect_now(&mut state, "now");
    state.schedule_shutdown_prompt(30, 0);
    disconnect_now(&mut state, "later");
    let connection = state.connection_snapshot();
    assert_eq!(connection.phase, ConnectionPhase::Disconnected);
    assert_eq!(connection.detail, "Stopped by user");
    assert_eq!(connection.endpoint, "ws://lucky/api/wol/service");
    assert_eq!(newest(&state).title, "连接器已停止");
    assert_eq!(newest(&state).detail, "Stopped by user");
    assert!(state.bootstrap_payload(None, "").pending_shutdown.is_none());
    let effects = state.take_effects();
    assert!(effects.iter().any(|effect| matches!(effect, Effect::AbortConnector)));
    assert!(effects.iter().any(|effect| matches!(effect, Effect::AbortShutdownTimer)));
}

#[test]
fn a_pending_shutdown_can_be_cancelled() {
    let mut state = SharedState::new(config());
    state.schedule_shutdown_prompt(30, 0);
    cancel_pending_shutdown(&mut state, "now");
    assert!(state.bootstrap_payload(None, "").pending_shutdown.is_none());
    assert_eq!(newest(&state).title, "已取消关机");
    assert_eq!(newest(&state).detail, "用户取消了这次关机倒计时。");
}

#[test]
fn a_pending_shutdown_can_be_executed() {
    let mut state = SharedState::new(config());
    state.schedule_shutdown_prompt(30, 0);
    assert_eq!(state.take_shutdown_command(), "shutdown /s /t 0");
    assert_eq!(execute_pending_shutdown_now(&mut state, Ok(()), "now"), Ok(()));
    assert_eq!(newest(&state).level, EventLevel::Warning);
    assert_eq!(newest(&state).title, "立即关机");
    assert_eq!(newest(&state).detail, "用户确认立即执行本机关机命令。");
    let events = state.recent_events().len();
    assert_eq!(
        execute_pending_shutdown_now(&mut state, Err("denied".to_string()), "now"),
        Err("denied".to_string())
    );
    assert_eq!(state.recent_events().len(), events);
}

#[test]
fn starting_with_the_system_is_remembered() {
    let mut state = SharedState::new(config());
    let next = prepare_launch_at_startup(&state, true);
    assert!(next.launch_at_startup);
    assert_eq!(next.host, "lucky");
    assert_eq!(set_launch_at_startup(&mut state, next, Ok(()), "now"), Ok(true));
    assert!(state.config_snapshot().launch_at_startup);
    assert_eq!(newest(&state).title, "开机自启已更新");
    assert_eq!(newest(&state).detail, "程序将随 Windows 一起启动。");
    let next = prepare_launch_at_startup(&state, false);
    assert_eq!(set_launch_at_startup(&mut state, next.clone(), Ok(()), "now"), Ok(false));
    assert_eq!(newest(&state).detail, "已关闭开机自启。");
    let error = set_launch_at_startup(&mut state, next, Err("disk full".to_string()), "now");
    assert_eq!(error, Err("disk full".to_string()));
    assert_eq!(state.recent_events().len(), 2);
}

#[test]
fn the_agent_comes_up() {
    let mut state = SharedState::new(config());
    assert!(!start_up(&mut state, "now"));
    assert_eq!(newest(&state).title, "程序已就绪");
    assert_eq!(newest(&state).detail, "桌面服务和本地运行环境已经初始化完成。");
    assert!(!starts(&mut state));
    connect_if_set(&mut state);
    assert!(starts(&mut state));
    let mut quiet = nowhere();
    quiet.launch_at_startup = true;
    let mut state = SharedState::new(quiet);
    assert!(start_up(&mut state, "now"));
    connect_if_set(&mut state);
    assert!(!starts(&mut state));
}

#[test]
fn the_window_goes_to_the_tray() {
    let mut state = SharedState::new(config());
    assert_eq!(
        handle_window_event(&mut state, WindowChange::Resized { minimized: true }, "now"),
        WindowAction::Hide
    );
    assert_eq!(
        handle_window_event(&mut state, WindowChange::Resized { minimized: false }, "now"),
        WindowAction::Leave
    );
    assert_eq!(handle_window_event(&mut state, WindowChange::Other, "now"), WindowAction::Leave);
    assert!(state.recent_events().is_empty());
    assert_eq!(
        handle_window_event(&mut state, WindowChange::CloseRequested, "now"),
        WindowAction::HideInsteadOfClosing
    );
    assert_eq!(newest(&state).title, "窗口已隐藏到托盘");
    assert_eq!(newest(&state).detail, "程序仍会继续在后台运行。");
}

#[test]
fn without_the_tray_the_window_closes() {
    let mut plain = config();
    plain.minimize_to_tray = false;
    let mut state = SharedState::new(plain);
    for change in [WindowChange::CloseRequested, WindowChange::Resized { minimized: true }] {
        assert_eq!(handle_window_event(&mut state, change, "now"), WindowAction::Leave);
    }
    assert!(state.recent_events().is_empty());
}

#[test]
fn the_menu_of_the_tray() {
    assert_eq!(handle_menu_event("show"), TrayAction::ShowMainWindow);
    assert_eq!(handle_menu_event("quit"), TrayAction::Quit);
    assert_eq!(handle_menu_event("Show"), TrayAction::Nothing);
    assert_eq!(handle_menu_event(""), TrayAction::Nothing);
}
