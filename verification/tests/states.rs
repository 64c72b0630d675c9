use lucky_wol_agent::config::AppConfig;
use lucky_wol_agent::power::Platform;
use lucky_wol_agent::state::{
    ConnectionPhase, ConnectionSnapshot, Effect, EventLevel, SharedState, MAX_EVENTS,
};

fn state() -> SharedState {
    let mut config = AppConfig::default_for(Platform::Linux);
    config.host = "lucky".to_string();
    config.power_off_cmd = "halt".to_string();
    SharedState::new(config)
}

fn names(effects: &[Effect]) -> Vec<&'static str> {
    effects
        .iter()
        .map(|effect| match effect {
            Effect::ConnectionUpdated(_) => "connection",
            Effect::ActivityLogged(_) => "activity",
            Effect::ShutdownCleared => "cleared",
            Effect::ShutdownPending(_) => "pending",
            Effect::ShowMainWindow => "show",
            Effect::AbortConnector => "abort",
            Effect::StartConnector => "start",
            Effect::AbortShutdownTimer => "abort timer",
            Effect::StartShutdownTimer(_) => "start timer",
        })
        .collect()
}

#[test]
fn the_agent_starts_idle() {
    let mut state = state();
    let connection = state.connection_snapshot();
    assert_eq!(connection.phase, ConnectionPhase::Idle);
    assert!(!connection.connected);
    assert_eq!(connection.detail, "等待配置");
    assert_eq!(connection.endpoint, "");
    assert_eq!(connection.attempts, 0);
    assert_eq!(connection.last_error, None);
    assert_eq!(connection.last_event_at, None);
    assert!(state.recent_events().is_empty());
    assert!(state.take_effects().is_empty());
    assert_eq!(ConnectionSnapshot::default().detail, "等待配置");
}

#[test]
fn a_configuration_counts_once_it_is_written() {
    let mut state = state();
    let mut next = state.config_snapshot();
    next.host = "other".to_string();
    assert_eq!(
        state.set_config(next.clone(), Err("disk full".to_string())),
        Err("disk full".to_string())
    );
    assert_eq!(state.config_snapshot().host, "lucky");
    assert_eq!(state.set_config(next, Ok(())), Ok(()));
    assert_eq!(state.config_snapshot().host, "other");
    assert!(state.take_effects().is_empty());
}

#[test]
fn an_event_is_logged_and_told() {
    let mut state = state();
    state.push_event_at(EventLevel::Success, "title", "detail", "2024-01-02 03:04:05");
    let events = state.recent_events();
    assert_eq!(events.len(), 1);
    assert_eq!(events[0].level, EventLevel::Success);
    assert_eq!(events[0].title, "title");
    assert_eq!(events[0].detail, "detail");
    assert_eq!(events[0].timestamp, "2024-01-02 03:04:05");
    let connection = state.connection_snapshot();
    assert_eq!(connection.last_event_at, Some("2024-01-02 03:04:05".to_string()));
    assert_eq!(connection.phase, ConnectionPhase::Idle);
    let effects = state.take_effects();
    assert_eq!(names(&effects), vec!["connection", "activity"]);
    match &effects[1] {
        Effect::ActivityLogged(event) => assert_eq!(event.title, "title"),
        _ => unreachable!(),
    }
    assert!(state.take_effects().is_empty());
}

#[test]
fn an_event_now_bears_the_time() {
    let mut state = state();
    state.push_event(EventLevel::Warning, "t", "d");
    let events = state.recent_events();
    assert_eq!(events[0].level, EventLevel::Warning);
    assert_eq!(events[0].timestamp.len(), 19);
    assert_eq!(state.connection_snapshot().last_event_at, Some(events[0].timestamp.clone()));
}

#[test]
fn the_log_keeps_the_newest_events() {
    let mut state = state();
    for i in 0..30 {
        state.push_event_at(EventLevel::Info, &i.to_string(), "", "now");
    }
    let titles: Vec<String> = state.recent_events().into_iter().map(|event| event.title).collect();
    let expected: Vec<String> = (6..30).rev().map(|i| i.to_string()).collect();
    assert_eq!(MAX_EVENTS, 24);
    assert_eq!(titles, expected);
}

#[test]
fn a_report_keeps_the_time_of_the_last_event() {
    let mut state = state();
    state.push_event_at(EventLevel::Info, "t", "d", "then");
    state.report(ConnectionPhase::Error, "detail", "endpoint", 7, Some("why".to_string()));
    let connection = state.connection_snapshot();
    assert_eq!(connection.phase, ConnectionPhase::Error);
    assert!(!connection.connected);
    assert_eq!(connection.detail, "detail");
    assert_eq!(connection.endpoint, "endpoint");
    assert_eq!(connection.attempts, 7);
    assert_eq!(connection.last_error, Some("why".to_string()));
    assert_eq!(connection.last_event_at, Some("then".to_string()));
    state.report(ConnectionPhase::Connected, "", "", 8, None);
    assert!(state.connection_snapshot().connected);
    assert_eq!(
        names(&state.take_effects()),
        vec!["connection", "activity", "connection", "connection"]
    );
}

#[test]
fn a_connector_replaces_another() {
    let mut state = state();
    state.abort_task();
    assert!(state.take_effects().is_empty());
    state.start_connector();
    assert_eq!(names(&state.take_effects()), vec!["start"]);
    state.start_connector();
    assert_eq!(names(&state.take_effects()), vec!["abort", "start"]);
    state.abort_task();
    assert_eq!(names(&state.take_effects()), vec!["abort"]);
    state.abort_task();
    assert!(state.take_effects().is_empty());
}

#[test]
fn a_shutdown_is_scheduled() {
    let mut state = state();
    state.schedule_shutdown_prompt(30, 1_000);
    let effects = state.take_effects();
    assert_eq!(names(&effects), vec!["cleared", "pending", "show", "start timer"]);
    assert!(matches!(effects[3], Effect::StartShutdownTimer(30)));
    let prompt = state.bootstrap_payload(None, "v").pending_shutdown.unwrap();
    assert_eq!(prompt.deadline_unix_ms, 31_000);
    assert_eq!(prompt.duration_seconds, 30);
    assert_eq!(prompt.command_preview, "halt");
    state.schedule_shutdown_prompt(u32::MAX, -5);
    assert_eq!(
        names(&state.take_effects()),
        vec!["abort timer", "cleared", "pending", "show", "start timer"]
    );
    let prompt = state.bootstrap_payload(None, "v").pending_shutdown.unwrap();
    assert_eq!(prompt.deadline_unix_ms, 4_294_967_295_000 - 5);
}

#[test]
fn a_shutdown_can_be_called_off() {
    let mut state = state();
    state.schedule_shutdown_prompt(30, 1_000);
    state.take_effects();
    state.clear_shutdown_prompt();
    assert_eq!(names(&state.take_effects()), vec!["abort timer", "cleared"]);
    assert!(state.bootstrap_payload(None, "v").pending_shutdown.is_none());
    state.clear_shutdown_prompt();
    assert_eq!(names(&state.take_effects()), vec!["cleared"]);
}

#[test]
fn a_countdown_that_runs_out_hands_out_the_command() {
    let mut state = state();
    state.schedule_shutdown_prompt(30, 1_000);
    assert_eq!(state.take_shutdown_command(), "halt");
    assert!(state.bootstrap_payload(None, "v").pending_shutdown.is_none());
    state.shutdown_timer_finished(Ok(()), "now");
    let event = state.recent_events().remove(0);
    assert_eq!(event.level, EventLevel::Warning);
    assert_eq!(event.title, "收到关机指令");
    assert_eq!(event.detail, "30 秒倒计时结束，已执行本机关机命令。");
    state.shutdown_timer_finished(Err("denied".to_string()), "now");
    let event = state.recent_events().remove(0);
    assert_eq!(event.level, EventLevel::Error);
    assert_eq!(event.title, "关机命令执行失败");
    assert_eq!(event.detail, "denied");
}

#[test]
fn stopping_ends_everything() {
    let mut state = state();
    state.report(ConnectionPhase::Connected, "up", "x", 3, None);
    state.start_connector();
    state.schedule_shutdown_prompt(30, 1_000);
    state.take_effects();
    state.stop_connector("done", "now");
    assert_eq!(
        names(&state.take_effects()),
        vec!["abort", "abort timer", "cleared", "connection", "connection", "activity"]
    );
    let connection = state.connection_snapshot();
    assert_eq!(connection.phase, ConnectionPhase::Disconnected);
    assert!(!connection.connected);
    assert_eq!(connection.detail, "done");
    assert_eq!(connection.endpoint, "ws://lucky/api/wol/service");
    assert_eq!(connection.attempts, 3);
    assert_eq!(connection.last_error, None);
    assert_eq!(connection.last_event_at, Some("now".to_string()));
    let event = state.recent_events().remove(0);
    assert_eq!(event.level, EventLevel::Info);
    assert_eq!(event.title, "连接器已停止");
    assert_eq!(event.detail, "done");
}

#[test]
fn the_user_interface_starts_with_everything() {
    let mut state = state();
    state.push_event_at(EventLevel::Info, "t", "d", "now");
    let payload = state.bootstrap_payload(Some(true), "0.1.0");
    assert_eq!(payload.config.host, "lucky");
    assert_eq!(payload.connection.last_event_at, Some("now".to_string()));
    assert!(payload.pending_shutdown.is_none());
    assert!(payload.autostart_enabled);
    assert_eq!(payload.recent_events.len(), 1);
    assert_eq!(payload.version, "0.1.0");
    assert!(!state.bootstrap_payload(Some(false), "").autostart_enabled);
    assert!(!state.bootstrap_payload(None, "").autostart_enabled);
}

#[test]
fn a_second_shutdown_replaces_the_first() {
    let mut state = state();
    state.schedule_shutdown_prompt(30, 1_000);
    state.take_effects();
    state.schedule_shutdown_prompt(10, 2_000);
    let effects = state.take_effects();
    assert_eq!(names(&effects), vec!["abort timer", "cleared", "pending", "show", "start timer"]);
    assert!(matches!(effects[4], Effect::StartShutdownTimer(10)));
    let mut next = state.config_snapshot();
    next.power_off_cmd = "reboot".to_string();
    assert_eq!(state.set_config(next, Ok(())), Ok(()));
    assert_eq!(state.take_shutdown_command(), "reboot");
    assert_eq!(names(&state.take_effects()), vec!["abort timer", "cleared"]);
    state.shutdown_timer_finished(Ok(()), "now");
    assert_eq!(state.recent_events().len(), 1);
    assert!(state.bootstrap_payload(None, "v").pending_shutdown.is_none());
}
