use lucky_wol_agent::clock::Moment;
use lucky_wol_agent::config::{AppConfig, SyncClientConfigure};
use lucky_wol_agent::connector::Connector;
use lucky_wol_agent::endpoint::{ProbeOutcome, Transport};
use lucky_wol_agent::envelope::{pack_message, IncomingFrame};
use lucky_wol_agent::login::create_login_message_at;
use lucky_wol_agent::machine::{
    ConnectorEvent, Directive, IncomingMessage, LoginResp, ShutdownMode,
};
use lucky_wol_agent::power::Platform;
use lucky_wol_agent::state::{ActivityEvent, ConnectionPhase, EventLevel, SharedState};
use lucky_wol_agent::wake::ReplyWakeUp;

const KEY: &str = "lucky666";
const TARGET: &str = "ws://lucky:16601/api/wol/service";

fn config() -> AppConfig {
    let mut config = AppConfig::default_for(Platform::Linux);
    config.host = "lucky:16601".to_string();
    config.token = "token".to_string();
    config.device_key = "Client_x".to_string();
    config.mac = "00:00:00:00:00:01".to_string();
    config.power_off_cmd = "halt".to_string();
    config.update_time = 7;
    config
}

fn moment() -> Moment {
    Moment { timestamp: "now".to_string(), unix_seconds: 12, unix_millis: 12_345 }
}

struct Run {
    connector: Connector,
    state: SharedState,
}

impl Run {
    fn new(mode: ShutdownMode, config: AppConfig) -> Run {
        Run { connector: Connector::new(mode, config.clone()), state: SharedState::new(config) }
    }

    fn step(&mut self, event: ConnectorEvent) -> Directive {
        self.connector.step(&mut self.state, event, &moment())
    }

    fn newest(&self) -> ActivityEvent {
        self.state.recent_events().remove(0)
    }

    fn phase(&self) -> ConnectionPhase {
        self.state.connection_snapshot().phase
    }

    fn log_in(&mut self) {
        self.step(ConnectorEvent::Wake);
        self.step(ConnectorEvent::Probed(ProbeOutcome::Connected));
        self.step(ConnectorEvent::Connected(Ok(())));
        self.step(ConnectorEvent::LoginSent(Ok(())));
    }

    fn receive(&mut self, kind: u8, payload: &str) -> Directive {
        let text = pack_message(kind, payload.as_bytes(), KEY).unwrap();
        self.step(ConnectorEvent::Text(text))
    }

    fn accept(&mut self) {
        self.receive(b'1', "{}");
        self.step(decoded(IncomingMessage::LoginResp(answer(0, "ok"))));
    }
}

fn decoded(message: IncomingMessage) -> ConnectorEvent {
    ConnectorEvent::Decoded(Ok(message))
}

fn answer(ret: i32, msg: &str) -> LoginResp {
    LoginResp { ret, msg: msg.to_string(), system_now_time: -4 }
}

fn settings() -> SyncClientConfigure {
    SyncClientConfigure {
        enable: true,
        server_url: String::new(),
        insecure_skip_verify: true,
        token: "other".to_string(),
        relay: false,
        key: String::new(),
        device_name: "desk".to_string(),
        mac: "m".to_string(),
        broadcast_ip: "b".to_string(),
        port: 7,
        repeat: 2,
        power_off_cmd: String::new(),
        update_time: 99,
    }
}

#[test]
fn a_connector_without_a_controller_ends() {
    let mut nowhere = config();
    nowhere.token = String::new();
    let mut run = Run::new(ShutdownMode::Prompt, nowhere);
    assert!(matches!(run.step(ConnectorEvent::Wake), Directive::Stop));
    let connection = run.state.connection_snapshot();
    assert_eq!(connection.phase, ConnectionPhase::Idle);
    assert_eq!(connection.detail, "请先填写主控地址和 Token");
    assert_eq!(connection.endpoint, TARGET);
    assert_eq!(connection.attempts, 0);
    assert!(matches!(run.step(ConnectorEvent::Wake), Directive::Ignore));
}

#[test]
fn an_attempt_begins_with_a_probe() {
    let mut run = Run::new(ShutdownMode::Prompt, config());
    match run.step(ConnectorEvent::Wake) {
        Directive::Probe { endpoint, transport } => {
            assert_eq!(endpoint, TARGET);
            assert_eq!(transport, Transport::Plain);
        }
        _ => panic!("not a probe"),
    }
    let connection = run.state.connection_snapshot();
    assert_eq!(connection.phase, ConnectionPhase::Connecting);
    assert_eq!(connection.detail, "正在连接 Lucky 主控端");
    assert_eq!(connection.endpoint, TARGET);
    assert_eq!(connection.attempts, 1);
    assert_eq!(connection.last_error, None);
}

#[test]
fn a_redirect_is_followed_over_tls() {
    let mut trusting = config();
    trusting.skip_cert_verification = true;
    let mut run = Run::new(ShutdownMode::Prompt, trusting);
    run.step(ConnectorEvent::Wake);
    let outcome = ProbeOutcome::Http {
        code: 307,
        status: "307 Temporary Redirect".to_string(),
        location: Some(Ok("https://lucky:16602/x".to_string())),
    };
    match run.step(ConnectorEvent::Probed(outcome)) {
        Directive::Connect { target, transport } => {
            assert_eq!(target, "wss://lucky:16602/x");
            assert_eq!(
                transport,
                Transport::Tls { accept_invalid_certs: true, accept_invalid_hostnames: true }
            );
        }
        _ => panic!("not a connection"),
    }
}

#[test]
fn a_failed_probe_is_tried_again() {
    let mut run = Run::new(ShutdownMode::Prompt, config());
    run.step(ConnectorEvent::Wake);
    let directive = run.step(ConnectorEvent::Probed(ProbeOutcome::Failed("refused".to_string())));
    assert!(matches!(directive, Directive::Sleep(3)));
    let connection = run.state.connection_snapshot();
    assert_eq!(connection.phase, ConnectionPhase::Error);
    assert_eq!(connection.detail, "无法连接到主控端");
    assert_eq!(connection.endpoint, TARGET);
    assert_eq!(connection.last_error, Some("refused".to_string()));
    let event = run.newest();
    assert_eq!(event.level, EventLevel::Error);
    assert_eq!(event.title, "连接失败");
    assert_eq!(event.detail, "refused");
    assert_eq!(event.timestamp, "now");
    assert!(matches!(run.step(ConnectorEvent::Wake), Directive::Probe { .. }));
    assert_eq!(run.phase(), ConnectionPhase::Reconnecting);
    assert_eq!(run.state.connection_snapshot().attempts, 2);
}

#[test]
fn a_failed_connection_is_tried_again() {
    let mut run = Run::new(ShutdownMode::Prompt, config());
    run.step(ConnectorEvent::Wake);
    run.step(ConnectorEvent::Probed(ProbeOutcome::Connected));
    let directive = run.step(ConnectorEvent::Connected(Err("reset".to_string())));
    assert!(matches!(directive, Directive::Sleep(3)));
    assert_eq!(run.phase(), ConnectionPhase::Error);
    assert_eq!(run.newest().detail, "reset");
}

#[test]
fn a_connection_is_followed_by_a_login() {
    let mut run = Run::new(ShutdownMode::Prompt, config());
    run.step(ConnectorEvent::Wake);
    run.step(ConnectorEvent::Probed(ProbeOutcome::Connected));
    match run.step(ConnectorEvent::Connected(Ok(()))) {
        Directive::SendLogin(text) => {
            assert_eq!(text, create_login_message_at(&config(), 12).unwrap().unwrap())
        }
        _ => panic!("not a login"),
    }
    let events = run.state.recent_events();
    assert_eq!(events[0].title, "准备发送 Login");
    assert_eq!(
        events[0].detail,
        "deviceKey=Client_x mac=00:00:00:00:00:01 relay=true updateTime=7"
    );
    assert_eq!(events[1].title, "WebSocket 已连接");
    assert_eq!(events[1].level, EventLevel::Success);
    assert_eq!(
        events[1].detail,
        "已连接到 ws://lucky:16601/api/wol/service，等待 Lucky 登录响应。"
    );
}

#[test]
fn a_login_waits_for_its_answer() {
    let mut run = Run::new(ShutdownMode::Prompt, config());
    run.step(ConnectorEvent::Wake);
    run.step(ConnectorEvent::Probed(ProbeOutcome::Connected));
    run.step(ConnectorEvent::Connected(Ok(())));
    assert!(matches!(run.step(ConnectorEvent::LoginSent(Ok(()))), Directive::AwaitLogin(8)));
    assert_eq!(run.newest().title, "Login 已发送");
    assert_eq!(run.newest().detail, "已向 Lucky 主控端发送登录消息，等待响应。");
}

#[test]
fn a_login_that_does_not_go_out_is_tried_again() {
    let mut run = Run::new(ShutdownMode::Prompt, config());
    run.step(ConnectorEvent::Wake);
    run.step(ConnectorEvent::Probed(ProbeOutcome::Connected));
    run.step(ConnectorEvent::Connected(Ok(())));
    let directive = run.step(ConnectorEvent::LoginSent(Err("broken pipe".to_string())));
    assert!(matches!(directive, Directive::Sleep(3)));
    let connection = run.state.connection_snapshot();
    assert_eq!(connection.detail, "登录消息发送失败");
    assert_eq!(connection.last_error, Some("broken pipe".to_string()));
    assert_eq!(run.newest().title, "登录发送失败");
}

#[test]
fn an_accepted_login_connects() {
    let mut run = Run::new(ShutdownMode::Prompt, config());
    run.log_in();
    assert_eq!(run.phase(), ConnectionPhase::Connecting);
    match run.receive(b'1', "{\"Ret\":0}") {
        Directive::Decode(IncomingFrame::LoginResp(payload)) => {
            assert_eq!(payload, b"{\"Ret\":0}")
        }
        _ => panic!("not an answer to a login"),
    }
    let directive = run.step(decoded(IncomingMessage::LoginResp(answer(0, "ok"))));
    assert!(matches!(directive, Directive::Read));
    let connection = run.state.connection_snapshot();
    assert_eq!(connection.phase, ConnectionPhase::Connected);
    assert!(connection.connected);
    assert_eq!(connection.detail, "主控连接正常");
    let events = run.state.recent_events();
    assert_eq!(events[0].title, "鉴权成功");
    assert_eq!(events[0].detail, "Lucky 主控端已接受当前设备。");
    assert_eq!(events[1].title, "收到 LoginResp");
    assert_eq!(events[1].detail, "ret=0 msg=ok systemNowTime=-4");
}

#[test]
fn a_refused_login_waits_longer() {
    let mut run = Run::new(ShutdownMode::Prompt, config());
    run.log_in();
    run.receive(b'1', "{}");
    let directive = run.step(decoded(IncomingMessage::LoginResp(answer(-1, "bad token"))));
    assert!(matches!(directive, Directive::Sleep(4)));
    let connection = run.state.connection_snapshot();
    assert_eq!(connection.phase, ConnectionPhase::Error);
    assert_eq!(connection.detail, "主控端拒绝登录");
    assert_eq!(connection.last_error, Some("bad token".to_string()));
    assert_eq!(run.newest().title, "登录被拒绝");
    assert_eq!(run.newest().detail, "bad token");
    assert!(matches!(run.step(ConnectorEvent::Wake), Directive::Probe { .. }));
}

#[test]
fn an_accepted_session_that_ends_is_resumed() {
    let mut run = Run::new(ShutdownMode::Prompt, config());
    run.log_in();
    run.accept();
    assert!(matches!(run.step(ConnectorEvent::Closed), Directive::Sleep(3)));
    let connection = run.state.connection_snapshot();
    assert_eq!(connection.phase, ConnectionPhase::Disconnected);
    assert_eq!(connection.detail, "连接已断开，稍后自动重试");
    assert_eq!(connection.last_error, None);
    assert_eq!(run.newest().title, "连接已关闭");
    assert_eq!(run.newest().detail, "后台连接器将在稍后自动重试。");
}

#[test]
fn a_session_that_ends_early_says_nothing() {
    let mut run = Run::new(ShutdownMode::Prompt, config());
    run.log_in();
    let before = run.state.recent_events().len();
    assert!(matches!(run.step(ConnectorEvent::Closed), Directive::Sleep(4)));
    assert_eq!(run.state.recent_events().len(), before);
    assert_eq!(run.phase(), ConnectionPhase::Connecting);
}

#[test]
fn a_connection_that_cannot_be_read_ends_the_session() {
    let mut run = Run::new(ShutdownMode::Prompt, config());
    run.log_in();
    assert!(matches!(run.step(ConnectorEvent::ReadFailed("eof".to_string())), Directive::Sleep(4)));
    let connection = run.state.connection_snapshot();
    assert_eq!(connection.phase, ConnectionPhase::Error);
    assert_eq!(connection.detail, "读取连接数据失败");
    assert_eq!(run.newest().title, "主控连接流异常");
    let mut run = Run::new(ShutdownMode::Prompt, config());
    run.log_in();
    run.accept();
    assert!(matches!(run.step(ConnectorEvent::ReadFailed("eof".to_string())), Directive::Sleep(3)));
    assert_eq!(run.phase(), ConnectionPhase::Disconnected);
    assert_eq!(run.state.recent_events()[1].title, "主控连接流异常");
}

#[test]
fn before_the_login_is_accepted_the_time_is_watched() {
    let mut run = Run::new(ShutdownMode::Prompt, config());
    run.log_in();
    assert!(matches!(run.step(ConnectorEvent::OtherFrame), Directive::CheckDeadline));
    assert!(matches!(run.step(ConnectorEvent::DeadlineChecked(false)), Directive::Read));
    assert!(matches!(run.step(ConnectorEvent::OtherFrame), Directive::CheckDeadline));
    assert!(matches!(run.step(ConnectorEvent::DeadlineChecked(true)), Directive::Sleep(4)));
    let connection = run.state.connection_snapshot();
    assert_eq!(connection.phase, ConnectionPhase::Error);
    assert_eq!(connection.detail, "已连接主控端，但未收到登录响应");
    assert_eq!(connection.last_error, Some("LoginResp timeout".to_string()));
    assert_eq!(run.newest().title, "登录响应超时");
    assert_eq!(run.newest().detail, "WebSocket 已连接，但在 8 秒内未收到 Lucky LoginResp。");
}

#[test]
fn after_the_login_is_accepted_the_time_does_not_matter() {
    let mut run = Run::new(ShutdownMode::Prompt, config());
    run.log_in();
    run.accept();
    assert!(matches!(run.step(ConnectorEvent::OtherFrame), Directive::Read));
    assert!(matches!(run.step(ConnectorEvent::Binary), Directive::Read));
    assert_eq!(run.newest().title, "收到不支持的帧");
    assert_eq!(run.newest().detail, "当前实现期望接收文本帧，但收到了二进制帧。");
}

#[test]
fn texts_are_previewed() {
    let mut run = Run::new(ShutdownMode::Prompt, config());
    run.log_in();
    let text: String = std::iter::repeat('日').take(100).collect();
    assert!(matches!(run.step(ConnectorEvent::Text(text)), Directive::CheckDeadline));
    let events = run.state.recent_events();
    let preview: String = std::iter::repeat('日').take(96).collect();
    assert_eq!(events[1].title, "收到入站文本消息");
    assert_eq!(events[1].detail, format!("长度=300，预览={}", preview));
    assert_eq!(events[0].title, "入站消息解析失败");
    assert_eq!(events[0].level, EventLevel::Warning);
    assert_eq!(events[0].detail, "Invalid symbol 230, offset 0.");
}

#[test]
fn short_texts_are_shown_whole() {
    let mut run = Run::new(ShutdownMode::Prompt, config());
    run.log_in();
    run.step(ConnectorEvent::Text("AAAA".to_string()));
    assert_eq!(run.state.recent_events()[1].detail, "长度=4，预览=AAAA");
}

#[test]
fn payloads_that_cannot_be_decoded_are_reported() {
    let mut run = Run::new(ShutdownMode::Prompt, config());
    run.log_in();
    run.accept();
    assert!(matches!(run.receive(b'2', "{}"), Directive::Decode(_)));
    let directive = run.step(ConnectorEvent::Decoded(Err("missing field".to_string())));
    assert!(matches!(directive, Directive::Read));
    assert_eq!(run.newest().title, "入站消息解析失败");
    assert_eq!(run.newest().detail, "missing field");
    assert_eq!(run.phase(), ConnectionPhase::Connected);
}

#[test]
fn settings_take_effect_once_they_are_written() {
    let mut run = Run::new(ShutdownMode::Prompt, config());
    run.log_in();
    run.accept();
    run.receive(b'2', "{}");
    match run.step(decoded(IncomingMessage::SyncClientConfigure(settings()))) {
        Directive::Persist(next) => {
            assert_eq!(next.host, "lucky:16601");
            assert_eq!(next.token, "other");
            assert_eq!(next.update_time, 99);
        }
        _ => panic!("nothing to write"),
    }
    assert_eq!(run.newest().title, "收到配置同步");
    assert_eq!(run.newest().detail, "deviceName=desk mac=m broadcastIp=b");
    assert_eq!(run.state.config_snapshot().token, "token");
    assert!(matches!(run.step(ConnectorEvent::Persisted(Ok(()))), Directive::Read));
    assert_eq!(run.state.config_snapshot().token, "other");
    assert_eq!(run.newest().title, "配置已同步");
    assert_eq!(run.newest().detail, "主控端配置变更已应用到本地。");
}

#[test]
fn settings_that_cannot_be_written_are_dropped() {
    let mut run = Run::new(ShutdownMode::Prompt, config());
    run.log_in();
    run.receive(b'2', "{}");
    run.step(decoded(IncomingMessage::SyncClientConfigure(settings())));
    let directive = run.step(ConnectorEvent::Persisted(Err("disk full".to_string())));
    assert!(matches!(directive, Directive::CheckDeadline));
    assert_eq!(run.state.config_snapshot().token, "token");
    assert_eq!(run.newest().title, "配置同步警告");
    assert_eq!(run.newest().detail, "disk full");
}

#[test]
fn wake_up_requests_are_relayed() {
    let mut run = Run::new(ShutdownMode::Prompt, config());
    run.log_in();
    run.accept();
    for (outcome, title, detail) in [
        (Ok(()), "已发送唤醒中继", "魔术包已经在当前局域网内广播。"),
        (Err("unreachable".to_string()), "唤醒中继失败", "unreachable"),
    ] {
        run.receive(b'3', "{}");
        let request = ReplyWakeUp {
            mac_list: vec!["000000000001".to_string()],
            broadcast_ips: vec!["10.0.0.255".to_string()],
            port: 9,
            repeat: 3,
        };
        match run.step(decoded(IncomingMessage::ReplyWakeUp(request))) {
            Directive::Relay(plan) => {
                assert_eq!(plan.outcome, Ok(()));
                assert_eq!(plan.datagrams.len(), 1);
                assert_eq!(plan.datagrams[0].target, "10.0.0.255:9");
                assert_eq!(plan.datagrams[0].copies, 3);
            }
            _ => panic!("nothing to relay"),
        }
        assert!(matches!(run.step(ConnectorEvent::Relayed(outcome)), Directive::Read));
        assert_eq!(run.newest().title, title);
        assert_eq!(run.newest().detail, detail);
    }
}

#[test]
fn a_prompting_connector_leaves_the_choice() {
    let mut run = Run::new(ShutdownMode::Prompt, config());
    run.log_in();
    run.accept();
    assert!(matches!(run.receive(b'4', "{}"), Directive::Read));
    let prompt = run.state.bootstrap_payload(None, "").pending_shutdown.unwrap();
    assert_eq!(prompt.deadline_unix_ms, 42_345);
    assert_eq!(prompt.duration_seconds, 30);
    assert_eq!(prompt.command_preview, "halt");
    assert_eq!(run.newest().level, EventLevel::Warning);
    assert_eq!(run.newest().title, "收到关机指令");
    assert_eq!(run.newest().detail, "主控端请求 30 秒后关机，用户可以取消或立即执行。");
}

#[test]
fn an_immediate_connector_obeys() {
    let mut run = Run::new(ShutdownMode::Immediate, config());
    run.log_in();
    run.accept();
    match run.receive(b'4', "{}") {
        Directive::PowerOff(command) => assert_eq!(command, "halt"),
        _ => panic!("nothing to run"),
    }
    assert!(run.state.bootstrap_payload(None, "").pending_shutdown.is_none());
    assert!(matches!(run.step(ConnectorEvent::PoweredOff(Ok(()))), Directive::Read));
    assert_eq!(run.newest().title, "收到关机指令");
    assert_eq!(run.newest().detail, "本机关机命令已经执行。");
    run.receive(b'4', "{}");
    run.step(ConnectorEvent::PoweredOff(Err("denied".to_string())));
    assert_eq!(run.newest().title, "关机命令执行失败");
    assert_eq!(run.newest().detail, "denied");
}

#[test]
fn an_answer_of_another_kind_is_not_acted_on() {
    let mut run = Run::new(ShutdownMode::Prompt, config());
    run.log_in();
    run.receive(b'3', "{}");
    let before = run.state.recent_events().len();
    for message in [
        IncomingMessage::ShutDown,
        IncomingMessage::LoginResp(answer(0, "ok")),
        IncomingMessage::SyncClientConfigure(settings()),
    ] {
        assert!(matches!(run.step(decoded(message)), Directive::Ignore));
    }
    assert_eq!(run.state.recent_events().len(), before);
    assert_eq!(run.phase(), ConnectionPhase::Connecting);
    assert!(run.state.bootstrap_payload(None, "").pending_shutdown.is_none());
    let directive = run.step(ConnectorEvent::Decoded(Err("no list".to_string())));
    assert!(matches!(directive, Directive::CheckDeadline));
}

#[test]
fn the_modes_differ_in_shutdown_alone() {
    let mut one = Run::new(ShutdownMode::Prompt, config());
    let mut other = Run::new(ShutdownMode::Immediate, config());
    for run in [&mut one, &mut other] {
        run.log_in();
        run.accept();
        run.step(ConnectorEvent::Binary);
        run.step(ConnectorEvent::Closed);
        run.step(ConnectorEvent::Wake);
    }
    let texts = |run: &Run| -> Vec<String> {
        run.state.recent_events().into_iter().map(|event| event.title + &event.detail).collect()
    };
    assert_eq!(texts(&one), texts(&other));
    assert_eq!(one.phase(), other.phase());
}

#[test]
fn unexpected_events_change_nothing() {
    let mut run = Run::new(ShutdownMode::Prompt, config());
    let early = run.step(ConnectorEvent::Connected(Ok(())));
    assert!(matches!(early, Directive::Ignore));
    assert!(matches!(run.step(ConnectorEvent::Closed), Directive::Ignore));
    assert!(matches!(run.step(ConnectorEvent::Persisted(Ok(()))), Directive::Ignore));
    assert!(run.state.recent_events().is_empty());
    assert!(run.state.take_effects().is_empty());
    run.log_in();
    let before = run.state.recent_events().len();
    assert!(matches!(run.step(ConnectorEvent::Wake), Directive::Ignore));
    assert!(matches!(run.step(ConnectorEvent::Relayed(Ok(()))), Directive::Ignore));
    assert!(matches!(run.step(ConnectorEvent::PoweredOff(Ok(()))), Directive::Ignore));
    assert!(matches!(run.step(ConnectorEvent::DeadlineChecked(true)), Directive::Ignore));
    assert!(matches!(run.step(decoded(IncomingMessage::ShutDown)), Directive::Ignore));
    assert_eq!(run.state.recent_events().len(), before);
}

#[test]
fn the_controller_can_move_the_agent() {
    let mut run = Run::new(ShutdownMode::Prompt, config());
    run.log_in();
    run.accept();
    let mut moved = settings();
    moved.server_url = "wss://elsewhere".to_string();
    run.receive(b'2', "{}");
    run.step(decoded(IncomingMessage::SyncClientConfigure(moved)));
    run.step(ConnectorEvent::Persisted(Ok(())));
    run.step(ConnectorEvent::Closed);
    match run.step(ConnectorEvent::Wake) {
        Directive::Probe { endpoint, transport } => {
            assert_eq!(endpoint, "wss://elsewhere/api/wol/service");
            assert_eq!(
                transport,
                Transport::Tls { accept_invalid_certs: true, accept_invalid_hostnames: true }
            );
        }
        _ => panic!("not a probe"),
    }
}

#[test]
fn a_countdown_that_never_ends_is_not_started() {
    let end = Moment {
        timestamp: "late".to_string(),
        unix_seconds: i64::MAX / 1000,
        unix_millis: i64::MAX - 29_999,
    };
    let request = || pack_message(b'4', b"{}", KEY).unwrap();
    let mut run = Run::new(ShutdownMode::Prompt, config());
    run.log_in();
    let before = run.state.recent_events().len();
    let event = ConnectorEvent::Text(request());
    assert!(run.connector.try_step(&mut run.state, event, &end).is_none());
    assert_eq!(run.state.recent_events().len(), before);
    let event = ConnectorEvent::Text("AAAA".to_string());
    let directive = run.connector.try_step(&mut run.state, event, &end);
    assert!(matches!(directive, Some(Directive::CheckDeadline)));
    let event = ConnectorEvent::Text(request());
    let directive = run.connector.try_step(&mut run.state, event, &end);
    assert!(matches!(directive, Some(Directive::Ignore)));
    run.step(ConnectorEvent::DeadlineChecked(false));
    let just = Moment { unix_millis: i64::MAX - 30_000, ..end };
    let event = ConnectorEvent::Text(request());
    assert!(run.connector.try_step(&mut run.state, event, &just).is_some());
    let prompt = run.state.bootstrap_payload(None, "").pending_shutdown.unwrap();
    assert_eq!(prompt.deadline_unix_ms, i64::MAX);
}

#[test]
fn an_immediate_connector_needs_no_countdown() {
    let end = Moment { timestamp: "late".to_string(), unix_seconds: 0, unix_millis: i64::MAX };
    let mut run = Run::new(ShutdownMode::Immediate, config());
    run.log_in();
    let event = ConnectorEvent::Text(pack_message(b'4', b"{}", KEY).unwrap());
    let directive = run.connector.try_step(&mut run.state, event, &end);
    assert!(matches!(directive, Some(Directive::PowerOff(_))));
}
