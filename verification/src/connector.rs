//! The connector: it keeps the agent logged in at its controller and acts on what the controller
//! sends.
//!
//! A connector is a state machine. Each step takes what happened, changes the shared state, and
//! says what to do next; whoever runs it does that and comes back with the result.

use vstd::prelude::*;
use vstd::string::*;

use crate::clock::Moment;
use crate::config::{AppConfig, SyncClientConfigure};
use crate::endpoint::{
    choose_transport, normalize_ws_url, resolve_websocket_endpoint, ProbeOutcome,
};
use crate::envelope::{unpack_message, unpacked, FrameModel, IncomingFrame};
use crate::login::create_login_message_at;
use crate::machine::{
    asks_to_shut_down, decoded_model, preview_text, ConnectorEvent, ConnectorModel, Directive,
    DirectiveModel, IncomingMessage, LoginResp, MessageModel, PayloadKind, ShutdownMode, Stage,
    StageModel, Step, LOGIN_TIMEOUT, PREVIEW_LEN, REFUSED_DELAY, RETRY_DELAY, SHUTDOWN_COUNTDOWN,
};
use crate::state::{ConnectionPhase, EventLevel, SharedState, StateModel};
use crate::text::{first_chars, join, number_text, truth_text};
use crate::wake::{outcome_model, plan_wake_up};

verus! {

/// Whether a message is read from a payload of the given kind.
fn is_of_kind(message: &IncomingMessage, kind: PayloadKind) -> (r: bool)
    ensures
        r == (message@.payload_kind() == Some(kind)),
{
    match message {
        IncomingMessage::LoginResp(_) => kind == PayloadKind::LoginResp,
        IncomingMessage::SyncClientConfigure(_) => kind == PayloadKind::SyncClientConfigure,
        IncomingMessage::ReplyWakeUp(_) => kind == PayloadKind::ReplyWakeUp,
        IncomingMessage::ShutDown => false,
    }
}

/// A connector.
pub struct Connector {
    mode: ShutdownMode,
    stage: Stage,
    attempts: u32,
    config: AppConfig,
    endpoint: String,
    target: String,
    authenticated: bool,
}

impl View for Connector {
    type V = ConnectorModel;

    closed spec fn view(&self) -> ConnectorModel {
        ConnectorModel {
            mode: self.mode,
            stage: self.stage@,
            attempts: self.attempts,
            config: self.config@,
            endpoint: self.endpoint@,
            target: self.target@,
            authenticated: self.authenticated,
        }
    }
}

impl Connector {
    /// A connector before its first attempt.
    pub fn new(mode: ShutdownMode, config: AppConfig) -> (r: Connector)
        ensures
            r@ == ConnectorModel::initial(mode, config@),
    {
        Connector {
            mode,
            stage: Stage::Begin,
            attempts: 0,
            config,
            endpoint: String::new(),
            target: String::new(),
            authenticated: false,
        }
    }

    fn retry(&mut self) -> (r: Directive)
        ensures
            final(self)@ == old(self)@.at(StageModel::Begin),
            r@ == DirectiveModel::Sleep(RETRY_DELAY),
    {
        self.stage = Stage::Begin;
        Directive::Sleep(RETRY_DELAY)
    }

    fn failed(&self, state: &mut SharedState, detail: &str, endpoint: &str, error: &str)
        ensures
            final(state)@ == self@.failed(old(state)@, detail@, endpoint@, error@),
    {
        state.report(
            ConnectionPhase::Error,
            detail,
            endpoint,
            self.attempts,
            Some(error.to_owned()),
        );
    }

    fn frame_handled(&mut self, Ghost(state): Ghost<StateModel>) -> (r: Directive)
        ensures
            (Step { connector: final(self)@, state, directive: r@ }) == old(self)@.frame_handled(
                state,
            ),
    {
        if self.authenticated {
            self.stage = Stage::Reading;
            Directive::Read
        } else {
            self.stage = Stage::CheckingDeadline;
            Directive::CheckDeadline
        }
    }

    fn session_over(&mut self, state: &mut SharedState, timestamp: &str) -> (r: Directive)
        ensures
            (Step { connector: final(self)@, state: final(state)@, directive: r@ }) == old(
                self,
            )@.session_over(old(state)@, timestamp@),
    {
        if self.authenticated {
            state.report(
                ConnectionPhase::Disconnected,
                "连接已断开，稍后自动重试",
                self.target.as_str(),
                self.attempts,
                None,
            );
            state.push_event_at(
                EventLevel::Warning,
                "连接已关闭",
                "后台连接器将在稍后自动重试。",
                timestamp,
            );
            self.retry()
        } else {
            self.stage = Stage::Begin;
            Directive::Sleep(REFUSED_DELAY)
        }
    }

    fn on_wake(&mut self, state: &mut SharedState) -> (r: Directive)
        ensures
            (Step { connector: final(self)@, state: final(state)@, directive: r@ }) == old(
                self,
            )@.on_wake(old(state)@),
    {
        proof {
            reveal(ConnectorModel::on_wake);
        }
        let config = state.config_snapshot();
        let endpoint = normalize_ws_url(config.host.as_str());
        if !config.can_connect() {
            state.report(
                ConnectionPhase::Idle,
                "请先填写主控地址和 Token",
                endpoint.as_str(),
                self.attempts,
                None,
            );
            self.config = config;
            self.endpoint = endpoint;
            self.stage = Stage::Stopped;
            return Directive::Stop;
        }
        self.attempts = self.attempts.saturating_add(1);
        state.report(
            if self.attempts == 1 {
                ConnectionPhase::Connecting
            } else {
                ConnectionPhase::Reconnecting
            },
            "正在连接 Lucky 主控端",
            endpoint.as_str(),
            self.attempts,
            None,
        );
        let transport = choose_transport(endpoint.as_str(), config.skip_cert_verification);
        self.config = config;
        self.endpoint = endpoint.clone();
        self.stage = Stage::Resolving;
        Directive::Probe { endpoint, transport }
    }

    fn on_probed(
        &mut self,
        state: &mut SharedState,
        outcome: ProbeOutcome,
        timestamp: &str,
    ) -> (r: Directive)
        ensures
            (Step { connector: final(self)@, state: final(state)@, directive: r@ }) == old(
                self,
            )@.on_probed(old(state)@, outcome@, timestamp@),
    {
        proof {
            reveal(ConnectorModel::on_probed);
        }
        match resolve_websocket_endpoint(self.endpoint.as_str(), outcome) {
            Err(error) => {
                self.failed(
                    state,
                    "无法连接到主控端",
                    self.endpoint.as_str(),
                    error.as_str(),
                );
                state.push_event_at(EventLevel::Error, "连接失败", error.as_str(), timestamp);
                self.retry()
            },
            Ok(target) => {
                let transport = choose_transport(
                    target.as_str(),
                    self.config.skip_cert_verification,
                );
                self.target = target.clone();
                self.stage = Stage::Connecting;
                Directive::Connect { target, transport }
            },
        }
    }

    fn on_connected(
        &mut self,
        state: &mut SharedState,
        result: Result<(), String>,
        moment: &Moment,
    ) -> (r: Directive)
        ensures
            (Step { connector: final(self)@, state: final(state)@, directive: r@ }) == old(
                self,
            )@.on_connected(old(state)@, outcome_model(result), moment@),
    {
        proof {
            reveal(ConnectorModel::on_connected);
        }
        let timestamp = moment.timestamp.as_str();
        if let Err(error) = result {
            self.failed(state, "无法连接到主控端", self.target.as_str(), error.as_str());
            state.push_event_at(EventLevel::Error, "连接失败", error.as_str(), timestamp);
            return self.retry();
        }
        let mut detail = join("已连接到 ", self.target.as_str());
        detail.append("，等待 Lucky 登录响应。");
        state.push_event_at(EventLevel::Success, "WebSocket 已连接", detail.as_str(), timestamp);
        match create_login_message_at(&self.config, moment.unix_seconds) {
            None => {
                self.stage = Stage::Stopped;
                Directive::Stop
            },
            Some(Err(error)) => {
                state.push_event_at(EventLevel::Error, "协议封包失败", error.as_str(), timestamp);
                self.failed(state, "协议消息构造失败", self.target.as_str(), error.as_str());
                self.retry()
            },
            Some(Ok(text)) => {
                let mut login = join("deviceKey=", self.config.device_key.as_str());
                login.append(" mac=");
                login.append(self.config.mac.as_str());
                login.append(" relay=");
                login.append(truth_text(self.config.relay));
                login.append(" updateTime=");
                login.append(number_text(self.config.update_time as i128).as_str());
                state.push_event_at(EventLevel::Info, "准备发送 Login", login.as_str(), timestamp);
                self.stage = Stage::SendingLogin;
                Directive::SendLogin(text)
            },
        }
    }

    fn on_login_sent(
        &mut self,
        state: &mut SharedState,
        result: Result<(), String>,
        timestamp: &str,
    ) -> (r: Directive)
        ensures
            (Step { connector: final(self)@, state: final(state)@, directive: r@ }) == old(
                self,
            )@.on_login_sent(old(state)@, outcome_model(result), timestamp@),
    {
        proof {
            reveal(ConnectorModel::on_login_sent);
        }
        if let Err(error) = result {
            self.failed(state, "登录消息发送失败", self.target.as_str(), error.as_str());
            state.push_event_at(EventLevel::Error, "登录发送失败", error.as_str(), timestamp);
            return self.retry();
        }
        state.push_event_at(
            EventLevel::Info,
            "Login 已发送",
            "已向 Lucky 主控端发送登录消息，等待响应。",
            timestamp,
        );
        self.authenticated = false;
        self.stage = Stage::Reading;
        Directive::AwaitLogin(LOGIN_TIMEOUT)
    }

    fn on_unreadable(&mut self, state: &mut SharedState, error: &str, timestamp: &str) -> (r:
        Directive)
        ensures
            (Step { connector: final(self)@, state: final(state)@, directive: r@ }) == old(
                self,
            )@.on_unreadable(old(state)@, error@, timestamp@),
    {
        state.push_event_at(EventLevel::Warning, "入站消息解析失败", error, timestamp);
        self.frame_handled(Ghost(state@))
    }

    fn on_login_resp(
        &mut self,
        state: &mut SharedState,
        response: &LoginResp,
        timestamp: &str,
    ) -> (r: Directive)
        ensures
            (Step { connector: final(self)@, state: final(state)@, directive: r@ }) == old(
                self,
            )@.on_login_resp(old(state)@, response@, timestamp@),
    {
        proof {
            reveal(ConnectorModel::on_login_resp);
        }
        let mut seen = join("ret=", number_text(response.ret as i128).as_str());
        seen.append(" msg=");
        seen.append(response.msg.as_str());
        seen.append(" systemNowTime=");
        seen.append(number_text(response.system_now_time as i128).as_str());
        state.push_event_at(EventLevel::Info, "收到 LoginResp", seen.as_str(), timestamp);
        if response.ret == 0 {
            self.authenticated = true;
            state.report(
                ConnectionPhase::Connected,
                "主控连接正常",
                self.target.as_str(),
                self.attempts,
                None,
            );
            state.push_event_at(
                EventLevel::Success,
                "鉴权成功",
                "Lucky 主控端已接受当前设备。",
                timestamp,
            );
            self.frame_handled(Ghost(state@))
        } else {
            self.failed(
                state,
                "主控端拒绝登录",
                self.target.as_str(),
                response.msg.as_str(),
            );
            state.push_event_at(
                EventLevel::Error,
                "登录被拒绝",
                response.msg.as_str(),
                timestamp,
            );
            self.session_over(state, timestamp)
        }
    }

    fn on_sync(
        &mut self,
        state: &mut SharedState,
        sync: SyncClientConfigure,
        timestamp: &str,
    ) -> (r: Directive)
        ensures
            (Step { connector: final(self)@, state: final(state)@, directive: r@ }) == old(
                self,
            )@.on_sync(old(state)@, sync@, timestamp@),
    {
        proof {
            reveal(ConnectorModel::on_sync);
        }
        let mut seen = join("deviceName=", sync.device_name.as_str());
        seen.append(" mac=");
        seen.append(sync.mac.as_str());
        seen.append(" broadcastIp=");
        seen.append(sync.broadcast_ip.as_str());
        let next = state.config_snapshot().apply_sync(sync);
        state.push_event_at(EventLevel::Info, "收到配置同步", seen.as_str(), timestamp);
        self.stage = Stage::Persisting(next.clone());
        Directive::Persist(next)
    }

    fn on_shut_down(&mut self, state: &mut SharedState, moment: &Moment) -> (r: Directive)
        requires
            old(self)@.countdown_fits(moment@),
        ensures
            (Step { connector: final(self)@, state: final(state)@, directive: r@ }) == old(
                self,
            )@.on_shut_down(old(state)@, moment@),
    {
        proof {
            reveal(ConnectorModel::on_shut_down);
        }
        match self.mode {
            ShutdownMode::Immediate => {
                let command = state.config_snapshot().power_off_cmd;
                self.stage = Stage::PoweringOff;
                Directive::PowerOff(command)
            },
            ShutdownMode::Prompt => {
                state.schedule_shutdown_prompt(SHUTDOWN_COUNTDOWN, moment.unix_millis);
                state.push_event_at(
                    EventLevel::Warning,
                    "收到关机指令",
                    "主控端请求 30 秒后关机，用户可以取消或立即执行。",
                    moment.timestamp.as_str(),
                );
                self.frame_handled(Ghost(state@))
            },
        }
    }

    fn on_message(
        &mut self,
        state: &mut SharedState,
        message: IncomingMessage,
        moment: &Moment,
    ) -> (r: Directive)
        requires
            message@ is ShutDown ==> old(self)@.countdown_fits(moment@),
        ensures
            (Step { connector: final(self)@, state: final(state)@, directive: r@ }) == old(
                self,
            )@.on_message(old(state)@, message@, moment@),
    {
        proof {
            reveal(ConnectorModel::on_message);
        }
        match message {
            IncomingMessage::LoginResp(response) => self.on_login_resp(
                state,
                &response,
                moment.timestamp.as_str(),
            ),
            IncomingMessage::SyncClientConfigure(sync) => self.on_sync(
                state,
                sync,
                moment.timestamp.as_str(),
            ),
            IncomingMessage::ReplyWakeUp(payload) => {
                self.stage = Stage::Relaying;
                Directive::Relay(plan_wake_up(&payload))
            },
            IncomingMessage::ShutDown => self.on_shut_down(state, moment),
        }
    }

    fn on_text(&mut self, state: &mut SharedState, text: &str, moment: &Moment) -> (r: Directive)
        requires
            unpacked(text@, old(self)@.config.message_key) == Ok::<FrameModel, Seq<char>>(
                FrameModel::ShutDown,
            ) ==> old(self)@.countdown_fits(moment@),
        ensures
            (Step { connector: final(self)@, state: final(state)@, directive: r@ }) == old(
                self,
            )@.on_text(old(state)@, text@, moment@),
    {
        proof {
            reveal(ConnectorModel::on_text);
        }
        let len: usize = text.as_bytes().len();
        let mut preview = join("长度=", number_text(len as i128).as_str());
        preview.append("，预览=");
        preview.append(first_chars(text, PREVIEW_LEN));
        assert(text@.len() == PREVIEW_LEN ==> text@.take(PREVIEW_LEN as int) == text@);
        assert(preview@ == preview_text(text@));
        state.push_event_at(
            EventLevel::Info,
            "收到入站文本消息",
            preview.as_str(),
            moment.timestamp.as_str(),
        );
        match unpack_message(text, self.config.message_key.as_str()) {
            Err(error) => self.on_unreadable(state, error.as_str(), moment.timestamp.as_str()),
            Ok(IncomingFrame::ShutDown) => self.on_message(
                state,
                IncomingMessage::ShutDown,
                moment,
            ),
            Ok(frame) => {
                let kind = match &frame {
                    IncomingFrame::LoginResp(_) => PayloadKind::LoginResp,
                    IncomingFrame::SyncClientConfigure(_) => PayloadKind::SyncClientConfigure,
                    _ => PayloadKind::ReplyWakeUp,
                };
                self.stage = Stage::Decoding(kind);
                Directive::Decode(frame)
            },
        }
    }

    fn on_decoded(
        &mut self,
        state: &mut SharedState,
        result: Result<IncomingMessage, String>,
        moment: &Moment,
    ) -> (r: Directive)
        requires
            decoded_model(result) == Ok::<MessageModel, Seq<char>>(MessageModel::ShutDown) ==> old(
                self,
            )@.countdown_fits(moment@),
        ensures
            (Step { connector: final(self)@, state: final(state)@, directive: r@ }) == old(
                self,
            )@.on_decoded(old(state)@, decoded_model(result), moment@),
    {
        match result {
            Ok(message) => self.on_message(state, message, moment),
            Err(error) => self.on_unreadable(state, error.as_str(), moment.timestamp.as_str()),
        }
    }

    fn on_persisted(
        &mut self,
        state: &mut SharedState,
        next: AppConfig,
        result: Result<(), String>,
        timestamp: &str,
    ) -> (r: Directive)
        requires
            old(self)@.stage is Persisting,
            old(self)@.stage->Persisting_0 == next@,
        ensures
            (Step { connector: final(self)@, state: final(state)@, directive: r@ }) == old(
                self,
            )@.on_persisted(old(state)@, outcome_model(result), timestamp@),
    {
        proof {
            reveal(ConnectorModel::on_persisted);
        }
        match state.set_config(next, result) {
            Ok(_) => state.push_event_at(
                EventLevel::Info,
                "配置已同步",
                "主控端配置变更已应用到本地。",
                timestamp,
            ),
            Err(error) => state.push_event_at(
                EventLevel::Warning,
                "配置同步警告",
                error.as_str(),
                timestamp,
            ),
        }
        self.frame_handled(Ghost(state@))
    }

    fn on_relayed(
        &mut self,
        state: &mut SharedState,
        result: Result<(), String>,
        timestamp: &str,
    ) -> (r: Directive)
        ensures
            (Step { connector: final(self)@, state: final(state)@, directive: r@ }) == old(
                self,
            )@.on_relayed(old(state)@, outcome_model(result), timestamp@),
    {
        proof {
            reveal(ConnectorModel::on_relayed);
        }
        match result {
            Ok(_) => state.push_event_at(
                EventLevel::Success,
                "已发送唤醒中继",
                "魔术包已经在当前局域网内广播。",
                timestamp,
            ),
            Err(error) => state.push_event_at(
                EventLevel::Error,
                "唤醒中继失败",
                error.as_str(),
                timestamp,
            ),
        }
        self.frame_handled(Ghost(state@))
    }

    fn on_powered_off(
        &mut self,
        state: &mut SharedState,
        result: Result<(), String>,
        timestamp: &str,
    ) -> (r: Directive)
        ensures
            (Step { connector: final(self)@, state: final(state)@, directive: r@ }) == old(
                self,
            )@.on_powered_off(old(state)@, outcome_model(result), timestamp@),
    {
        proof {
            reveal(ConnectorModel::on_powered_off);
        }
        match result {
            Ok(_) => state.push_event_at(
                EventLevel::Warning,
                "收到关机指令",
                "本机关机命令已经执行。",
                timestamp,
            ),
            Err(error) => state.push_event_at(
                EventLevel::Error,
                "关机命令执行失败",
                error.as_str(),
                timestamp,
            ),
        }
        self.frame_handled(Ghost(state@))
    }

    fn on_binary(&mut self, state: &mut SharedState, timestamp: &str) -> (r: Directive)
        ensures
            (Step { connector: final(self)@, state: final(state)@, directive: r@ }) == old(
                self,
            )@.on_binary(old(state)@, timestamp@),
    {
        state.push_event_at(
            EventLevel::Warning,
            "收到不支持的帧",
            "当前实现期望接收文本帧，但收到了二进制帧。",
            timestamp,
        );
        self.frame_handled(Ghost(state@))
    }

    fn on_read_failed(&mut self, state: &mut SharedState, error: &str, timestamp: &str) -> (r:
        Directive)
        ensures
            (Step { connector: final(self)@, state: final(state)@, directive: r@ }) == old(
                self,
            )@.on_read_failed(old(state)@, error@, timestamp@),
    {
        self.failed(state, "读取连接数据失败", self.target.as_str(), error);
        state.push_event_at(EventLevel::Error, "主控连接流异常", error, timestamp);
        self.session_over(state, timestamp)
    }

    fn on_deadline(&mut self, state: &mut SharedState, late: bool, timestamp: &str) -> (r:
        Directive)
        ensures
            (Step { connector: final(self)@, state: final(state)@, directive: r@ }) == old(
                self,
            )@.on_deadline(old(state)@, late, timestamp@),
    {
        proof {
            reveal(ConnectorModel::on_deadline);
        }
        if late {
            state.push_event_at(
                EventLevel::Warning,
                "登录响应超时",
                "WebSocket 已连接，但在 8 秒内未收到 Lucky LoginResp。",
                timestamp,
            );
            self.failed(
                state,
                "已连接主控端，但未收到登录响应",
                self.target.as_str(),
                "LoginResp timeout",
            );
            self.session_over(state, timestamp)
        } else {
            self.stage = Stage::Reading;
            Directive::Read
        }
    }

    /// A step of an attempt that has not logged in yet.
    fn step_attempt(&mut self, state: &mut SharedState, event: ConnectorEvent, moment: &Moment) -> (r:
        Directive)
        requires
            ({
                ||| old(self)@.stage is Begin
                ||| old(self)@.stage is Resolving
                ||| old(self)@.stage is Connecting
                ||| old(self)@.stage is SendingLogin
            }),
        ensures
            (Step { connector: final(self)@, state: final(state)@, directive: r@ }) == old(
                self,
            )@.step(old(state)@, event@, moment@),
    {
        let timestamp = moment.timestamp.as_str();
        match (&self.stage, event) {
            (Stage::Begin, ConnectorEvent::Wake) => self.on_wake(state),
            (Stage::Resolving, ConnectorEvent::Probed(outcome)) => self.on_probed(
                state,
                outcome,
                timestamp,
            ),
            (Stage::Connecting, ConnectorEvent::Connected(result)) => self.on_connected(
                state,
                result,
                moment,
            ),
            (Stage::SendingLogin, ConnectorEvent::LoginSent(result)) => self.on_login_sent(
                state,
                result,
                timestamp,
            ),
            _ => Directive::Ignore,
        }
    }

    /// A step of a session that reads.
    fn step_frame(&mut self, state: &mut SharedState, event: ConnectorEvent, moment: &Moment) -> (r:
        Directive)
        requires
            old(self)@.stage is Reading,
            !old(self)@.overflows(event@, moment@),
        ensures
            (Step { connector: final(self)@, state: final(state)@, directive: r@ }) == old(
                self,
            )@.step(old(state)@, event@, moment@),
    {
        let timestamp = moment.timestamp.as_str();
        match event {
            ConnectorEvent::Text(text) => self.on_text(state, text.as_str(), moment),
            ConnectorEvent::Binary => self.on_binary(state, timestamp),
            ConnectorEvent::OtherFrame => self.frame_handled(Ghost(state@)),
            ConnectorEvent::Closed => self.session_over(state, timestamp),
            ConnectorEvent::ReadFailed(error) => self.on_read_failed(
                state,
                error.as_str(),
                timestamp,
            ),
            _ => Directive::Ignore,
        }
    }

    /// A step of a session that is busy with a message.
    fn step_message(&mut self, state: &mut SharedState, event: ConnectorEvent, moment: &Moment) -> (r:
        Directive)
        requires
            ({
                ||| old(self)@.stage is Decoding
                ||| old(self)@.stage is Persisting
                ||| old(self)@.stage is Relaying
                ||| old(self)@.stage is PoweringOff
                ||| old(self)@.stage is CheckingDeadline
            }),
            !old(self)@.overflows(event@, moment@),
        ensures
            (Step { connector: final(self)@, state: final(state)@, directive: r@ }) == old(
                self,
            )@.step(old(state)@, event@, moment@),
    {
        let timestamp = moment.timestamp.as_str();
        match event {
            ConnectorEvent::Decoded(result) => {
                let answers = match (&self.stage, &result) {
                    (Stage::Decoding(_), Err(_)) => true,
                    (Stage::Decoding(kind), Ok(message)) => is_of_kind(message, *kind),
                    _ => false,
                };
                if !answers {
                    return Directive::Ignore;
                }
                self.on_decoded(state, result, moment)
            },
            ConnectorEvent::Persisted(result) => {
                let next = match &self.stage {
                    Stage::Persisting(next) => next.clone(),
                    _ => return Directive::Ignore,
                };
                self.on_persisted(state, next, result, timestamp)
            },
            ConnectorEvent::Relayed(result) => {
                if !matches!(self.stage, Stage::Relaying) {
                    return Directive::Ignore;
                }
                self.on_relayed(state, result, timestamp)
            },
            ConnectorEvent::PoweredOff(result) => {
                if !matches!(self.stage, Stage::PoweringOff) {
                    return Directive::Ignore;
                }
                self.on_powered_off(state, result, timestamp)
            },
            ConnectorEvent::DeadlineChecked(late) => {
                if !matches!(self.stage, Stage::CheckingDeadline) {
                    return Directive::Ignore;
                }
                self.on_deadline(state, late, timestamp)
            },
            _ => Directive::Ignore,
        }
    }

    /// One step: takes in what happened at the given moment, changes the shared state, and says
    /// what to do next. An event that the stage does not wait for changes nothing.
    pub fn step(&mut self, state: &mut SharedState, event: ConnectorEvent, moment: &Moment) -> (r:
        Directive)
        requires
            !old(self)@.overflows(event@, moment@),
        ensures
            (Step { connector: final(self)@, state: final(state)@, directive: r@ }) == old(
                self,
            )@.step(old(state)@, event@, moment@),
    {
        match &self.stage {
            Stage::Begin | Stage::Resolving | Stage::Connecting | Stage::SendingLogin => {
                self.step_attempt(state, event, moment)
            },
            Stage::Reading => self.step_frame(state, event, moment),
            Stage::Stopped => Directive::Ignore,
            _ => self.step_message(state, event, moment),
        }
    }

    /// Whether an event is a request to shut down that this stage waits for.
    fn is_asked_to_shut_down(&self, event: &ConnectorEvent) -> (r: bool)
        ensures
            r == (self@.expects(event@) && asks_to_shut_down(event@, self@.config.message_key)),
    {
        match (&self.stage, event) {
            (Stage::Reading, ConnectorEvent::Text(text)) => {
                match unpack_message(text.as_str(), self.config.message_key.as_str()) {
                    Ok(IncomingFrame::ShutDown) => true,
                    _ => false,
                }
            },
            _ => false,
        }
    }

    /// One step, at whatever moment. There is none, and nothing changes, where the event starts a
    /// countdown whose end cannot be told.
    pub fn try_step(
        &mut self,
        state: &mut SharedState,
        event: ConnectorEvent,
        moment: &Moment,
    ) -> (r: Option<Directive>)
        ensures
            r is None <==> old(self)@.overflows(event@, moment@),
            match r {
                Some(directive) => (Step {
                    connector: final(self)@,
                    state: final(state)@,
                    directive: directive@,
                }) == old(self)@.step(old(state)@, event@, moment@),
                None => final(self)@ == old(self)@ && final(state)@ == old(state)@,
            },
    {
        let fits = match self.mode {
            ShutdownMode::Immediate => true,
            ShutdownMode::Prompt => moment.unix_millis <= i64::MAX - SHUTDOWN_COUNTDOWN as i64
                * 1000,
        };
        if !fits && self.is_asked_to_shut_down(&event) {
            return None;
        }
        Some(self.step(state, event, moment))
    }
}

} // verus!
