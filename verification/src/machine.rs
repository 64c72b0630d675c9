//! The connector as a state machine: what it waits for, what can happen to it, what it asks for,
//! and what each step comes to.

use vstd::prelude::*;
use vstd::utf8::encode_utf8;

use crate::clock::MomentModel;
use crate::config::{AppConfig, ConfigModel, SyncClientConfigure, SyncModel};
use crate::endpoint::{resolved, transport_for, ws_url, ProbeModel, ProbeOutcome, Transport};
use crate::envelope::{unpacked, FrameModel, IncomingFrame};
use crate::login::login_message;
use crate::state::{ConnectionPhase, EventLevel, StateModel};
use crate::text::{decimal, truth};
use crate::wake::{
    datagram_models, outcome_model, DatagramModel, ReplyWakeUp, WakePlan, WakeUpModel,
};

verus! {

/// How long a shutdown stays pending, in seconds.
pub const SHUTDOWN_COUNTDOWN: u32 = 30;

/// How long the controller may take to answer a login, in seconds.
pub const LOGIN_TIMEOUT: u64 = 8;

/// How long to wait after a failure or a lost connection, in seconds.
pub const RETRY_DELAY: u64 = 3;

/// How long to wait after a session that was never accepted, in seconds.
pub const REFUSED_DELAY: u64 = 4;

/// How many characters of a message the log shows.
pub const PREVIEW_LEN: usize = 96;

/// What a request to shut down does.
#[derive(Clone, Copy, Debug, PartialEq, Eq, Structural)]
pub enum ShutdownMode {
    /// It runs the power command at once.
    Immediate,
    /// It starts a countdown that the user can cancel.
    Prompt,
}

/// The controller's answer to a login.
pub struct LoginResp {
    pub ret: i32,
    pub msg: String,
    pub system_now_time: i64,
}

/// The model of [`LoginResp`].
pub struct LoginRespModel {
    pub ret: i32,
    pub msg: Seq<char>,
    pub system_now_time: i64,
}

impl View for LoginResp {
    type V = LoginRespModel;

    open spec fn view(&self) -> LoginRespModel {
        LoginRespModel {
            ret: self.ret,
            msg: self.msg@,
            system_now_time: self.system_now_time,
        }
    }
}

/// A message from the controller.
pub enum IncomingMessage {
    LoginResp(LoginResp),
    SyncClientConfigure(SyncClientConfigure),
    ReplyWakeUp(ReplyWakeUp),
    ShutDown,
}

/// The model of [`IncomingMessage`].
pub enum MessageModel {
    LoginResp(LoginRespModel),
    SyncClientConfigure(SyncModel),
    ReplyWakeUp(WakeUpModel),
    ShutDown,
}

impl View for IncomingMessage {
    type V = MessageModel;

    open spec fn view(&self) -> MessageModel {
        match self {
            IncomingMessage::LoginResp(response) => MessageModel::LoginResp(response@),
            IncomingMessage::SyncClientConfigure(sync) => MessageModel::SyncClientConfigure(sync@),
            IncomingMessage::ReplyWakeUp(payload) => MessageModel::ReplyWakeUp(payload@),
            IncomingMessage::ShutDown => MessageModel::ShutDown,
        }
    }
}

/// What the payload of a message stands for.
#[derive(Clone, Copy, Debug, PartialEq, Eq, Structural)]
pub enum PayloadKind {
    LoginResp,
    SyncClientConfigure,
    ReplyWakeUp,
}

impl FrameModel {
    /// What the payload stands for; a request to shut down needs none.
    pub open spec fn payload_kind(self) -> Option<PayloadKind> {
        match self {
            FrameModel::LoginResp(_) => Some(PayloadKind::LoginResp),
            FrameModel::SyncClientConfigure(_) => Some(PayloadKind::SyncClientConfigure),
            FrameModel::ReplyWakeUp(_) => Some(PayloadKind::ReplyWakeUp),
            FrameModel::ShutDown => None,
        }
    }
}

impl MessageModel {
    /// What the payload stood for that this message was read from, if it was read from one.
    pub open spec fn payload_kind(self) -> Option<PayloadKind> {
        match self {
            MessageModel::LoginResp(_) => Some(PayloadKind::LoginResp),
            MessageModel::SyncClientConfigure(_) => Some(PayloadKind::SyncClientConfigure),
            MessageModel::ReplyWakeUp(_) => Some(PayloadKind::ReplyWakeUp),
            MessageModel::ShutDown => None,
        }
    }
}

/// Whether a payload of the given kind can be decoded to this: to a message of that kind, or not
/// at all.
pub open spec fn decodes_to(kind: PayloadKind, result: Result<MessageModel, Seq<char>>) -> bool {
    match result {
        Ok(message) => message.payload_kind() == Some(kind),
        Err(_) => true,
    }
}

/// What a connector is waiting for.
pub enum Stage {
    /// The time of the next attempt.
    Begin,
    /// How the probe of the endpoint goes.
    Resolving,
    /// How the connection goes.
    Connecting,
    /// Whether the login message went out.
    SendingLogin,
    /// The next frame.
    Reading,
    /// What the payload of a message says, which is of the given kind.
    Decoding(PayloadKind),
    /// Whether a configuration could be written to the disk.
    Persisting(AppConfig),
    /// Whether magic packets could be sent.
    Relaying,
    /// How the power command went.
    PoweringOff,
    /// Whether the controller is late with its answer to the login.
    CheckingDeadline,
    /// Nothing: the connector has ended.
    Stopped,
}

/// The model of [`Stage`].
pub enum StageModel {
    Begin,
    Resolving,
    Connecting,
    SendingLogin,
    Reading,
    Decoding(PayloadKind),
    Persisting(ConfigModel),
    Relaying,
    PoweringOff,
    CheckingDeadline,
    Stopped,
}

impl View for Stage {
    type V = StageModel;

    open spec fn view(&self) -> StageModel {
        match self {
            Stage::Begin => StageModel::Begin,
            Stage::Resolving => StageModel::Resolving,
            Stage::Connecting => StageModel::Connecting,
            Stage::SendingLogin => StageModel::SendingLogin,
            Stage::Reading => StageModel::Reading,
            Stage::Decoding(kind) => StageModel::Decoding(*kind),
            Stage::Persisting(next) => StageModel::Persisting(next@),
            Stage::Relaying => StageModel::Relaying,
            Stage::PoweringOff => StageModel::PoweringOff,
            Stage::CheckingDeadline => StageModel::CheckingDeadline,
            Stage::Stopped => StageModel::Stopped,
        }
    }
}

/// Something that happened to a connector.
pub enum ConnectorEvent {
    /// It is time for the next attempt.
    Wake,
    /// The endpoint has been probed.
    Probed(ProbeOutcome),
    /// The connection is up, or not.
    Connected(Result<(), String>),
    /// The login message is out, or not.
    LoginSent(Result<(), String>),
    /// A text frame came in.
    Text(String),
    /// A binary frame came in.
    Binary,
    /// A frame of any other kind came in.
    OtherFrame,
    /// The controller closed the connection, or it ended.
    Closed,
    /// The connection could not be read.
    ReadFailed(String),
    /// The payload of a message has been decoded, or not.
    Decoded(Result<IncomingMessage, String>),
    /// The configuration has been written to the disk, or not.
    Persisted(Result<(), String>),
    /// The magic packets are out, or not.
    Relayed(Result<(), String>),
    /// The power command has been run, or not.
    PoweredOff(Result<(), String>),
    /// Whether the answer to the login is overdue.
    DeadlineChecked(bool),
}

/// The model of [`ConnectorEvent`].
pub enum ConnectorEventModel {
    Wake,
    Probed(ProbeModel),
    Connected(Result<(), Seq<char>>),
    LoginSent(Result<(), Seq<char>>),
    Text(Seq<char>),
    Binary,
    OtherFrame,
    Closed,
    ReadFailed(Seq<char>),
    Decoded(Result<MessageModel, Seq<char>>),
    Persisted(Result<(), Seq<char>>),
    Relayed(Result<(), Seq<char>>),
    PoweredOff(Result<(), Seq<char>>),
    DeadlineChecked(bool),
}

/// A decoded payload with its message or the text of its error taken by their views.
pub open spec fn decoded_model(r: Result<IncomingMessage, String>) -> Result<
    MessageModel,
    Seq<char>,
> {
    match r {
        Ok(message) => Ok(message@),
        Err(error) => Err(error@),
    }
}

impl View for ConnectorEvent {
    type V = ConnectorEventModel;

    open spec fn view(&self) -> ConnectorEventModel {
        match self {
            ConnectorEvent::Wake => ConnectorEventModel::Wake,
            ConnectorEvent::Probed(outcome) => ConnectorEventModel::Probed(outcome@),
            ConnectorEvent::Connected(r) => ConnectorEventModel::Connected(outcome_model(*r)),
            ConnectorEvent::LoginSent(r) => ConnectorEventModel::LoginSent(outcome_model(*r)),
            ConnectorEvent::Text(text) => ConnectorEventModel::Text(text@),
            ConnectorEvent::Binary => ConnectorEventModel::Binary,
            ConnectorEvent::OtherFrame => ConnectorEventModel::OtherFrame,
            ConnectorEvent::Closed => ConnectorEventModel::Closed,
            ConnectorEvent::ReadFailed(error) => ConnectorEventModel::ReadFailed(error@),
            ConnectorEvent::Decoded(r) => ConnectorEventModel::Decoded(decoded_model(*r)),
            ConnectorEvent::Persisted(r) => ConnectorEventModel::Persisted(outcome_model(*r)),
            ConnectorEvent::Relayed(r) => ConnectorEventModel::Relayed(outcome_model(*r)),
            ConnectorEvent::PoweredOff(r) => ConnectorEventModel::PoweredOff(outcome_model(*r)),
            ConnectorEvent::DeadlineChecked(late) => ConnectorEventModel::DeadlineChecked(*late),
        }
    }
}

/// What to do next.
pub enum Directive {
    /// Connect to the endpoint once, to see where it leads.
    Probe { endpoint: String, transport: Transport },
    /// Connect.
    Connect { target: String, transport: Transport },
    /// Send a text frame.
    SendLogin(String),
    /// Give the controller so many seconds to answer, and read the next frame.
    AwaitLogin(u64),
    /// Read the next frame.
    Read,
    /// Decode the payload of a message.
    Decode(IncomingFrame),
    /// Write a configuration to the disk.
    Persist(AppConfig),
    /// Send magic packets.
    Relay(WakePlan),
    /// Run a power command.
    PowerOff(String),
    /// See whether the time to answer is over.
    CheckDeadline,
    /// Wait so many seconds, and wake the connector.
    Sleep(u64),
    /// End the connector.
    Stop,
    /// Nothing: the event was not one to wait for.
    Ignore,
}

/// The model of [`Directive`].
pub enum DirectiveModel {
    Probe { endpoint: Seq<char>, transport: Transport },
    Connect { target: Seq<char>, transport: Transport },
    SendLogin(Seq<char>),
    AwaitLogin(u64),
    Read,
    Decode(FrameModel),
    Persist(ConfigModel),
    Relay { datagrams: Seq<DatagramModel>, outcome: Result<(), Seq<char>> },
    PowerOff(Seq<char>),
    CheckDeadline,
    Sleep(u64),
    Stop,
    Ignore,
}

impl View for Directive {
    type V = DirectiveModel;

    open spec fn view(&self) -> DirectiveModel {
        match self {
            Directive::Probe { endpoint, transport } => DirectiveModel::Probe {
                endpoint: endpoint@,
                transport: *transport,
            },
            Directive::Connect { target, transport } => DirectiveModel::Connect {
                target: target@,
                transport: *transport,
            },
            Directive::SendLogin(text) => DirectiveModel::SendLogin(text@),
            Directive::AwaitLogin(seconds) => DirectiveModel::AwaitLogin(*seconds),
            Directive::Read => DirectiveModel::Read,
            Directive::Decode(frame) => DirectiveModel::Decode(frame@),
            Directive::Persist(config) => DirectiveModel::Persist(config@),
            Directive::Relay(plan) => DirectiveModel::Relay {
                datagrams: datagram_models(plan.datagrams@),
                outcome: outcome_model(plan.outcome),
            },
            Directive::PowerOff(command) => DirectiveModel::PowerOff(command@),
            Directive::CheckDeadline => DirectiveModel::CheckDeadline,
            Directive::Sleep(seconds) => DirectiveModel::Sleep(*seconds),
            Directive::Stop => DirectiveModel::Stop,
            Directive::Ignore => DirectiveModel::Ignore,
        }
    }
}

/// The model of [`Connector`].
pub struct ConnectorModel {
    pub mode: ShutdownMode,
    pub stage: StageModel,
    /// How many attempts there have been.
    pub attempts: u32,
    /// The configuration of this attempt.
    pub config: ConfigModel,
    /// The endpoint of this attempt.
    pub endpoint: Seq<char>,
    /// Where the endpoint led.
    pub target: Seq<char>,
    /// Whether the controller has accepted the login of this session.
    pub authenticated: bool,
}

/// What one step comes to.
pub struct Step {
    pub connector: ConnectorModel,
    pub state: StateModel,
    pub directive: DirectiveModel,
}

/// What the log says of a connection that is up.
pub open spec fn connected_text(target: Seq<char>) -> Seq<char> {
    "已连接到 "@ + target + "，等待 Lucky 登录响应。"@
}

/// What the log says of a login that is about to go out.
pub open spec fn login_text(config: ConfigModel) -> Seq<char> {
    "deviceKey="@ + config.device_key + " mac="@ + config.mac + " relay="@ + truth(config.relay)
        + " updateTime="@ + decimal(config.update_time as int)
}

/// What the log says of a text frame: its length in bytes, and how it begins.
pub open spec fn preview_text(text: Seq<char>) -> Seq<char> {
    "长度="@ + decimal(encode_utf8(text).len() as int) + "，预览="@ + if text.len() <= PREVIEW_LEN {
        text
    } else {
        text.take(PREVIEW_LEN as int)
    }
}

/// What the log says of an answer to a login.
pub open spec fn response_text(response: LoginRespModel) -> Seq<char> {
    "ret="@ + decimal(response.ret as int) + " msg="@ + response.msg + " systemNowTime="@ + decimal(
        response.system_now_time as int,
    )
}

/// What the log says of settings that came in.
pub open spec fn sync_text(sync: SyncModel) -> Seq<char> {
    "deviceName="@ + sync.device_name + " mac="@ + sync.mac + " broadcastIp="@ + sync.broadcast_ip
}

/// Whether an event brings a request to shut down, for a session under the given key.
pub open spec fn asks_to_shut_down(event: ConnectorEventModel, message_key: Seq<char>) -> bool {
    match event {
        ConnectorEventModel::Text(text) => unpacked(text, message_key) == Ok::<
            FrameModel,
            Seq<char>,
        >(FrameModel::ShutDown),
        _ => false,
    }
}

impl ConnectorModel {
    /// A connector before its first attempt.
    pub open spec fn initial(mode: ShutdownMode, config: ConfigModel) -> ConnectorModel {
        ConnectorModel {
            mode,
            stage: StageModel::Begin,
            attempts: 0,
            config,
            endpoint: Seq::empty(),
            target: Seq::empty(),
            authenticated: false,
        }
    }

    /// The connector at another stage.
    pub open spec fn at(self, stage: StageModel) -> ConnectorModel {
        ConnectorModel { stage, ..self }
    }

    /// Whether the end of a countdown that starts at a moment can be told in milliseconds.
    pub open spec fn countdown_fits(self, moment: MomentModel) -> bool {
        self.mode == ShutdownMode::Prompt ==> moment.unix_millis + SHUTDOWN_COUNTDOWN * 1000
            <= i64::MAX
    }

    /// Whether an event is one that this stage waits for.
    pub open spec fn expects(self, event: ConnectorEventModel) -> bool {
        match event {
            ConnectorEventModel::Wake => self.stage is Begin,
            ConnectorEventModel::Probed(_) => self.stage is Resolving,
            ConnectorEventModel::Connected(_) => self.stage is Connecting,
            ConnectorEventModel::LoginSent(_) => self.stage is SendingLogin,
            ConnectorEventModel::Text(_) => self.stage is Reading,
            ConnectorEventModel::Binary => self.stage is Reading,
            ConnectorEventModel::OtherFrame => self.stage is Reading,
            ConnectorEventModel::Closed => self.stage is Reading,
            ConnectorEventModel::ReadFailed(_) => self.stage is Reading,
            ConnectorEventModel::Decoded(result) => self.stage is Decoding && decodes_to(
                self.stage->Decoding_0,
                result,
            ),
            ConnectorEventModel::Persisted(_) => self.stage is Persisting,
            ConnectorEventModel::Relayed(_) => self.stage is Relaying,
            ConnectorEventModel::PoweredOff(_) => self.stage is PoweringOff,
            ConnectorEventModel::DeadlineChecked(_) => self.stage is CheckingDeadline,
        }
    }

    /// Whether an event is one that cannot be acted on: a request to start a countdown whose end
    /// cannot be told.
    pub open spec fn overflows(self, event: ConnectorEventModel, moment: MomentModel) -> bool {
        &&& self.expects(event)
        &&& asks_to_shut_down(event, self.config.message_key)
        &&& !self.countdown_fits(moment)
    }

    /// The attempt has failed: wait, then try again.
    pub open spec fn retry(self, state: StateModel) -> Step {
        Step {
            connector: self.at(StageModel::Begin),
            state,
            directive: DirectiveModel::Sleep(RETRY_DELAY),
        }
    }

    /// A report that the attempt has failed with an error.
    pub open spec fn failed(
        self,
        state: StateModel,
        detail: Seq<char>,
        endpoint: Seq<char>,
        error: Seq<char>,
    ) -> StateModel {
        state.reported(ConnectionPhase::Error, detail, endpoint, self.attempts, Some(error))
    }

    /// A frame has been dealt with: read on, but keep an eye on the time before the controller
    /// has accepted the login.
    pub open spec fn frame_handled(self, state: StateModel) -> Step {
        if self.authenticated {
            Step {
                connector: self.at(StageModel::Reading),
                state,
                directive: DirectiveModel::Read,
            }
        } else {
            Step {
                connector: self.at(StageModel::CheckingDeadline),
                state,
                directive: DirectiveModel::CheckDeadline,
            }
        }
    }

    /// The session is over: wait, then try again.
    pub open spec fn session_over(self, state: StateModel, stamp: Seq<char>) -> Step {
        if self.authenticated {
            self.retry(
                state.reported(
                    ConnectionPhase::Disconnected,
                    "连接已断开，稍后自动重试"@,
                    self.target,
                    self.attempts,
                    None,
                ).logged(
                    EventLevel::Warning,
                    "连接已关闭"@,
                    "后台连接器将在稍后自动重试。"@,
                    stamp,
                ),
            )
        } else {
            Step {
                connector: self.at(StageModel::Begin),
                state,
                directive: DirectiveModel::Sleep(REFUSED_DELAY),
            }
        }
    }

    /// The next attempt begins.
    #[verifier::opaque]
    pub open spec fn on_wake(self, state: StateModel) -> Step {
        let config = state.config;
        let endpoint = ws_url(config.host);
        if !config.can_connect() {
            Step {
                connector: ConnectorModel { config, endpoint, ..self.at(StageModel::Stopped) },
                state: state.reported(
                    ConnectionPhase::Idle,
                    "请先填写主控地址和 Token"@,
                    endpoint,
                    self.attempts,
                    None,
                ),
                directive: DirectiveModel::Stop,
            }
        } else {
            let attempts = if self.attempts == u32::MAX {
                u32::MAX
            } else {
                (self.attempts + 1) as u32
            };
            Step {
                connector: ConnectorModel {
                    config,
                    endpoint,
                    attempts,
                    ..self.at(StageModel::Resolving)
                },
                state: state.reported(
                    if attempts == 1 {
                        ConnectionPhase::Connecting
                    } else {
                        ConnectionPhase::Reconnecting
                    },
                    "正在连接 Lucky 主控端"@,
                    endpoint,
                    attempts,
                    None,
                ),
                directive: DirectiveModel::Probe {
                    endpoint,
                    transport: transport_for(endpoint, config.skip_cert_verification),
                },
            }
        }
    }

    /// The endpoint has been probed.
    #[verifier::opaque]
    pub open spec fn on_probed(
        self,
        state: StateModel,
        outcome: ProbeModel,
        stamp: Seq<char>,
    ) -> Step {
        match resolved(self.endpoint, outcome) {
            Err(error) => self.retry(
                self.failed(state, "无法连接到主控端"@, self.endpoint, error).logged(
                    EventLevel::Error,
                    "连接失败"@,
                    error,
                    stamp,
                ),
            ),
            Ok(target) => Step {
                connector: ConnectorModel { target, ..self.at(StageModel::Connecting) },
                state,
                directive: DirectiveModel::Connect {
                    target,
                    transport: transport_for(target, self.config.skip_cert_verification),
                },
            },
        }
    }

    /// The connection is up, or not.
    #[verifier::opaque]
    pub open spec fn on_connected(
        self,
        state: StateModel,
        result: Result<(), Seq<char>>,
        moment: MomentModel,
    ) -> Step {
        let stamp = moment.timestamp;
        match result {
            Err(error) => self.retry(
                self.failed(state, "无法连接到主控端"@, self.target, error).logged(
                    EventLevel::Error,
                    "连接失败"@,
                    error,
                    stamp,
                ),
            ),
            Ok(_) => {
                let up = state.logged(
                    EventLevel::Success,
                    "WebSocket 已连接"@,
                    connected_text(self.target),
                    stamp,
                );
                match login_message(self.config, moment.unix_seconds) {
                    None => Step {
                        connector: self.at(StageModel::Stopped),
                        state: up,
                        directive: DirectiveModel::Stop,
                    },
                    Some(Err(error)) => self.retry(
                        self.failed(
                            up.logged(EventLevel::Error, "协议封包失败"@, error, stamp),
                            "协议消息构造失败"@,
                            self.target,
                            error,
                        ),
                    ),
                    Some(Ok(text)) => Step {
                        connector: self.at(StageModel::SendingLogin),
                        state: up.logged(
                            EventLevel::Info,
                            "准备发送 Login"@,
                            login_text(self.config),
                            stamp,
                        ),
                        directive: DirectiveModel::SendLogin(text),
                    },
                }
            },
        }
    }

    /// The login message is out, or not.
    #[verifier::opaque]
    pub open spec fn on_login_sent(
        self,
        state: StateModel,
        result: Result<(), Seq<char>>,
        stamp: Seq<char>,
    ) -> Step {
        match result {
            Err(error) => self.retry(
                self.failed(state, "登录消息发送失败"@, self.target, error).logged(
                    EventLevel::Error,
                    "登录发送失败"@,
                    error,
                    stamp,
                ),
            ),
            Ok(_) => Step {
                connector: ConnectorModel { authenticated: false, ..self.at(StageModel::Reading) },
                state: state.logged(
                    EventLevel::Info,
                    "Login 已发送"@,
                    "已向 Lucky 主控端发送登录消息，等待响应。"@,
                    stamp,
                ),
                directive: DirectiveModel::AwaitLogin(LOGIN_TIMEOUT),
            },
        }
    }

    /// A message could not be read.
    pub open spec fn on_unreadable(
        self,
        state: StateModel,
        error: Seq<char>,
        stamp: Seq<char>,
    ) -> Step {
        self.frame_handled(state.logged(EventLevel::Warning, "入站消息解析失败"@, error, stamp))
    }

    /// The controller has answered the login.
    #[verifier::opaque]
    pub open spec fn on_login_resp(
        self,
        state: StateModel,
        response: LoginRespModel,
        stamp: Seq<char>,
    ) -> Step {
        let seen = state.logged(
            EventLevel::Info,
            "收到 LoginResp"@,
            response_text(response),
            stamp,
        );
        if response.ret == 0 {
            ConnectorModel { authenticated: true, ..self }.frame_handled(
                seen.reported(
                    ConnectionPhase::Connected,
                    "主控连接正常"@,
                    self.target,
                    self.attempts,
                    None,
                ).logged(
                    EventLevel::Success,
                    "鉴权成功"@,
                    "Lucky 主控端已接受当前设备。"@,
                    stamp,
                ),
            )
        } else {
            self.session_over(
                self.failed(seen, "主控端拒绝登录"@, self.target, response.msg).logged(
                    EventLevel::Error,
                    "登录被拒绝"@,
                    response.msg,
                    stamp,
                ),
                stamp,
            )
        }
    }

    /// The controller has sent settings.
    #[verifier::opaque]
    pub open spec fn on_sync(self, state: StateModel, sync: SyncModel, stamp: Seq<char>) -> Step {
        let next = state.config.synced(sync);
        Step {
            connector: self.at(StageModel::Persisting(next)),
            state: state.logged(EventLevel::Info, "收到配置同步"@, sync_text(sync), stamp),
            directive: DirectiveModel::Persist(next),
        }
    }

    /// The controller asks for machines to be woken up.
    pub open spec fn on_wake_up(self, state: StateModel, payload: WakeUpModel) -> Step {
        Step {
            connector: self.at(StageModel::Relaying),
            state,
            directive: DirectiveModel::Relay {
                datagrams: payload.datagrams(),
                outcome: payload.outcome(),
            },
        }
    }

    /// The controller asks for this machine to be shut down.
    #[verifier::opaque]
    pub open spec fn on_shut_down(self, state: StateModel, moment: MomentModel) -> Step {
        match self.mode {
            ShutdownMode::Immediate => Step {
                connector: self.at(StageModel::PoweringOff),
                state,
                directive: DirectiveModel::PowerOff(state.config.power_off_cmd),
            },
            ShutdownMode::Prompt => self.frame_handled(
                state.shutdown_scheduled(SHUTDOWN_COUNTDOWN, moment.unix_millis).logged(
                    EventLevel::Warning,
                    "收到关机指令"@,
                    "主控端请求 30 秒后关机，用户可以取消或立即执行。"@,
                    moment.timestamp,
                ),
            ),
        }
    }

    /// A message has come in.
    #[verifier::opaque]
    pub open spec fn on_message(
        self,
        state: StateModel,
        message: MessageModel,
        moment: MomentModel,
    ) -> Step {
        match message {
            MessageModel::LoginResp(response) => self.on_login_resp(
                state,
                response,
                moment.timestamp,
            ),
            MessageModel::SyncClientConfigure(sync) => self.on_sync(state, sync, moment.timestamp),
            MessageModel::ReplyWakeUp(payload) => self.on_wake_up(state, payload),
            MessageModel::ShutDown => self.on_shut_down(state, moment),
        }
    }

    /// A text frame has come in.
    #[verifier::opaque]
    pub open spec fn on_text(
        self,
        state: StateModel,
        text: Seq<char>,
        moment: MomentModel,
    ) -> Step {
        let seen = state.logged(
            EventLevel::Info,
            "收到入站文本消息"@,
            preview_text(text),
            moment.timestamp,
        );
        match unpacked(text, self.config.message_key) {
            Err(error) => self.on_unreadable(seen, error, moment.timestamp),
            Ok(FrameModel::ShutDown) => self.on_message(seen, MessageModel::ShutDown, moment),
            Ok(frame) => Step {
                connector: self.at(StageModel::Decoding(frame.payload_kind()->Some_0)),
                state: seen,
                directive: DirectiveModel::Decode(frame),
            },
        }
    }

    /// The payload of a message has been decoded, or not.
    pub open spec fn on_decoded(
        self,
        state: StateModel,
        result: Result<MessageModel, Seq<char>>,
        moment: MomentModel,
    ) -> Step {
        match result {
            Err(error) => self.on_unreadable(state, error, moment.timestamp),
            Ok(message) => self.on_message(state, message, moment),
        }
    }

    /// The configuration has been written to the disk, or not.
    #[verifier::opaque]
    pub open spec fn on_persisted(
        self,
        state: StateModel,
        result: Result<(), Seq<char>>,
        stamp: Seq<char>,
    ) -> Step {
        match result {
            Ok(_) => self.frame_handled(
                StateModel { config: self.stage->Persisting_0, ..state }.logged(
                    EventLevel::Info,
                    "配置已同步"@,
                    "主控端配置变更已应用到本地。"@,
                    stamp,
                ),
            ),
            Err(error) => self.frame_handled(
                state.logged(EventLevel::Warning, "配置同步警告"@, error, stamp),
            ),
        }
    }

    /// The magic packets are out, or not.
    #[verifier::opaque]
    pub open spec fn on_relayed(
        self,
        state: StateModel,
        result: Result<(), Seq<char>>,
        stamp: Seq<char>,
    ) -> Step {
        match result {
            Ok(_) => self.frame_handled(
                state.logged(
                    EventLevel::Success,
                    "已发送唤醒中继"@,
                    "魔术包已经在当前局域网内广播。"@,
                    stamp,
                ),
            ),
            Err(error) => self.frame_handled(
                state.logged(EventLevel::Error, "唤醒中继失败"@, error, stamp),
            ),
        }
    }

    /// The power command has been run, or not.
    #[verifier::opaque]
    pub open spec fn on_powered_off(
        self,
        state: StateModel,
        result: Result<(), Seq<char>>,
        stamp: Seq<char>,
    ) -> Step {
        match result {
            Ok(_) => self.frame_handled(
                state.logged(
                    EventLevel::Warning,
                    "收到关机指令"@,
                    "本机关机命令已经执行。"@,
                    stamp,
                ),
            ),
            Err(error) => self.frame_handled(
                state.logged(EventLevel::Error, "关机命令执行失败"@, error, stamp),
            ),
        }
    }

    /// A binary frame has come in.
    pub open spec fn on_binary(self, state: StateModel, stamp: Seq<char>) -> Step {
        self.frame_handled(
            state.logged(
                EventLevel::Warning,
                "收到不支持的帧"@,
                "当前实现期望接收文本帧，但收到了二进制帧。"@,
                stamp,
            ),
        )
    }

    /// The connection could not be read.
    pub open spec fn on_read_failed(
        self,
        state: StateModel,
        error: Seq<char>,
        stamp: Seq<char>,
    ) -> Step {
        self.session_over(
            self.failed(state, "读取连接数据失败"@, self.target, error).logged(
                EventLevel::Error,
                "主控连接流异常"@,
                error,
                stamp,
            ),
            stamp,
        )
    }

    /// The answer to the login is overdue, or not yet.
    #[verifier::opaque]
    pub open spec fn on_deadline(self, state: StateModel, late: bool, stamp: Seq<char>) -> Step {
        if late {
            self.session_over(
                self.failed(
                    state.logged(
                        EventLevel::Warning,
                        "登录响应超时"@,
                        "WebSocket 已连接，但在 8 秒内未收到 Lucky LoginResp。"@,
                        stamp,
                    ),
                    "已连接主控端，但未收到登录响应"@,
                    self.target,
                    "LoginResp timeout"@,
                ),
                stamp,
            )
        } else {
            Step {
                connector: self.at(StageModel::Reading),
                state,
                directive: DirectiveModel::Read,
            }
        }
    }

    /// One step. An event that the stage does not wait for changes nothing.
    pub open spec fn step(
        self,
        state: StateModel,
        event: ConnectorEventModel,
        moment: MomentModel,
    ) -> Step {
        let stamp = moment.timestamp;
        if !self.expects(event) {
            Step { connector: self, state, directive: DirectiveModel::Ignore }
        } else {
            match event {
                ConnectorEventModel::Wake => self.on_wake(state),
                ConnectorEventModel::Probed(outcome) => self.on_probed(state, outcome, stamp),
                ConnectorEventModel::Connected(result) => self.on_connected(
                    state,
                    result,
                    moment,
                ),
                ConnectorEventModel::LoginSent(result) => self.on_login_sent(
                    state,
                    result,
                    stamp,
                ),
                ConnectorEventModel::Text(text) => self.on_text(state, text, moment),
                ConnectorEventModel::Binary => self.on_binary(state, stamp),
                ConnectorEventModel::OtherFrame => self.frame_handled(state),
                ConnectorEventModel::Closed => self.session_over(state, stamp),
                ConnectorEventModel::ReadFailed(error) => self.on_read_failed(
                    state,
                    error,
                    stamp,
                ),
                ConnectorEventModel::Decoded(result) => self.on_decoded(state, result, moment),
                ConnectorEventModel::Persisted(result) => self.on_persisted(
                    state,
                    result,
                    stamp,
                ),
                ConnectorEventModel::Relayed(result) => self.on_relayed(state, result, stamp),
                ConnectorEventModel::PoweredOff(result) => self.on_powered_off(
                    state,
                    result,
                    stamp,
                ),
                ConnectorEventModel::DeadlineChecked(late) => self.on_deadline(
                    state,
                    late,
                    stamp,
                ),
            }
        }
    }
}

/// The model of an answer to a login holds what each field holds, under its name.
pub proof fn law_the_model_of_an_answer_is_faithful(response: LoginResp)
    ensures
        response@.ret == response.ret,
        response@.msg == response.msg@,
        response@.system_now_time == response.system_now_time,
{
}

/// What can happen to a connector is modelled as it is.
pub proof fn law_the_model_of_an_event_is_faithful(
    outcome: ProbeOutcome,
    result: Result<(), String>,
    text: String,
    decoded: Result<IncomingMessage, String>,
    late: bool,
)
    ensures
        ConnectorEvent::Wake@ == ConnectorEventModel::Wake,
        ConnectorEvent::Probed(outcome)@ == ConnectorEventModel::Probed(outcome@),
        ConnectorEvent::Connected(result)@ == ConnectorEventModel::Connected(
            outcome_model(result),
        ),
        ConnectorEvent::LoginSent(result)@ == ConnectorEventModel::LoginSent(
            outcome_model(result),
        ),
        ConnectorEvent::Text(text)@ == ConnectorEventModel::Text(text@),
        ConnectorEvent::Binary@ == ConnectorEventModel::Binary,
        ConnectorEvent::OtherFrame@ == ConnectorEventModel::OtherFrame,
        ConnectorEvent::Closed@ == ConnectorEventModel::Closed,
        ConnectorEvent::ReadFailed(text)@ == ConnectorEventModel::ReadFailed(text@),
        decoded matches Ok(message) ==> ConnectorEvent::Decoded(decoded)@
            == ConnectorEventModel::Decoded(Ok(message@)),
        decoded matches Err(error) ==> ConnectorEvent::Decoded(decoded)@
            == ConnectorEventModel::Decoded(Err(error@)),
        ConnectorEvent::Persisted(result)@ == ConnectorEventModel::Persisted(
            outcome_model(result),
        ),
        ConnectorEvent::Relayed(result)@ == ConnectorEventModel::Relayed(outcome_model(result)),
        ConnectorEvent::PoweredOff(result)@ == ConnectorEventModel::PoweredOff(
            outcome_model(result),
        ),
        ConnectorEvent::DeadlineChecked(late)@ == ConnectorEventModel::DeadlineChecked(late),
{
}

/// What a message says is modelled as it is.
pub proof fn law_the_model_of_a_message_is_faithful(
    response: LoginResp,
    sync: SyncClientConfigure,
    payload: ReplyWakeUp,
)
    ensures
        IncomingMessage::LoginResp(response)@ == MessageModel::LoginResp(response@),
        IncomingMessage::SyncClientConfigure(sync)@ == MessageModel::SyncClientConfigure(sync@),
        IncomingMessage::ReplyWakeUp(payload)@ == MessageModel::ReplyWakeUp(payload@),
        IncomingMessage::ShutDown@ == MessageModel::ShutDown,
{
}

/// What a connector asks for is modelled as it is.
pub proof fn law_the_model_of_a_directive_is_faithful(
    text: String,
    transport: Transport,
    seconds: u64,
    frame: IncomingFrame,
    config: AppConfig,
    plan: WakePlan,
)
    ensures
        (Directive::Probe { endpoint: text, transport })@ == (DirectiveModel::Probe {
            endpoint: text@,
            transport,
        }),
        (Directive::Connect { target: text, transport })@ == (DirectiveModel::Connect {
            target: text@,
            transport,
        }),
        Directive::SendLogin(text)@ == DirectiveModel::SendLogin(text@),
        Directive::AwaitLogin(seconds)@ == DirectiveModel::AwaitLogin(seconds),
        Directive::Read@ == DirectiveModel::Read,
        Directive::Decode(frame)@ == DirectiveModel::Decode(frame@),
        Directive::Persist(config)@ == DirectiveModel::Persist(config@),
        Directive::Relay(plan)@ == (DirectiveModel::Relay {
            datagrams: datagram_models(plan.datagrams@),
            outcome: outcome_model(plan.outcome),
        }),
        Directive::PowerOff(text)@ == DirectiveModel::PowerOff(text@),
        Directive::CheckDeadline@ == DirectiveModel::CheckDeadline,
        Directive::Sleep(seconds)@ == DirectiveModel::Sleep(seconds),
        Directive::Stop@ == DirectiveModel::Stop,
        Directive::Ignore@ == DirectiveModel::Ignore,
{
}

} // verus!
