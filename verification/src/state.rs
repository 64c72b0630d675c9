//! The agent's shared state: the configuration, the state of the connection, the activity log and
//! a pending shutdown, with everything that a change to them asks of the outside world.

use std::collections::VecDeque;

use vstd::prelude::*;
use vstd::string::*;

use crate::clock::Moment;
use crate::config::{text_option, AppConfig, ConfigModel};
use crate::endpoint::{normalize_ws_url, ws_url};
use crate::wake::outcome_model;

verus! {

/// How many events the activity log keeps.
pub const MAX_EVENTS: usize = 24;

/// How far the connection to the controller has come.
#[derive(Clone, Copy, Debug, PartialEq, Eq, Structural)]
pub enum ConnectionPhase {
    Idle,
    Connecting,
    Connected,
    Reconnecting,
    Disconnected,
    Error,
}

/// How much an event matters.
#[derive(Clone, Copy, Debug, PartialEq, Eq, Structural)]
pub enum EventLevel {
    Info,
    Success,
    Warning,
    Error,
}

/// A copy of a text that may be missing.
fn clone_text_option(text: &Option<String>) -> (r: Option<String>)
    ensures
        text_option(r) == text_option(*text),
{
    match text {
        Some(text) => Some(text.clone()),
        None => None,
    }
}

/// The state of the connection.
pub struct ConnectionSnapshot {
    pub phase: ConnectionPhase,
    pub connected: bool,
    pub detail: String,
    pub endpoint: String,
    pub attempts: u32,
    pub last_error: Option<String>,
    pub last_event_at: Option<String>,
}

/// The model of [`ConnectionSnapshot`].
#[verifier::ext_equal]
pub struct SnapshotModel {
    pub phase: ConnectionPhase,
    pub connected: bool,
    pub detail: Seq<char>,
    pub endpoint: Seq<char>,
    pub attempts: u32,
    pub last_error: Option<Seq<char>>,
    pub last_event_at: Option<Seq<char>>,
}

impl View for ConnectionSnapshot {
    type V = SnapshotModel;

    open spec fn view(&self) -> SnapshotModel {
        SnapshotModel {
            phase: self.phase,
            connected: self.connected,
            detail: self.detail@,
            endpoint: self.endpoint@,
            attempts: self.attempts,
            last_error: text_option(self.last_error),
            last_event_at: text_option(self.last_event_at),
        }
    }
}

impl Clone for ConnectionSnapshot {
    fn clone(&self) -> (r: ConnectionSnapshot)
        ensures
            r@ == self@,
    {
        ConnectionSnapshot {
            phase: self.phase,
            connected: self.connected,
            detail: self.detail.clone(),
            endpoint: self.endpoint.clone(),
            attempts: self.attempts,
            last_error: clone_text_option(&self.last_error),
            last_event_at: clone_text_option(&self.last_event_at),
        }
    }
}

/// An entry of the activity log.
pub struct ActivityEvent {
    pub level: EventLevel,
    pub title: String,
    pub detail: String,
    pub timestamp: String,
}

/// The model of [`ActivityEvent`].
#[verifier::ext_equal]
pub struct EventModel {
    pub level: EventLevel,
    pub title: Seq<char>,
    pub detail: Seq<char>,
    pub timestamp: Seq<char>,
}

impl View for ActivityEvent {
    type V = EventModel;

    open spec fn view(&self) -> EventModel {
        EventModel {
            level: self.level,
            title: self.title@,
            detail: self.detail@,
            timestamp: self.timestamp@,
        }
    }
}

impl Clone for ActivityEvent {
    fn clone(&self) -> (r: ActivityEvent)
        ensures
            r@ == self@,
    {
        ActivityEvent {
            level: self.level,
            title: self.title.clone(),
            detail: self.detail.clone(),
            timestamp: self.timestamp.clone(),
        }
    }
}

/// A shutdown that the user can still cancel.
pub struct ShutdownPromptPayload {
    pub deadline_unix_ms: i64,
    pub duration_seconds: u32,
    pub command_preview: String,
}

/// The model of [`ShutdownPromptPayload`].
#[verifier::ext_equal]
pub struct PromptModel {
    pub deadline_unix_ms: i64,
    pub duration_seconds: u32,
    pub command_preview: Seq<char>,
}

impl View for ShutdownPromptPayload {
    type V = PromptModel;

    open spec fn view(&self) -> PromptModel {
        PromptModel {
            deadline_unix_ms: self.deadline_unix_ms,
            duration_seconds: self.duration_seconds,
            command_preview: self.command_preview@,
        }
    }
}

impl Clone for ShutdownPromptPayload {
    fn clone(&self) -> (r: ShutdownPromptPayload)
        ensures
            r@ == self@,
    {
        ShutdownPromptPayload {
            deadline_unix_ms: self.deadline_unix_ms,
            duration_seconds: self.duration_seconds,
            command_preview: self.command_preview.clone(),
        }
    }
}

impl Default for ConnectionSnapshot {
    fn default() -> (r: ConnectionSnapshot)
        ensures
            r@ == SnapshotModel::initial(),
    {
        ConnectionSnapshot {
            phase: ConnectionPhase::Idle,
            connected: false,
            detail: "等待配置".to_owned(),
            endpoint: String::new(),
            attempts: 0,
            last_error: None,
            last_event_at: None,
        }
    }
}

impl SnapshotModel {
    /// The state of the connection before anything has happened.
    pub open spec fn initial() -> SnapshotModel {
        SnapshotModel {
            phase: ConnectionPhase::Idle,
            connected: false,
            detail: "等待配置"@,
            endpoint: Seq::empty(),
            attempts: 0,
            last_error: None,
            last_event_at: None,
        }
    }
}

/// Something that a change of the state asks of the outside world.
pub enum Effect {
    /// Tell the user interface of the state of the connection.
    ConnectionUpdated(ConnectionSnapshot),
    /// Tell the user interface of a new event.
    ActivityLogged(ActivityEvent),
    /// Tell the user interface that no shutdown is pending.
    ShutdownCleared,
    /// Tell the user interface of a pending shutdown.
    ShutdownPending(ShutdownPromptPayload),
    /// Bring the main window to the front.
    ShowMainWindow,
    /// Stop the connector that runs.
    AbortConnector,
    /// Start a connector.
    StartConnector,
    /// Stop the countdown of the pending shutdown.
    AbortShutdownTimer,
    /// Start a countdown of so many seconds.
    StartShutdownTimer(u32),
}

/// The model of [`Effect`].
#[verifier::ext_equal]
pub enum EffectModel {
    ConnectionUpdated(SnapshotModel),
    ActivityLogged(EventModel),
    ShutdownCleared,
    ShutdownPending(PromptModel),
    ShowMainWindow,
    AbortConnector,
    StartConnector,
    AbortShutdownTimer,
    StartShutdownTimer(u32),
}

impl View for Effect {
    type V = EffectModel;

    open spec fn view(&self) -> EffectModel {
        match self {
            Effect::ConnectionUpdated(snapshot) => EffectModel::ConnectionUpdated(snapshot@),
            Effect::ActivityLogged(event) => EffectModel::ActivityLogged(event@),
            Effect::ShutdownCleared => EffectModel::ShutdownCleared,
            Effect::ShutdownPending(prompt) => EffectModel::ShutdownPending(prompt@),
            Effect::ShowMainWindow => EffectModel::ShowMainWindow,
            Effect::AbortConnector => EffectModel::AbortConnector,
            Effect::StartConnector => EffectModel::StartConnector,
            Effect::AbortShutdownTimer => EffectModel::AbortShutdownTimer,
            Effect::StartShutdownTimer(seconds) => EffectModel::StartShutdownTimer(*seconds),
        }
    }
}

/// A list of effects, taken by their views.
pub open spec fn effect_models(list: Seq<Effect>) -> Seq<EffectModel> {
    list.map_values(|effect: Effect| effect@)
}

/// A list of events, taken by their views.
pub open spec fn event_models(list: Seq<ActivityEvent>) -> Seq<EventModel> {
    list.map_values(|event: ActivityEvent| event@)
}

/// The newest events of a log, which holds them newest first.
pub open spec fn newest(events: Seq<EventModel>) -> Seq<EventModel> {
    if events.len() <= MAX_EVENTS {
        events
    } else {
        events.take(MAX_EVENTS as int)
    }
}

/// The model of [`SharedState`].
#[verifier::ext_equal]
pub struct StateModel {
    pub config: ConfigModel,
    pub connection: SnapshotModel,
    /// The activity log, newest first.
    pub events: Seq<EventModel>,
    /// Whether a connector has been started and not aborted.
    pub connector_task: bool,
    /// Whether a countdown has been started and not aborted.
    pub shutdown_task: bool,
    pub pending_shutdown: Option<PromptModel>,
    /// What has been asked of the outside world and not yet handed out.
    pub effects: Seq<EffectModel>,
}

impl StateModel {
    /// The state that the agent starts with.
    pub open spec fn initial(config: ConfigModel) -> StateModel {
        StateModel {
            config,
            connection: SnapshotModel::initial(),
            events: Seq::empty(),
            connector_task: false,
            shutdown_task: false,
            pending_shutdown: None,
            effects: Seq::empty(),
        }
    }

    /// What always holds: the log is bounded, the connection counts as connected in exactly that
    /// phase, it bears the time of the newest event, and a countdown runs exactly while a
    /// shutdown is pending.
    pub open spec fn well_formed(self) -> bool {
        &&& self.events.len() <= MAX_EVENTS
        &&& self.connection.connected == (self.connection.phase == ConnectionPhase::Connected)
        &&& self.connection.last_event_at == if self.events.len() == 0 {
            None::<Seq<char>>
        } else {
            Some(self.events[0].timestamp)
        }
        &&& self.shutdown_task == (self.pending_shutdown is Some)
    }

    /// The state with one more effect asked for.
    pub open spec fn with_effect(self, effect: EffectModel) -> StateModel {
        StateModel { effects: self.effects.push(effect), ..self }
    }

    /// The state with another connection, which the user interface is told of.
    pub open spec fn with_connection(self, snapshot: SnapshotModel) -> StateModel {
        StateModel { connection: snapshot, ..self }.with_effect(
            EffectModel::ConnectionUpdated(snapshot),
        )
    }

    /// The state with a report on the connection, which keeps the time of the last event.
    #[verifier::opaque]
    pub open spec fn reported(
        self,
        phase: ConnectionPhase,
        detail: Seq<char>,
        endpoint: Seq<char>,
        attempts: u32,
        last_error: Option<Seq<char>>,
    ) -> StateModel {
        self.with_connection(
            SnapshotModel {
                phase,
                connected: phase == ConnectionPhase::Connected,
                detail,
                endpoint,
                attempts,
                last_error,
                last_event_at: self.connection.last_event_at,
            },
        )
    }

    /// The state with one more event in its log.
    #[verifier::opaque]
    pub open spec fn logged(
        self,
        level: EventLevel,
        title: Seq<char>,
        detail: Seq<char>,
        timestamp: Seq<char>,
    ) -> StateModel {
        let event = EventModel { level, title, detail, timestamp };
        StateModel { events: newest(seq![event] + self.events), ..self }.with_connection(
            SnapshotModel { last_event_at: Some(timestamp), ..self.connection },
        ).with_effect(EffectModel::ActivityLogged(event))
    }

    /// The state without a connector.
    pub open spec fn connector_aborted(self) -> StateModel {
        let idle = StateModel { connector_task: false, ..self };
        if self.connector_task {
            idle.with_effect(EffectModel::AbortConnector)
        } else {
            idle
        }
    }

    /// The state with a new connector in place of any other.
    pub open spec fn connector_started(self) -> StateModel {
        StateModel {
            connector_task: true,
            ..self.connector_aborted().with_effect(EffectModel::StartConnector)
        }
    }

    /// The state without a pending shutdown.
    pub open spec fn shutdown_cleared(self) -> StateModel {
        let stopped = if self.shutdown_task {
            self.with_effect(EffectModel::AbortShutdownTimer)
        } else {
            self
        };
        StateModel { shutdown_task: false, pending_shutdown: None, ..stopped }.with_effect(
            EffectModel::ShutdownCleared,
        )
    }

    /// The state with a shutdown pending in place of any other: the countdown runs, and the user
    /// is shown what it will do and when.
    #[verifier::opaque]
    pub open spec fn shutdown_scheduled(self, duration_seconds: u32, now_ms: i64) -> StateModel {
        let prompt = PromptModel {
            deadline_unix_ms: (now_ms + duration_seconds * 1000) as i64,
            duration_seconds,
            command_preview: self.config.power_off_cmd,
        };
        StateModel {
            shutdown_task: true,
            pending_shutdown: Some(prompt),
            ..self.shutdown_cleared().with_effect(
                EffectModel::ShutdownPending(prompt),
            ).with_effect(EffectModel::ShowMainWindow).with_effect(
                EffectModel::StartShutdownTimer(duration_seconds),
            )
        }
    }

    /// The state once the command that a countdown led to has been run, or not.
    pub open spec fn shutdown_finished(
        self,
        outcome: Result<(), Seq<char>>,
        timestamp: Seq<char>,
    ) -> StateModel {
        match outcome {
            Ok(_) => self.logged(
                EventLevel::Warning,
                "收到关机指令"@,
                "30 秒倒计时结束，已执行本机关机命令。"@,
                timestamp,
            ),
            Err(error) => self.logged(
                EventLevel::Error,
                "关机命令执行失败"@,
                error,
                timestamp,
            ),
        }
    }

    /// The state with the connector stopped and any pending shutdown off.
    pub open spec fn stopped(self, detail: Seq<char>, timestamp: Seq<char>) -> StateModel {
        let quiet = self.connector_aborted().shutdown_cleared();
        quiet.reported(
            ConnectionPhase::Disconnected,
            detail,
            ws_url(quiet.config.host),
            quiet.connection.attempts,
            None,
        ).logged(EventLevel::Info, "连接器已停止"@, detail, timestamp)
    }
}

/// What the user interface starts with.
pub struct BootstrapPayload {
    pub config: AppConfig,
    pub connection: ConnectionSnapshot,
    pub pending_shutdown: Option<ShutdownPromptPayload>,
    pub autostart_enabled: bool,
    pub recent_events: Vec<ActivityEvent>,
    pub version: String,
}

/// A pending shutdown, taken by its view.
pub open spec fn prompt_option(prompt: Option<ShutdownPromptPayload>) -> Option<PromptModel> {
    match prompt {
        Some(prompt) => Some(prompt@),
        None => None,
    }
}

/// The agent's shared state.
pub struct SharedState {
    config: AppConfig,
    connection: ConnectionSnapshot,
    events: VecDeque<ActivityEvent>,
    connector_task: bool,
    shutdown_task: bool,
    pending_shutdown: Option<ShutdownPromptPayload>,
    effects: Vec<Effect>,
}

impl View for SharedState {
    type V = StateModel;

    closed spec fn view(&self) -> StateModel {
        StateModel {
            config: self.config@,
            connection: self.connection@,
            events: event_models(self.events@),
            connector_task: self.connector_task,
            shutdown_task: self.shutdown_task,
            pending_shutdown: prompt_option(self.pending_shutdown),
            effects: effect_models(self.effects@),
        }
    }
}

impl SharedState {
    /// The state that the agent starts with.
    pub fn new(config: AppConfig) -> (r: SharedState)
        ensures
            r@ == StateModel::initial(config@),
            r@.well_formed(),
    {
        let r = SharedState {
            config,
            connection: ConnectionSnapshot::default(),
            events: VecDeque::new(),
            connector_task: false,
            shutdown_task: false,
            pending_shutdown: None,
            effects: Vec::new(),
        };
        assert(r@ == StateModel::initial(config@));
        r
    }

    /// A copy of the configuration.
    pub fn config_snapshot(&self) -> (r: AppConfig)
        ensures
            r@ == self@.config,
    {
        self.config.clone()
    }

    /// Takes over a configuration, once it has been written to the disk.
    pub fn set_config(&mut self, next: AppConfig, persisted: Result<(), String>) -> (r: Result<
        (),
        String,
    >)
        ensures
            outcome_model(r) == outcome_model(persisted),
            final(self)@ == (if persisted is Ok {
                StateModel { config: next@, ..old(self)@ }
            } else {
                old(self)@
            }),
    {
        match persisted {
            Ok(_) => {
                self.config = next;
                Ok(())
            },
            Err(error) => Err(error),
        }
    }

    /// A copy of the state of the connection.
    pub fn connection_snapshot(&self) -> (r: ConnectionSnapshot)
        ensures
            r@ == self@.connection,
    {
        self.connection.clone()
    }

    /// Asks something of the outside world.
    fn ask(&mut self, effect: Effect)
        ensures
            final(self)@ == old(self)@.with_effect(effect@),
    {
        self.effects.push(effect);
        assert(self@.effects == old(self)@.effects.push(effect@));
    }

    /// Hands out what has been asked of the outside world, in order.
    pub fn take_effects(&mut self) -> (r: Vec<Effect>)
        ensures
            effect_models(r@) == old(self)@.effects,
            final(self)@ == (StateModel { effects: Seq::empty(), ..old(self)@ }),
    {
        let mut taken: Vec<Effect> = Vec::new();
        std::mem::swap(&mut taken, &mut self.effects);
        assert(effect_models(self.effects@) == Seq::<EffectModel>::empty());
        taken
    }

    /// Replaces the state of the connection.
    fn set_connection(&mut self, snapshot: ConnectionSnapshot)
        ensures
            final(self)@ == old(self)@.with_connection(snapshot@),
    {
        self.connection = snapshot.clone();
        self.ask(Effect::ConnectionUpdated(snapshot));
    }

    /// Reports on the connection; the time of the last event stays.
    pub fn report(
        &mut self,
        phase: ConnectionPhase,
        detail: &str,
        endpoint: &str,
        attempts: u32,
        last_error: Option<String>,
    )
        ensures
            final(self)@ == old(self)@.reported(
                phase,
                detail@,
                endpoint@,
                attempts,
                text_option(last_error),
            ),
    {
        proof {
            reveal(StateModel::reported);
        }
        let last_event_at = clone_text_option(&self.connection.last_event_at);
        self.set_connection(
            ConnectionSnapshot {
                phase,
                connected: phase == ConnectionPhase::Connected,
                detail: detail.to_owned(),
                endpoint: endpoint.to_owned(),
                attempts,
                last_error,
                last_event_at,
            },
        );
    }

    /// Adds an event to the log, at the given local time.
    pub fn push_event_at(&mut self, level: EventLevel, title: &str, detail: &str, timestamp: &str)
        ensures
            final(self)@ == old(self)@.logged(level, title@, detail@, timestamp@),
    {
        proof {
            reveal(StateModel::logged);
        }
        let event = ActivityEvent {
            level,
            title: title.to_owned(),
            detail: detail.to_owned(),
            timestamp: timestamp.to_owned(),
        };
        let ghost all = seq![event@] + old(self)@.events;
        self.events.push_front(event.clone());
        assert(event_models(self.events@) == all);
        while self.events.len() > MAX_EVENTS
            invariant
                newest(event_models(self.events@)) == newest(all),
                self.config == old(self).config,
                self.connection == old(self).connection,
                self.connector_task == old(self).connector_task,
                self.shutdown_task == old(self).shutdown_task,
                self.pending_shutdown == old(self).pending_shutdown,
                self.effects == old(self).effects,
            decreases self.events@.len(),
        {
            let ghost before = self.events@;
            let _ = self.events.pop_back();
            assert(newest(event_models(self.events@)) == newest(event_models(before)));
        }
        let mut snapshot = self.connection.clone();
        snapshot.last_event_at = Some(timestamp.to_owned());
        self.set_connection(snapshot);
        self.ask(Effect::ActivityLogged(event));
    }

    /// Adds an event to the log, now.
    pub fn push_event(&mut self, level: EventLevel, title: &str, detail: &str)
        ensures
            exists|timestamp: Seq<char>|
                final(self)@ == #[trigger] old(self)@.logged(level, title@, detail@, timestamp),
    {
        let now = Moment::now();
        self.push_event_at(level, title, detail, now.timestamp.as_str());
    }

    /// A copy of the log, newest first.
    pub fn recent_events(&self) -> (r: Vec<ActivityEvent>)
        ensures
            event_models(r@) == self@.events,
    {
        let mut list: Vec<ActivityEvent> = Vec::new();
        let mut i: usize = 0;
        while i < self.events.len()
            invariant
                i <= self.events@.len(),
                event_models(list@) == event_models(self.events@).take(i as int),
            decreases self.events@.len() - i,
        {
            let ghost before = list@;
            list.push(self.events[i].clone());
            assert(event_models(list@) == event_models(before).push(self.events@[i as int]@));
            assert(event_models(self.events@).take(i + 1) == event_models(self.events@).take(
                i as int,
            ).push(self.events@[i as int]@));
            i = i + 1;
        }
        assert(event_models(self.events@).take(i as int) == event_models(self.events@));
        list
    }

    /// What the user interface starts with. An unknown start-up setting counts as off.
    pub fn bootstrap_payload(&self, autostart: Option<bool>, version: &str) -> (r:
        BootstrapPayload)
        ensures
            r.config@ == self@.config,
            r.connection@ == self@.connection,
            prompt_option(r.pending_shutdown) == self@.pending_shutdown,
            r.autostart_enabled == (autostart == Some(true)),
            event_models(r.recent_events@) == self@.events,
            r.version@ == version@,
    {
        BootstrapPayload {
            config: self.config_snapshot(),
            connection: self.connection_snapshot(),
            pending_shutdown: match &self.pending_shutdown {
                Some(prompt) => Some(prompt.clone()),
                None => None,
            },
            autostart_enabled: match autostart {
                Some(enabled) => enabled,
                None => false,
            },
            recent_events: self.recent_events(),
            version: version.to_owned(),
        }
    }

    /// Stops the connector, if one has been started.
    pub fn abort_task(&mut self)
        ensures
            final(self)@ == old(self)@.connector_aborted(),
    {
        if self.connector_task {
            self.connector_task = false;
            self.ask(Effect::AbortConnector);
        }
    }

    /// Calls off any pending shutdown.
    pub fn clear_shutdown_prompt(&mut self)
        ensures
            final(self)@ == old(self)@.shutdown_cleared(),
    {
        if self.shutdown_task {
            self.shutdown_task = false;
            self.ask(Effect::AbortShutdownTimer);
        }
        self.pending_shutdown = None;
        self.ask(Effect::ShutdownCleared);
    }

    /// Schedules a shutdown after a countdown.
    pub fn schedule_shutdown_prompt(&mut self, duration_seconds: u32, now_ms: i64)
        requires
            now_ms + duration_seconds * 1000 <= i64::MAX,
        ensures
            final(self)@ == old(self)@.shutdown_scheduled(duration_seconds, now_ms),
    {
        proof {
            reveal(StateModel::shutdown_scheduled);
        }
        self.clear_shutdown_prompt();
        let payload = ShutdownPromptPayload {
            deadline_unix_ms: now_ms + duration_seconds as i64 * 1000,
            duration_seconds,
            command_preview: self.config.power_off_cmd.clone(),
        };
        self.pending_shutdown = Some(payload.clone());
        self.ask(Effect::ShutdownPending(payload));
        self.ask(Effect::ShowMainWindow);
        self.ask(Effect::StartShutdownTimer(duration_seconds));
        self.shutdown_task = true;
    }

    /// Hands out the power command, because the countdown has run out or the user did not wait for
    /// it. Nothing is pending any more.
    pub fn take_shutdown_command(&mut self) -> (command: String)
        ensures
            final(self)@ == old(self)@.shutdown_cleared(),
            command@ == old(self)@.config.power_off_cmd,
    {
        self.clear_shutdown_prompt();
        self.config.power_off_cmd.clone()
    }

    /// The command that the countdown led to has been run.
    pub fn shutdown_timer_finished(&mut self, outcome: Result<(), String>, timestamp: &str)
        ensures
            final(self)@ == old(self)@.shutdown_finished(outcome_model(outcome), timestamp@),
    {
        match outcome {
            Ok(_) => self.push_event_at(
                EventLevel::Warning,
                "收到关机指令",
                "30 秒倒计时结束，已执行本机关机命令。",
                timestamp,
            ),
            Err(error) => self.push_event_at(
                EventLevel::Error,
                "关机命令执行失败",
                error.as_str(),
                timestamp,
            ),
        }
    }

    /// Starts a connector in place of any other.
    pub fn start_connector(&mut self)
        ensures
            final(self)@ == old(self)@.connector_started(),
    {
        self.abort_task();
        self.ask(Effect::StartConnector);
        self.connector_task = true;
    }

    /// Stops the connector and calls off any pending shutdown.
    pub fn stop_connector(&mut self, detail: &str, timestamp: &str)
        ensures
            final(self)@ == old(self)@.stopped(detail@, timestamp@),
    {
        self.abort_task();
        self.clear_shutdown_prompt();
        let endpoint = normalize_ws_url(self.config.host.as_str());
        let attempts: u32 = self.connection.attempts;
        self.report(ConnectionPhase::Disconnected, detail, endpoint.as_str(), attempts, None);
        self.push_event_at(EventLevel::Info, "连接器已停止", detail, timestamp);
    }
}

/// Every operation on the state keeps what always holds of it.
pub proof fn law_operations_keep_the_state_well_formed(
    state: StateModel,
    config: ConfigModel,
    phase: ConnectionPhase,
    level: EventLevel,
    title: Seq<char>,
    detail: Seq<char>,
    endpoint: Seq<char>,
    attempts: u32,
    last_error: Option<Seq<char>>,
    timestamp: Seq<char>,
    duration_seconds: u32,
    now_ms: i64,
)
    requires
        state.well_formed(),
    ensures
        (StateModel { config, ..state }).well_formed(),
        (StateModel { effects: Seq::empty(), ..state }).well_formed(),
        state.reported(phase, detail, endpoint, attempts, last_error).well_formed(),
        state.logged(level, title, detail, timestamp).well_formed(),
        state.connector_aborted().well_formed(),
        state.connector_started().well_formed(),
        state.shutdown_cleared().well_formed(),
        state.shutdown_scheduled(duration_seconds, now_ms).well_formed(),
        state.stopped(detail, timestamp).well_formed(),
{
    reveal(StateModel::reported);
    reveal(StateModel::logged);
    reveal(StateModel::shutdown_scheduled);
}

/// What a log holds after the given events came in, the first of them first.
pub open spec fn log_after(log: Seq<EventModel>, incoming: Seq<EventModel>) -> Seq<EventModel>
    decreases incoming.len(),
{
    if incoming.len() == 0 {
        log
    } else {
        newest(seq![incoming.last()] + log_after(log, incoming.drop_last()))
    }
}

/// However many events come in, the log holds the newest of them all, newest first, and the
/// oldest have gone.
pub proof fn law_the_log_keeps_the_newest(log: Seq<EventModel>, incoming: Seq<EventModel>)
    requires
        log.len() <= MAX_EVENTS,
    ensures
        log_after(log, incoming) == newest(incoming.reverse() + log),
    decreases incoming.len(),
{
    if incoming.len() == 0 {
        assert(incoming.reverse() + log == log);
    } else {
        let earlier = incoming.drop_last();
        law_the_log_keeps_the_newest(log, earlier);
        assert(incoming.reverse() + log == seq![incoming.last()] + (earlier.reverse() + log));
        assert(log_after(log, incoming) == newest(incoming.reverse() + log));
    }
}

/// An event that is logged is the newest of the log, and the connection bears its time.
pub proof fn law_a_logged_event_comes_first(
    state: StateModel,
    level: EventLevel,
    title: Seq<char>,
    detail: Seq<char>,
    timestamp: Seq<char>,
)
    ensures
        state.logged(level, title, detail, timestamp).events.len() > 0,
        state.logged(level, title, detail, timestamp).events[0] == (EventModel {
            level,
            title,
            detail,
            timestamp,
        }),
        state.logged(level, title, detail, timestamp).connection.last_event_at == Some(timestamp),
{
    reveal(StateModel::logged);
}

/// The countdowns that run, by their seconds, once effects have been carried out on those that
/// ran before: a new one is added, and stopping takes the last one away.
pub open spec fn countdowns(running: Seq<u32>, effects: Seq<EffectModel>) -> Seq<u32>
    decreases effects.len(),
{
    if effects.len() == 0 {
        running
    } else {
        let earlier = countdowns(running, effects.drop_last());
        match effects.last() {
            EffectModel::StartShutdownTimer(seconds) => earlier.push(seconds),
            EffectModel::AbortShutdownTimer => if earlier.len() == 0 {
                earlier
            } else {
                earlier.drop_last()
            },
            _ => earlier,
        }
    }
}

/// What one more effect does to the countdowns.
proof fn lemma_countdowns(running: Seq<u32>, effects: Seq<EffectModel>, effect: EffectModel)
    ensures
        countdowns(running, effects.push(effect)) == (match effect {
            EffectModel::StartShutdownTimer(seconds) => countdowns(running, effects).push(seconds),
            EffectModel::AbortShutdownTimer => if countdowns(running, effects).len() == 0 {
                countdowns(running, effects)
            } else {
                countdowns(running, effects).drop_last()
            },
            _ => countdowns(running, effects),
        }),
{
    assert(effects.push(effect).drop_last() == effects);
}

/// Calling off leaves no countdown, and scheduling leaves the one that was scheduled.
proof fn lemma_one_countdown(
    state: StateModel,
    running: Seq<u32>,
    duration_seconds: u32,
    now_ms: i64,
)
    requires
        countdowns(running, state.effects).len() == if state.shutdown_task {
            1int
        } else {
            0int
        },
    ensures
        countdowns(running, state.shutdown_cleared().effects) == Seq::<u32>::empty(),
        countdowns(running, state.shutdown_scheduled(duration_seconds, now_ms).effects) == seq![
            duration_seconds,
        ],
{
    reveal(StateModel::shutdown_scheduled);
    let scheduled = state.shutdown_scheduled(duration_seconds, now_ms);
    let prompt = scheduled.pending_shutdown->Some_0;
    let stopped = if state.shutdown_task {
        state.effects.push(EffectModel::AbortShutdownTimer)
    } else {
        state.effects
    };
    let cleared = stopped.push(EffectModel::ShutdownCleared);
    let told = cleared.push(EffectModel::ShutdownPending(prompt));
    let shown = told.push(EffectModel::ShowMainWindow);
    lemma_countdowns(running, state.effects, EffectModel::AbortShutdownTimer);
    lemma_countdowns(running, stopped, EffectModel::ShutdownCleared);
    lemma_countdowns(running, cleared, EffectModel::ShutdownPending(prompt));
    lemma_countdowns(running, told, EffectModel::ShowMainWindow);
    lemma_countdowns(running, shown, EffectModel::StartShutdownTimer(duration_seconds));
    assert(countdowns(running, cleared) == Seq::<u32>::empty());
    assert(countdowns(running, scheduled.effects) == seq![duration_seconds]);
}

/// A shutdown that is scheduled while another is pending takes its place. The first countdown is
/// stopped and only the second runs; when it runs out, under whatever configuration there is by
/// then, nothing is pending, no countdown is left that could lead to another command, and one
/// event tells how it went.
pub proof fn law_a_second_shutdown_replaces_the_first(
    state: StateModel,
    running: Seq<u32>,
    first_seconds: u32,
    first_ms: i64,
    second_seconds: u32,
    second_ms: i64,
    config: ConfigModel,
    outcome: Result<(), Seq<char>>,
    timestamp: Seq<char>,
)
    requires
        countdowns(running, state.effects).len() == if state.shutdown_task {
            1int
        } else {
            0int
        },
    ensures
        ({
            let once = state.shutdown_scheduled(first_seconds, first_ms);
            let twice = once.shutdown_scheduled(second_seconds, second_ms);
            let expired = StateModel { config, ..twice }.shutdown_cleared();
            let done = expired.shutdown_finished(outcome, timestamp);
            &&& countdowns(running, once.effects) == seq![first_seconds]
            &&& countdowns(running, twice.effects) == seq![second_seconds]
            &&& twice.effects == once.effects + seq![
                EffectModel::AbortShutdownTimer,
                EffectModel::ShutdownCleared,
                EffectModel::ShutdownPending(twice.pending_shutdown->Some_0),
                EffectModel::ShowMainWindow,
                EffectModel::StartShutdownTimer(second_seconds),
            ]
            &&& twice.pending_shutdown == Some(
                PromptModel {
                    deadline_unix_ms: (second_ms + second_seconds * 1000) as i64,
                    duration_seconds: second_seconds,
                    command_preview: state.config.power_off_cmd,
                },
            )
            &&& expired.pending_shutdown is None
            &&& !expired.shutdown_task
            &&& expired.config == config
            &&& countdowns(running, expired.effects) == Seq::<u32>::empty()
            &&& done.pending_shutdown is None
            &&& done.events == newest(
                seq![
                    EventModel {
                        level: if outcome is Ok {
                            EventLevel::Warning
                        } else {
                            EventLevel::Error
                        },
                        title: if outcome is Ok {
                            "收到关机指令"@
                        } else {
                            "关机命令执行失败"@
                        },
                        detail: match outcome {
                            Ok(_) => "30 秒倒计时结束，已执行本机关机命令。"@,
                            Err(error) => error,
                        },
                        timestamp,
                    },
                ] + state.events,
            )
        }),
{
    let once = state.shutdown_scheduled(first_seconds, first_ms);
    let twice = once.shutdown_scheduled(second_seconds, second_ms);
    lemma_one_countdown(state, running, first_seconds, first_ms);
    reveal(StateModel::shutdown_scheduled);
    reveal(StateModel::logged);
    lemma_one_countdown(once, running, second_seconds, second_ms);
    lemma_one_countdown(StateModel { config, ..twice }, running, 0, 0);
}

/// A pending shutdown that is called off leaves no trace but the effects: nothing is pending and
/// no countdown runs, as if it had never been scheduled.
pub proof fn law_a_shutdown_can_be_called_off(state: StateModel, duration_seconds: u32, now_ms: i64)
    requires
        state.well_formed(),
        state.pending_shutdown is None,
    ensures
        state.shutdown_scheduled(duration_seconds, now_ms).shutdown_cleared() == (StateModel {
            effects: state.effects + seq![
                EffectModel::ShutdownCleared,
                EffectModel::ShutdownPending(
                    state.shutdown_scheduled(duration_seconds, now_ms).pending_shutdown->Some_0,
                ),
                EffectModel::ShowMainWindow,
                EffectModel::StartShutdownTimer(duration_seconds),
                EffectModel::AbortShutdownTimer,
                EffectModel::ShutdownCleared,
            ],
            ..state
        }),
{
    reveal(StateModel::shutdown_scheduled);
}

/// Logging an event puts it in front of the log, of which the oldest may go, and marks the
/// connection with its time; nothing else changes, and the user interface is told of both.
pub proof fn law_logging_changes_the_log_alone(
    state: StateModel,
    level: EventLevel,
    title: Seq<char>,
    detail: Seq<char>,
    timestamp: Seq<char>,
)
    ensures
        ({
            let after = state.logged(level, title, detail, timestamp);
            let event = EventModel { level, title, detail, timestamp };
            &&& after.events.len() == if state.events.len() < MAX_EVENTS {
                state.events.len() + 1
            } else {
                MAX_EVENTS as nat
            }
            &&& after.events[0] == event
            &&& forall|i: int|
                1 <= i < after.events.len() ==> #[trigger] after.events[i] == state.events[i - 1]
            &&& after.connection.last_event_at == Some(timestamp)
            &&& after.connection.phase == state.connection.phase
            &&& after.connection.connected == state.connection.connected
            &&& after.connection.detail == state.connection.detail
            &&& after.connection.endpoint == state.connection.endpoint
            &&& after.connection.attempts == state.connection.attempts
            &&& after.connection.last_error == state.connection.last_error
            &&& after.config == state.config
            &&& after.connector_task == state.connector_task
            &&& after.shutdown_task == state.shutdown_task
            &&& after.pending_shutdown == state.pending_shutdown
            &&& after.effects == state.effects + seq![
                EffectModel::ConnectionUpdated(after.connection),
                EffectModel::ActivityLogged(event),
            ]
        }),
{
    reveal(StateModel::logged);
}

/// A report says of the connection just what it was given, keeps the time of the last event, and
/// changes nothing else; the user interface is told.
pub proof fn law_a_report_changes_the_connection_alone(
    state: StateModel,
    phase: ConnectionPhase,
    detail: Seq<char>,
    endpoint: Seq<char>,
    attempts: u32,
    last_error: Option<Seq<char>>,
)
    ensures
        ({
            let after = state.reported(phase, detail, endpoint, attempts, last_error);
            &&& after.connection.phase == phase
            &&& after.connection.connected <==> phase == ConnectionPhase::Connected
            &&& after.connection.detail == detail
            &&& after.connection.endpoint == endpoint
            &&& after.connection.attempts == attempts
            &&& after.connection.last_error == last_error
            &&& after.connection.last_event_at == state.connection.last_event_at
            &&& after.events == state.events
            &&& after.config == state.config
            &&& after.connector_task == state.connector_task
            &&& after.shutdown_task == state.shutdown_task
            &&& after.pending_shutdown == state.pending_shutdown
            &&& after.effects == state.effects + seq![
                EffectModel::ConnectionUpdated(after.connection),
            ]
        }),
{
    reveal(StateModel::reported);
}

/// Starting a connector stops any other first, stopping stops one that runs, and neither changes
/// anything but which connector runs.
pub proof fn law_one_connector_runs_at_a_time(state: StateModel)
    ensures
        ({
            let started = state.connector_started();
            let aborted = state.connector_aborted();
            &&& started.connector_task
            &&& !aborted.connector_task
            &&& started.effects == state.effects + (if state.connector_task {
                seq![EffectModel::AbortConnector, EffectModel::StartConnector]
            } else {
                seq![EffectModel::StartConnector]
            })
            &&& aborted.effects == state.effects + (if state.connector_task {
                seq![EffectModel::AbortConnector]
            } else {
                Seq::empty()
            })
            &&& started.config == state.config && aborted.config == state.config
            &&& started.connection == state.connection && aborted.connection == state.connection
            &&& started.events == state.events && aborted.events == state.events
            &&& started.shutdown_task == state.shutdown_task && aborted.shutdown_task
                == state.shutdown_task
            &&& started.pending_shutdown == state.pending_shutdown && aborted.pending_shutdown
                == state.pending_shutdown
        }),
{
}

/// Scheduling a shutdown leaves it pending, with its deadline, its length and the command of the
/// configuration, and calling off leaves none pending; neither changes anything else.
pub proof fn law_scheduling_changes_the_pending_shutdown_alone(
    state: StateModel,
    duration_seconds: u32,
    now_ms: i64,
)
    requires
        now_ms + duration_seconds * 1000 <= i64::MAX,
    ensures
        ({
            let scheduled = state.shutdown_scheduled(duration_seconds, now_ms);
            let cleared = state.shutdown_cleared();
            &&& scheduled.pending_shutdown is Some
            &&& scheduled.pending_shutdown->Some_0.deadline_unix_ms - now_ms == 1000
                * duration_seconds
            &&& scheduled.pending_shutdown->Some_0.duration_seconds == duration_seconds
            &&& scheduled.pending_shutdown->Some_0.command_preview == state.config.power_off_cmd
            &&& scheduled.shutdown_task
            &&& cleared.pending_shutdown is None
            &&& !cleared.shutdown_task
            &&& cleared.effects == state.effects + (if state.shutdown_task {
                seq![EffectModel::AbortShutdownTimer, EffectModel::ShutdownCleared]
            } else {
                seq![EffectModel::ShutdownCleared]
            })
            &&& scheduled.effects == cleared.effects + seq![
                EffectModel::ShutdownPending(scheduled.pending_shutdown->Some_0),
                EffectModel::ShowMainWindow,
                EffectModel::StartShutdownTimer(duration_seconds),
            ]
            &&& scheduled.config == state.config && cleared.config == state.config
            &&& scheduled.connection == state.connection && cleared.connection == state.connection
            &&& scheduled.events == state.events && cleared.events == state.events
            &&& scheduled.connector_task == state.connector_task && cleared.connector_task
                == state.connector_task
        }),
{
    reveal(StateModel::shutdown_scheduled);
}

/// Once a connector is stopped, the report says so in the given words, for the configured
/// controller, without an error, and one event tells of it; the configuration stays.
pub proof fn law_stopping_is_reported(state: StateModel, detail: Seq<char>, timestamp: Seq<char>)
    ensures
        ({
            let after = state.stopped(detail, timestamp);
            &&& after.connection == (SnapshotModel {
                phase: ConnectionPhase::Disconnected,
                connected: false,
                detail,
                endpoint: ws_url(state.config.host),
                attempts: state.connection.attempts,
                last_error: None,
                last_event_at: Some(timestamp),
            })
            &&& after.events == newest(
                seq![
                    EventModel {
                        level: EventLevel::Info,
                        title: "连接器已停止"@,
                        detail,
                        timestamp,
                    },
                ] + state.events,
            )
            &&& after.config == state.config
            &&& !after.connector_task
            &&& !after.shutdown_task
            &&& after.pending_shutdown is None
        }),
{
    reveal(StateModel::reported);
    reveal(StateModel::logged);
}

/// The log keeps the newest events, as many as it can, in their order.
pub proof fn law_the_log_is_cut_at_its_end(events: Seq<EventModel>)
    ensures
        newest(events).len() <= MAX_EVENTS,
        newest(events).len() == events.len() || newest(events).len() == MAX_EVENTS,
        newest(events).len() <= events.len(),
        forall|i: int| 0 <= i < newest(events).len() ==> #[trigger] newest(events)[i] == events[i],
{
}

/// What the user interface shows.
pub struct Shown {
    pub connection: SnapshotModel,
    pub events: Seq<EventModel>,
    pub pending_shutdown: Option<PromptModel>,
}

/// What the user interface shows once it has been told of effects.
pub open spec fn shown(start: Shown, effects: Seq<EffectModel>) -> Shown
    decreases effects.len(),
{
    if effects.len() == 0 {
        start
    } else {
        let before = shown(start, effects.drop_last());
        match effects.last() {
            EffectModel::ConnectionUpdated(connection) => Shown { connection, ..before },
            EffectModel::ActivityLogged(event) => Shown {
                events: newest(seq![event] + before.events),
                ..before
            },
            EffectModel::ShutdownCleared => Shown { pending_shutdown: None, ..before },
            EffectModel::ShutdownPending(prompt) => Shown {
                pending_shutdown: Some(prompt),
                ..before
            },
            _ => before,
        }
    }
}

impl StateModel {
    /// Whether the user interface, told of every effect since it showed `start`, shows this state.
    #[verifier::opaque]
    pub open spec fn is_shown_since(self, start: Shown) -> bool {
        shown(start, self.effects) == (Shown {
            connection: self.connection,
            events: self.events,
            pending_shutdown: self.pending_shutdown,
        })
    }
}

/// What one more effect shows.
proof fn lemma_shown(start: Shown, effects: Seq<EffectModel>, effect: EffectModel)
    ensures
        shown(start, effects.push(effect)) == (match effect {
            EffectModel::ConnectionUpdated(connection) => Shown {
                connection,
                ..shown(start, effects)
            },
            EffectModel::ActivityLogged(event) => Shown {
                events: newest(seq![event] + shown(start, effects).events),
                ..shown(start, effects)
            },
            EffectModel::ShutdownCleared => Shown {
                pending_shutdown: None,
                ..shown(start, effects)
            },
            EffectModel::ShutdownPending(prompt) => Shown {
                pending_shutdown: Some(prompt),
                ..shown(start, effects)
            },
            _ => shown(start, effects),
        }),
{
    assert(effects.push(effect).drop_last() == effects);
}

/// The user interface keeps up: whatever changes in the connection, the log or the pending
/// shutdown, it is told of.
pub proof fn law_the_user_interface_keeps_up(
    state: StateModel,
    start: Shown,
    phase: ConnectionPhase,
    level: EventLevel,
    title: Seq<char>,
    detail: Seq<char>,
    endpoint: Seq<char>,
    attempts: u32,
    last_error: Option<Seq<char>>,
    timestamp: Seq<char>,
    duration_seconds: u32,
    now_ms: i64,
)
    requires
        state.is_shown_since(start),
    ensures
        state.reported(phase, detail, endpoint, attempts, last_error).is_shown_since(start),
        state.logged(level, title, detail, timestamp).is_shown_since(start),
        state.connector_aborted().is_shown_since(start),
        state.connector_started().is_shown_since(start),
        state.shutdown_cleared().is_shown_since(start),
        state.shutdown_scheduled(duration_seconds, now_ms).is_shown_since(start),
{
    reveal(StateModel::reported);
    reveal(StateModel::logged);
    reveal(StateModel::shutdown_scheduled);
    reveal(StateModel::is_shown_since);
    let reported = state.reported(phase, detail, endpoint, attempts, last_error);
    lemma_shown(start, state.effects, EffectModel::ConnectionUpdated(reported.connection));
    let logged = state.logged(level, title, detail, timestamp);
    let event = EventModel { level, title, detail, timestamp };
    lemma_shown(start, state.effects, EffectModel::ConnectionUpdated(logged.connection));
    lemma_shown(
        start,
        state.effects.push(EffectModel::ConnectionUpdated(logged.connection)),
        EffectModel::ActivityLogged(event),
    );
    lemma_shown(start, state.effects, EffectModel::AbortConnector);
    lemma_shown(start, state.connector_aborted().effects, EffectModel::StartConnector);
    lemma_shown(start, state.effects, EffectModel::AbortShutdownTimer);
    let stopped = if state.shutdown_task {
        state.effects.push(EffectModel::AbortShutdownTimer)
    } else {
        state.effects
    };
    lemma_shown(start, stopped, EffectModel::ShutdownCleared);
    let cleared = state.shutdown_cleared().effects;
    let prompt = state.shutdown_scheduled(duration_seconds, now_ms).pending_shutdown->Some_0;
    let told = cleared.push(EffectModel::ShutdownPending(prompt));
    let front = told.push(EffectModel::ShowMainWindow);
    lemma_shown(start, cleared, EffectModel::ShutdownPending(prompt));
    lemma_shown(start, told, EffectModel::ShowMainWindow);
    lemma_shown(start, front, EffectModel::StartShutdownTimer(duration_seconds));
}

/// The model of a connection holds what each field holds, under its name.
pub proof fn law_the_model_of_a_connection_is_faithful(snapshot: ConnectionSnapshot)
    ensures
        snapshot@.phase == snapshot.phase,
        snapshot@.connected == snapshot.connected,
        snapshot@.detail == snapshot.detail@,
        snapshot@.endpoint == snapshot.endpoint@,
        snapshot@.attempts == snapshot.attempts,
        snapshot@.last_error == text_option(snapshot.last_error),
        snapshot@.last_event_at == text_option(snapshot.last_event_at),
{
}

/// The model of an event holds what each field holds, under its name.
pub proof fn law_the_model_of_an_event_is_faithful(event: ActivityEvent)
    ensures
        event@.level == event.level,
        event@.title == event.title@,
        event@.detail == event.detail@,
        event@.timestamp == event.timestamp@,
{
}

/// The model of a pending shutdown holds what each field holds, under its name.
pub proof fn law_the_model_of_a_pending_shutdown_is_faithful(prompt: ShutdownPromptPayload)
    ensures
        prompt@.deadline_unix_ms == prompt.deadline_unix_ms,
        prompt@.duration_seconds == prompt.duration_seconds,
        prompt@.command_preview == prompt.command_preview@,
{
}

/// The user interface keeps up with each operation on the state.
pub proof fn lemma_operations_are_shown()
    ensures
        forall|
            state: StateModel,
            phase: ConnectionPhase,
            detail: Seq<char>,
            endpoint: Seq<char>,
            attempts: u32,
            last_error: Option<Seq<char>>,
            start: Shown,
        |
            state.is_shown_since(start) ==> #[trigger] state.reported(
                phase,
                detail,
                endpoint,
                attempts,
                last_error,
            ).is_shown_since(start),
        forall|
            state: StateModel,
            level: EventLevel,
            title: Seq<char>,
            detail: Seq<char>,
            stamp: Seq<char>,
            start: Shown,
        |
            state.is_shown_since(start) ==> #[trigger] state.logged(
                level,
                title,
                detail,
                stamp,
            ).is_shown_since(start),
        forall|state: StateModel, duration_seconds: u32, now_ms: i64, start: Shown|
            state.is_shown_since(start) ==> #[trigger] state.shutdown_scheduled(
                duration_seconds,
                now_ms,
            ).is_shown_since(start),
        forall|state: StateModel, start: Shown|
            state.is_shown_since(start) ==> #[trigger] state.shutdown_cleared().is_shown_since(
                start,
            ),
        forall|state: StateModel, start: Shown|
            state.is_shown_since(start) ==> #[trigger] state.connector_aborted().is_shown_since(
                start,
            ),
        forall|state: StateModel, start: Shown|
            state.is_shown_since(start) ==> #[trigger] state.connector_started().is_shown_since(
                start,
            ),
        forall|state: StateModel, config: ConfigModel, start: Shown|
            #[trigger] (StateModel { config, ..state }).is_shown_since(start)
                == state.is_shown_since(start),
{
    let none = Seq::<char>::empty();
    let idle = ConnectionPhase::Idle;
    let info = EventLevel::Info;
    assert forall|
        state: StateModel,
        phase: ConnectionPhase,
        detail: Seq<char>,
        endpoint: Seq<char>,
        attempts: u32,
        last_error: Option<Seq<char>>,
        start: Shown,
    |
        state.is_shown_since(start) implies #[trigger] state.reported(
        phase,
        detail,
        endpoint,
        attempts,
        last_error,
    ).is_shown_since(start) by {
        law_the_user_interface_keeps_up(
            state, start, phase, info, none, detail, endpoint, attempts, last_error, none, 0, 0,
        );
    }
    assert forall|
        state: StateModel,
        level: EventLevel,
        title: Seq<char>,
        detail: Seq<char>,
        stamp: Seq<char>,
        start: Shown,
    |
        state.is_shown_since(start) implies #[trigger] state.logged(
        level,
        title,
        detail,
        stamp,
    ).is_shown_since(start) by {
        law_the_user_interface_keeps_up(
            state, start, idle, level, title, detail, none, 0, None, stamp, 0, 0,
        );
    }
    assert forall|state: StateModel, duration_seconds: u32, now_ms: i64, start: Shown|
        state.is_shown_since(start) implies #[trigger] state.shutdown_scheduled(
        duration_seconds,
        now_ms,
    ).is_shown_since(start) by {
        law_the_user_interface_keeps_up(
            state, start, idle, info, none, none, none, 0, None, none, duration_seconds, now_ms,
        );
    }
    assert forall|state: StateModel, start: Shown|
        state.is_shown_since(start) implies #[trigger] state.shutdown_cleared().is_shown_since(
        start,
    ) by {
        law_the_user_interface_keeps_up(
            state, start, idle, info, none, none, none, 0, None, none, 0, 0,
        );
    }
    assert forall|state: StateModel, start: Shown|
        state.is_shown_since(start) implies #[trigger] state.connector_aborted().is_shown_since(
        start,
    ) by {
        law_the_user_interface_keeps_up(
            state, start, idle, info, none, none, none, 0, None, none, 0, 0,
        );
    }
    assert forall|state: StateModel, start: Shown|
        state.is_shown_since(start) implies #[trigger] state.connector_started().is_shown_since(
        start,
    ) by {
        law_the_user_interface_keeps_up(
            state, start, idle, info, none, none, none, 0, None, none, 0, 0,
        );
    }
    reveal(StateModel::is_shown_since);
}

/// Lists of events and effects are modelled one by one, in order, and so is a shutdown that may be
/// pending.
pub proof fn law_the_models_of_lists_are_faithful(
    events: Seq<ActivityEvent>,
    effects: Seq<Effect>,
    prompt: Option<ShutdownPromptPayload>,
    i: int,
)
    ensures
        event_models(events).len() == events.len(),
        0 <= i < events.len() ==> event_models(events)[i] == events[i]@,
        effect_models(effects).len() == effects.len(),
        0 <= i < effects.len() ==> effect_models(effects)[i] == effects[i]@,
        prompt is Some <==> prompt_option(prompt) is Some,
        prompt matches Some(pending) ==> prompt_option(prompt) == Some(pending@),
{
}

/// The model of an effect is of its kind and holds what it holds.
pub proof fn law_the_model_of_an_effect_is_faithful(
    snapshot: ConnectionSnapshot,
    event: ActivityEvent,
    prompt: ShutdownPromptPayload,
    seconds: u32,
)
    ensures
        Effect::ConnectionUpdated(snapshot)@ == EffectModel::ConnectionUpdated(snapshot@),
        Effect::ActivityLogged(event)@ == EffectModel::ActivityLogged(event@),
        Effect::ShutdownCleared@ == EffectModel::ShutdownCleared,
        Effect::ShutdownPending(prompt)@ == EffectModel::ShutdownPending(prompt@),
        Effect::ShowMainWindow@ == EffectModel::ShowMainWindow,
        Effect::AbortConnector@ == EffectModel::AbortConnector,
        Effect::StartConnector@ == EffectModel::StartConnector,
        Effect::AbortShutdownTimer@ == EffectModel::AbortShutdownTimer,
        Effect::StartShutdownTimer(seconds)@ == EffectModel::StartShutdownTimer(seconds),
{
}

} // verus!
