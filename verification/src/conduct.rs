//! What can be relied on of a connector, whatever happens to it.

use vstd::prelude::*;
use vstd::utf8::encode_utf8;

use crate::clock::MomentModel;
use crate::config::{ConfigModel, SyncModel};
use crate::endpoint::{resolved, ws_url, ProbeModel, Transport};
use crate::envelope::unpacked;
use crate::login::{law_the_login_is_packed_with_the_configured_key, login_message};
use crate::machine::{
    asks_to_shut_down, decodes_to, ConnectorEventModel, ConnectorModel, DirectiveModel,
    LoginRespModel, MessageModel, PayloadKind, ShutdownMode, StageModel, Step, REFUSED_DELAY,
    RETRY_DELAY, SHUTDOWN_COUNTDOWN,
};
use crate::state::{
    lemma_operations_are_shown, newest, ConnectionPhase, EventLevel, EventModel, PromptModel,
    Shown, SnapshotModel, StateModel,
};
use crate::text::decimal;
use crate::wake::WakeUpModel;

verus! {

impl DirectiveModel {
    /// Whether an event is an answer to this directive: what comes of doing as it says.
    pub open spec fn answered_by(self, event: ConnectorEventModel) -> bool {
        match self {
            DirectiveModel::Probe { .. } => event is Probed,
            DirectiveModel::Connect { .. } => event is Connected,
            DirectiveModel::SendLogin(_) => event is LoginSent,
            DirectiveModel::AwaitLogin(_) | DirectiveModel::Read => {
                ||| event is Text
                ||| event is Binary
                ||| event is OtherFrame
                ||| event is Closed
                ||| event is ReadFailed
            },
            DirectiveModel::Decode(frame) => {
                &&& event is Decoded
                &&& frame.payload_kind() is Some
                &&& decodes_to(frame.payload_kind()->Some_0, event->Decoded_0)
            },
            DirectiveModel::Persist(_) => event is Persisted,
            DirectiveModel::Relay { .. } => event is Relayed,
            DirectiveModel::PowerOff(_) => event is PoweredOff,
            DirectiveModel::CheckDeadline => event is DeadlineChecked,
            DirectiveModel::Sleep(_) => event is Wake,
            DirectiveModel::Stop | DirectiveModel::Ignore => false,
        }
    }

    /// Whether a stage is the one in which this directive is carried out.
    pub open spec fn belongs_to(self, stage: StageModel) -> bool {
        match self {
            DirectiveModel::Probe { .. } => stage is Resolving,
            DirectiveModel::Connect { .. } => stage is Connecting,
            DirectiveModel::SendLogin(_) => stage is SendingLogin,
            DirectiveModel::AwaitLogin(_) | DirectiveModel::Read => stage is Reading,
            DirectiveModel::Decode(frame) => {
                &&& frame.payload_kind() is Some
                &&& stage == StageModel::Decoding(frame.payload_kind()->Some_0)
            },
            DirectiveModel::Persist(next) => stage == StageModel::Persisting(next),
            DirectiveModel::Relay { .. } => stage is Relaying,
            DirectiveModel::PowerOff(_) => stage is PoweringOff,
            DirectiveModel::CheckDeadline => stage is CheckingDeadline,
            DirectiveModel::Sleep(_) => stage is Begin,
            DirectiveModel::Stop => stage is Stopped,
            DirectiveModel::Ignore => false,
        }
    }
}

/// Whether an event brings the controller's consent to a login.
pub open spec fn accepts_the_login(event: ConnectorEventModel) -> bool {
    match event {
        ConnectorEventModel::Decoded(Ok(MessageModel::LoginResp(response))) => response.ret == 0,
        _ => false,
    }
}

impl ConnectorModel {
    /// Whether the connector is in a session: the login is out.
    pub open spec fn in_session(self) -> bool {
        ||| self.stage is Reading
        ||| self.stage is Decoding
        ||| self.stage is Persisting
        ||| self.stage is Relaying
        ||| self.stage is PoweringOff
        ||| self.stage is CheckingDeadline
    }

    /// Whether the connector is in an attempt: it has begun, and the login is not out.
    pub open spec fn in_attempt(self) -> bool {
        ||| self.stage is Resolving
        ||| self.stage is Connecting
        ||| self.stage is SendingLogin
    }

    /// Whether the reported state of the connection tells the truth about this connector.
    pub open spec fn agrees_with(self, connection: SnapshotModel) -> bool {
        &&& self.in_session() || self.in_attempt() ==> connection.attempts == self.attempts
        &&& self.in_session() && self.authenticated ==> connection.phase
            == ConnectionPhase::Connected
        &&& self.in_session() && !self.authenticated || self.in_attempt() ==> {
            ||| connection.phase == ConnectionPhase::Connecting
            ||| connection.phase == ConnectionPhase::Reconnecting
        }
        &&& self.stage is CheckingDeadline ==> !self.authenticated
    }
}

/// What a report, an event and a scheduled shutdown leave as it was.
proof fn lemma_what_operations_change()
    ensures
        forall|
            state: StateModel,
            phase: ConnectionPhase,
            detail: Seq<char>,
            endpoint: Seq<char>,
            attempts: u32,
            last_error: Option<Seq<char>>,
        |
            {
                let next = #[trigger] state.reported(phase, detail, endpoint, attempts, last_error);
                &&& next.config == state.config
                &&& next.pending_shutdown == state.pending_shutdown
                &&& next.connection.phase == phase
                &&& next.connection.attempts == attempts
                &&& state.well_formed() ==> next.well_formed()
            },
        forall|
            state: StateModel,
            level: EventLevel,
            title: Seq<char>,
            detail: Seq<char>,
            stamp: Seq<char>,
        |
            {
                let next = #[trigger] state.logged(level, title, detail, stamp);
                &&& next.config == state.config
                &&& next.pending_shutdown == state.pending_shutdown
                &&& next.connection.phase == state.connection.phase
                &&& next.connection.attempts == state.connection.attempts
                &&& state.well_formed() ==> next.well_formed()
            },
        forall|state: StateModel, duration_seconds: u32, now_ms: i64|
            {
                let next = #[trigger] state.shutdown_scheduled(duration_seconds, now_ms);
                &&& next.config == state.config
                &&& next.pending_shutdown == Some(
                    PromptModel {
                        deadline_unix_ms: (now_ms + duration_seconds * 1000) as i64,
                        duration_seconds,
                        command_preview: state.config.power_off_cmd,
                    },
                )
                &&& next.connection == state.connection
                &&& state.well_formed() ==> next.well_formed()
            },
{
    reveal(StateModel::reported);
    reveal(StateModel::logged);
    reveal(StateModel::shutdown_scheduled);
}

/// What a step that was waited for changes, and what it asks for.
#[verifier::rlimit(60)]
#[verifier::spinoff_prover]
proof fn lemma_what_steps_change(
    connector: ConnectorModel,
    state: StateModel,
    event: ConnectorEventModel,
    moment: MomentModel,
)
    requires
        connector.expects(event),
    ensures
        ({
            let next = connector.step(state, event, moment);
            let begins = event is Wake && state.config.can_connect();
            let shuts_down = asks_to_shut_down(event, connector.config.message_key);
            &&& next.connector.attempts == if begins && connector.attempts < u32::MAX {
                connector.attempts + 1
            } else {
                connector.attempts as int
            }
            &&& next.connector.authenticated == if event is LoginSent && event->LoginSent_0 is Ok {
                false
            } else {
                connector.authenticated || accepts_the_login(event)
            }
            &&& next.directive.belongs_to(next.connector.stage)
            &&& next.connector.stage is CheckingDeadline ==> !next.connector.authenticated
            &&& next.directive is Stop <==> {
                ||| event is Wake && !begins
                ||| event is Connected && event->Connected_0 is Ok && login_message(
                    connector.config,
                    moment.unix_seconds,
                ) is None
            }
            &&& next.directive is Sleep ==> next.directive == DirectiveModel::Sleep(
                if connector.in_session() && !connector.authenticated {
                    REFUSED_DELAY
                } else {
                    RETRY_DELAY
                },
            )
            &&& next.directive is PowerOff <==> shuts_down && connector.mode
                == ShutdownMode::Immediate
            &&& next.directive is PowerOff ==> next.directive == DirectiveModel::PowerOff(
                state.config.power_off_cmd,
            )
            &&& next.directive is Persist ==> {
                event matches ConnectorEventModel::Decoded(
                    Ok(MessageModel::SyncClientConfigure(sync)),
                ) && next.directive->Persist_0 == state.config.synced(sync)
            }
            &&& state.well_formed() ==> next.state.well_formed()
            &&& forall|start: Shown| #[trigger]
                state.is_shown_since(start) ==> next.state.is_shown_since(start)
            &&& next.state.config == if event is Persisted && event->Persisted_0 is Ok {
                connector.stage->Persisting_0
            } else {
                state.config
            }
            &&& next.state.pending_shutdown == if shuts_down && connector.mode
                == ShutdownMode::Prompt {
                Some(
                    PromptModel {
                        deadline_unix_ms: (moment.unix_millis + SHUTDOWN_COUNTDOWN * 1000) as i64,
                        duration_seconds: SHUTDOWN_COUNTDOWN,
                        command_preview: state.config.power_off_cmd,
                    },
                )
            } else {
                state.pending_shutdown
            }
            &&& begins ==> {
                &&& next.connector.in_attempt()
                &&& next.state.connection.attempts == next.connector.attempts
                &&& next.state.connection.phase == if connector.attempts == 0 {
                    ConnectionPhase::Connecting
                } else {
                    ConnectionPhase::Reconnecting
                }
            }
            &&& accepts_the_login(event) ==> {
                &&& next.connector.in_session()
                &&& next.state.connection.attempts == connector.attempts
                &&& next.state.connection.phase == ConnectionPhase::Connected
            }
            &&& !accepts_the_login(event) && next.state.connection.phase
                == ConnectionPhase::Connected ==> state.connection.phase
                == ConnectionPhase::Connected
            &&& !begins && !accepts_the_login(event) && (next.connector.in_attempt()
                || next.connector.in_session()) ==> {
                &&& connector.in_attempt() || connector.in_session()
                &&& next.connector.in_attempt() ==> connector.in_attempt()
                &&& connector.in_attempt() && next.connector.in_session() ==> event is LoginSent
                    && event->LoginSent_0 is Ok
                &&& next.state.connection.attempts == state.connection.attempts
                &&& next.state.connection.phase == state.connection.phase
            }
        }),
{
    lemma_operations_are_shown();
    lemma_what_operations_change();
    match event {
        ConnectorEventModel::Wake => reveal(ConnectorModel::on_wake),
        ConnectorEventModel::Probed(_) => reveal(ConnectorModel::on_probed),
        ConnectorEventModel::Connected(_) => reveal(ConnectorModel::on_connected),
        ConnectorEventModel::LoginSent(_) => reveal(ConnectorModel::on_login_sent),
        ConnectorEventModel::Text(_) => {
            reveal(ConnectorModel::on_text);
            reveal(ConnectorModel::on_message);
            reveal(ConnectorModel::on_shut_down);
        },
        ConnectorEventModel::Decoded(Ok(MessageModel::LoginResp(_))) => {
            reveal(ConnectorModel::on_message);
            reveal(ConnectorModel::on_login_resp);
        },
        ConnectorEventModel::Decoded(_) => {
            reveal(ConnectorModel::on_message);
            reveal(ConnectorModel::on_sync);
            reveal(ConnectorModel::on_shut_down);
        },
        ConnectorEventModel::Persisted(_) => reveal(ConnectorModel::on_persisted),
        ConnectorEventModel::Relayed(_) => reveal(ConnectorModel::on_relayed),
        ConnectorEventModel::PoweredOff(_) => reveal(ConnectorModel::on_powered_off),
        ConnectorEventModel::DeadlineChecked(_) => reveal(ConnectorModel::on_deadline),
        _ => {},
    }
}

/// Every step keeps what always holds of the shared state.
pub proof fn law_steps_keep_the_state_well_formed(
    connector: ConnectorModel,
    state: StateModel,
    event: ConnectorEventModel,
    moment: MomentModel,
)
    requires
        state.well_formed(),
    ensures
        connector.step(state, event, moment).state.well_formed(),
{
    if connector.expects(event) {
        lemma_what_steps_change(connector, state, event, moment);
    }
}

/// The reported state of the connection tells the truth: from step to step it says "connected"
/// in exactly the sessions that the controller has accepted, "connecting" or "reconnecting"
/// before that, and counts the attempts.
pub proof fn law_the_report_follows_the_connector(
    connector: ConnectorModel,
    state: StateModel,
    event: ConnectorEventModel,
    moment: MomentModel,
)
    requires
        connector.agrees_with(state.connection),
    ensures
        connector.step(state, event, moment).connector.agrees_with(
            connector.step(state, event, moment).state.connection,
        ),
{
    if connector.expects(event) {
        lemma_what_steps_change(connector, state, event, moment);
    }
}

/// Nothing but an accepted login makes the connection count as connected.
pub proof fn law_only_an_accepted_login_connects(
    connector: ConnectorModel,
    state: StateModel,
    event: ConnectorEventModel,
    moment: MomentModel,
)
    requires
        state.connection.phase != ConnectionPhase::Connected,
    ensures
        connector.step(state, event, moment).state.connection.phase == ConnectionPhase::Connected
            <==> connector.expects(event) && accepts_the_login(event),
{
    if connector.expects(event) {
        lemma_what_steps_change(connector, state, event, moment);
    }
}

/// The connector does not give up: it ends only if there is nowhere to connect to or no room for
/// the login message. Whenever an attempt or a session is over it sleeps before the next attempt:
/// longer if the controller never accepted the login of a session.
pub proof fn law_the_connector_tries_again(
    connector: ConnectorModel,
    state: StateModel,
    event: ConnectorEventModel,
    moment: MomentModel,
)
    requires
        connector.expects(event),
    ensures
        ({
            let next = connector.step(state, event, moment);
            &&& next.directive is Stop <==> next.connector.stage is Stopped
            &&& next.directive is Stop <==> {
                ||| event is Wake && !state.config.can_connect()
                ||| event is Connected && event->Connected_0 is Ok && login_message(
                    connector.config,
                    moment.unix_seconds,
                ) is None
            }
            &&& next.directive is Sleep <==> next.connector.stage is Begin
            &&& next.directive is Sleep ==> next.directive == DirectiveModel::Sleep(
                if connector.in_session() && !connector.authenticated {
                    REFUSED_DELAY
                } else {
                    RETRY_DELAY
                },
            )
        }),
{
    lemma_what_steps_change(connector, state, event, moment);
}

/// Each step moves to the stage in which its directive is carried out.
pub proof fn law_stages_follow_the_directives(
    connector: ConnectorModel,
    state: StateModel,
    event: ConnectorEventModel,
    moment: MomentModel,
)
    requires
        connector.expects(event),
    ensures
        connector.step(state, event, moment).directive.belongs_to(
            connector.step(state, event, moment).connector.stage,
        ),
{
    lemma_what_steps_change(connector, state, event, moment);
}

/// Whoever carries out each directive is always understood: the connector waits for exactly the
/// answers to what it asked for.
pub proof fn law_answers_are_expected(
    connector: ConnectorModel,
    state: StateModel,
    event: ConnectorEventModel,
    moment: MomentModel,
    answer: ConnectorEventModel,
)
    requires
        connector.expects(event),
    ensures
        connector.step(state, event, moment).directive.answered_by(answer) <==> connector.step(
            state,
            event,
            moment,
        ).connector.expects(answer),
{
    law_stages_follow_the_directives(connector, state, event, moment);
    lemma_answers(
        connector.step(state, event, moment).connector,
        connector.step(state, event, moment).directive,
        answer,
    );
}

/// At the stage in which a directive is carried out, exactly its answers are expected.
proof fn lemma_answers(
    connector: ConnectorModel,
    directive: DirectiveModel,
    answer: ConnectorEventModel,
)
    requires
        directive.belongs_to(connector.stage),
    ensures
        directive.answered_by(answer) <==> connector.expects(answer),
{
}

/// An event that the connector does not wait for changes nothing.
pub proof fn law_unexpected_events_change_nothing(
    connector: ConnectorModel,
    state: StateModel,
    event: ConnectorEventModel,
    moment: MomentModel,
)
    requires
        !connector.expects(event),
    ensures
        connector.step(state, event, moment) == (Step {
            connector,
            state,
            directive: DirectiveModel::Ignore,
        }),
{
}

/// The attempts count how often the connector has begun anew, up to the largest number there is:
/// nothing else changes the count, and the report says "connecting" for the first of them alone.
pub proof fn law_attempts_are_counted(
    connector: ConnectorModel,
    state: StateModel,
    event: ConnectorEventModel,
    moment: MomentModel,
)
    requires
        connector.expects(event),
    ensures
        ({
            let next = connector.step(state, event, moment);
            let begins = event is Wake && state.config.can_connect();
            &&& begins ==> {
                &&& next.connector.attempts == if connector.attempts == u32::MAX {
                    u32::MAX as int
                } else {
                    connector.attempts + 1
                }
                &&& next.state.connection.attempts == next.connector.attempts
                &&& next.state.connection.phase == if connector.attempts == 0 {
                    ConnectionPhase::Connecting
                } else {
                    ConnectionPhase::Reconnecting
                }
            }
            &&& !begins ==> next.connector.attempts == connector.attempts
        }),
{
    lemma_what_steps_change(connector, state, event, moment);
}

/// The configuration changes only to one that has been written to the disk, and a connector has
/// only settings of the controller written: applied to the configuration of that time.
pub proof fn law_only_written_settings_take_effect(
    connector: ConnectorModel,
    state: StateModel,
    event: ConnectorEventModel,
    moment: MomentModel,
)
    ensures
        ({
            let next = connector.step(state, event, moment);
            &&& next.state.config == if connector.stage is Persisting && event is Persisted
                && event->Persisted_0 is Ok {
                connector.stage->Persisting_0
            } else {
                state.config
            }
            &&& next.directive is Persist ==> {
                &&& next.connector.stage == StageModel::Persisting(
                    next.directive->Persist_0,
                )
                &&& event matches ConnectorEventModel::Decoded(
                    Ok(MessageModel::SyncClientConfigure(sync)),
                ) && next.directive->Persist_0 == state.config.synced(sync)
            }
        }),
{
    if connector.expects(event) {
        lemma_what_steps_change(connector, state, event, moment);
    }
}

/// A connector that prompts never runs a power command of its own accord. What a request to shut
/// down does there is to leave a shutdown pending, due after the countdown, and nothing else
/// touches a pending shutdown.
pub proof fn law_a_prompting_connector_leaves_the_choice(
    connector: ConnectorModel,
    state: StateModel,
    event: ConnectorEventModel,
    moment: MomentModel,
)
    requires
        connector.mode == ShutdownMode::Prompt,
    ensures
        ({
            let next = connector.step(state, event, moment);
            &&& !(next.directive is PowerOff)
            &&& next.state.pending_shutdown == if connector.expects(event) && asks_to_shut_down(
                event,
                connector.config.message_key,
            ) {
                Some(
                    PromptModel {
                        deadline_unix_ms: (moment.unix_millis + SHUTDOWN_COUNTDOWN * 1000) as i64,
                        duration_seconds: SHUTDOWN_COUNTDOWN,
                        command_preview: state.config.power_off_cmd,
                    },
                )
            } else {
                state.pending_shutdown
            }
        }),
{
    if connector.expects(event) {
        lemma_what_steps_change(connector, state, event, moment);
    }
}

/// A connector that does not prompt runs the configured command exactly when it is asked to shut
/// down, and never leaves a shutdown pending.
pub proof fn law_an_immediate_connector_obeys(
    connector: ConnectorModel,
    state: StateModel,
    event: ConnectorEventModel,
    moment: MomentModel,
)
    requires
        connector.mode == ShutdownMode::Immediate,
    ensures
        ({
            let next = connector.step(state, event, moment);
            &&& next.directive is PowerOff <==> connector.expects(event) && asks_to_shut_down(
                event,
                connector.config.message_key,
            )
            &&& next.directive is PowerOff ==> next.directive == DirectiveModel::PowerOff(
                state.config.power_off_cmd,
            )
            &&& next.state.pending_shutdown == state.pending_shutdown
        }),
{
    if connector.expects(event) {
        lemma_what_steps_change(connector, state, event, moment);
    }
}

/// The two modes differ in nothing but what a request to shut down does.
#[verifier::rlimit(40)]
#[verifier::spinoff_prover]
pub proof fn law_the_modes_differ_in_shutdown_alone(
    connector: ConnectorModel,
    mode: ShutdownMode,
    state: StateModel,
    event: ConnectorEventModel,
    moment: MomentModel,
)
    requires
        !asks_to_shut_down(event, connector.config.message_key),
    ensures
        ({
            let one = connector.step(state, event, moment);
            (ConnectorModel { mode, ..connector }).step(state, event, moment) == (Step {
                connector: ConnectorModel { mode, ..one.connector },
                ..one
            })
        }),
{
    match event {
        ConnectorEventModel::Wake => reveal(ConnectorModel::on_wake),
        ConnectorEventModel::Probed(_) => reveal(ConnectorModel::on_probed),
        ConnectorEventModel::Connected(_) => reveal(ConnectorModel::on_connected),
        ConnectorEventModel::LoginSent(_) => reveal(ConnectorModel::on_login_sent),
        ConnectorEventModel::Text(_) => {
            reveal(ConnectorModel::on_text);
            reveal(ConnectorModel::on_message);
            reveal(ConnectorModel::on_shut_down);
        },
        ConnectorEventModel::Decoded(Ok(MessageModel::LoginResp(_))) => {
            reveal(ConnectorModel::on_message);
            reveal(ConnectorModel::on_login_resp);
        },
        ConnectorEventModel::Decoded(_) => {
            reveal(ConnectorModel::on_message);
            reveal(ConnectorModel::on_sync);
            reveal(ConnectorModel::on_shut_down);
        },
        ConnectorEventModel::Persisted(_) => reveal(ConnectorModel::on_persisted),
        ConnectorEventModel::Relayed(_) => reveal(ConnectorModel::on_relayed),
        ConnectorEventModel::PoweredOff(_) => reveal(ConnectorModel::on_powered_off),
        ConnectorEventModel::DeadlineChecked(_) => reveal(ConnectorModel::on_deadline),
        _ => {},
    }
}

/// What events, each at its moment, make of a connector and the state it works on.
pub open spec fn after(
    connector: ConnectorModel,
    state: StateModel,
    history: Seq<(ConnectorEventModel, MomentModel)>,
) -> (ConnectorModel, StateModel)
    decreases history.len(),
{
    if history.len() == 0 {
        (connector, state)
    } else {
        let (earlier, before) = after(connector, state, history.drop_last());
        let (event, moment) = history.last();
        let step = earlier.step(before, event, moment);
        (step.connector, step.state)
    }
}

/// However long a connector runs and whatever happens to it, the state stays well formed and what
/// is reported of the connection stays true.
pub proof fn law_a_connector_stays_true_to_its_report(
    mode: ShutdownMode,
    config: ConfigModel,
    state: StateModel,
    history: Seq<(ConnectorEventModel, MomentModel)>,
)
    requires
        state.well_formed(),
    ensures
        after(ConnectorModel::initial(mode, config), state, history).1.well_formed(),
        after(ConnectorModel::initial(mode, config), state, history).0.agrees_with(
            after(ConnectorModel::initial(mode, config), state, history).1.connection,
        ),
    decreases history.len(),
{
    if history.len() > 0 {
        let (event, moment) = history.last();
        law_a_connector_stays_true_to_its_report(mode, config, state, history.drop_last());
        let (earlier, before) = after(
            ConnectorModel::initial(mode, config),
            state,
            history.drop_last(),
        );
        law_steps_keep_the_state_well_formed(earlier, before, event, moment);
        law_the_report_follows_the_connector(earlier, before, event, moment);
    }
}

/// What a report, an event and a scheduled shutdown make of a state.
proof fn lemma_what_operations_do()
    ensures
        forall|
            state: StateModel,
            phase: ConnectionPhase,
            detail: Seq<char>,
            endpoint: Seq<char>,
            attempts: u32,
            last_error: Option<Seq<char>>,
        |
            {
                let next = #[trigger] state.reported(phase, detail, endpoint, attempts, last_error);
                next == (StateModel {
                    connection: SnapshotModel {
                        phase,
                        connected: phase == ConnectionPhase::Connected,
                        detail,
                        endpoint,
                        attempts,
                        last_error,
                        last_event_at: state.connection.last_event_at,
                    },
                    effects: next.effects,
                    ..state
                })
            },
        forall|
            state: StateModel,
            level: EventLevel,
            title: Seq<char>,
            detail: Seq<char>,
            stamp: Seq<char>,
        |
            {
                let next = #[trigger] state.logged(level, title, detail, stamp);
                next == (StateModel {
                    events: newest(
                        seq![EventModel { level, title, detail, timestamp: stamp }] + state.events,
                    ),
                    connection: SnapshotModel { last_event_at: Some(stamp), ..state.connection },
                    effects: next.effects,
                    ..state
                })
            },
        forall|state: StateModel, duration_seconds: u32, now_ms: i64|
            {
                let next = #[trigger] state.shutdown_scheduled(duration_seconds, now_ms);
                next == (StateModel {
                    shutdown_task: true,
                    pending_shutdown: Some(
                        PromptModel {
                            deadline_unix_ms: (now_ms + duration_seconds * 1000) as i64,
                            duration_seconds,
                            command_preview: state.config.power_off_cmd,
                        },
                    ),
                    effects: next.effects,
                    ..state
                })
            },
{
    reveal(StateModel::reported);
    reveal(StateModel::logged);
    reveal(StateModel::shutdown_scheduled);
}

/// An event in front of the newest of a log is in front of the log.
proof fn lemma_newest(event: EventModel, news: Seq<EventModel>, log: Seq<EventModel>)
    ensures
        newest(seq![event] + newest(news + log)) == newest((seq![event] + news) + log),
{
    let all = (seq![event] + news) + log;
    assert(seq![event] + (news + log) == all);
    assert(newest(seq![event] + newest(news + log)) == newest(all));
}

/// Whether a step changed nothing in the shared state but the connection, which it left as given,
/// and the log, in front of which it put the given news.
pub open spec fn told(
    before: StateModel,
    after: StateModel,
    connection: SnapshotModel,
    news: Seq<EventModel>,
) -> bool {
    &&& after.connection == connection
    &&& after.events == newest(news + before.events)
    &&& after.config == before.config
    &&& after.pending_shutdown == before.pending_shutdown
    &&& after.connector_task == before.connector_task
    &&& after.shutdown_task == before.shutdown_task
}

/// A connection whose last event was at the given time.
pub open spec fn marked(connection: SnapshotModel, stamp: Seq<char>) -> SnapshotModel {
    SnapshotModel { last_event_at: Some(stamp), ..connection }
}

/// An entry of the log.
pub open spec fn entry(
    level: EventLevel,
    title: Seq<char>,
    detail: Seq<char>,
    stamp: Seq<char>,
) -> EventModel {
    EventModel { level, title, detail, timestamp: stamp }
}

/// The report of a connection that is not up, after an event at the given time.
pub open spec fn not_connected(
    phase: ConnectionPhase,
    detail: Seq<char>,
    endpoint: Seq<char>,
    attempts: u32,
    last_error: Option<Seq<char>>,
    stamp: Seq<char>,
) -> SnapshotModel {
    SnapshotModel {
        phase,
        connected: false,
        detail,
        endpoint,
        attempts,
        last_error,
        last_event_at: Some(stamp),
    }
}

/// Whether a connector goes on to the next frame: at once in a session that was accepted, and with
/// an eye on the time in any other.
pub open spec fn reads_on(connector: ConnectorModel, next: Step) -> bool {
    if connector.authenticated {
        &&& next.connector == (ConnectorModel { stage: StageModel::Reading, ..connector })
        &&& next.directive == DirectiveModel::Read
    } else {
        &&& next.connector == (ConnectorModel { stage: StageModel::CheckingDeadline, ..connector })
        &&& next.directive == DirectiveModel::CheckDeadline
    }
}

/// Whether a connector waits so many seconds before its next attempt.
pub open spec fn rests(connector: ConnectorModel, next: Step, seconds: u64) -> bool {
    &&& next.connector == (ConnectorModel { stage: StageModel::Begin, ..connector })
    &&& next.directive == DirectiveModel::Sleep(seconds)
}

/// Whether a session is over, with the given report and news: one that was accepted is reported as
/// disconnected and resumed after three seconds, and any other is tried again after four.
pub open spec fn ends(
    connector: ConnectorModel,
    before: StateModel,
    next: Step,
    connection: SnapshotModel,
    news: Seq<EventModel>,
    stamp: Seq<char>,
) -> bool {
    if connector.authenticated {
        &&& rests(connector, next, 3)
        &&& told(
            before,
            next.state,
            not_connected(
                ConnectionPhase::Disconnected,
                "连接已断开，稍后自动重试"@,
                connector.target,
                connector.attempts,
                None,
                stamp,
            ),
            seq![
                entry(
                    EventLevel::Warning,
                    "连接已关闭"@,
                    "后台连接器将在稍后自动重试。"@,
                    stamp,
                ),
            ] + news,
        )
    } else {
        &&& rests(connector, next, 4)
        &&& told(before, next.state, connection, news)
    }
}

/// A transport is secured for `wss`, with its checks off only where the configuration says so.
pub open spec fn is_transport(transport: Transport, endpoint: Seq<char>, skip: bool) -> bool {
    if "wss://"@.is_prefix_of(endpoint) {
        transport == (Transport::Tls {
            accept_invalid_certs: skip,
            accept_invalid_hostnames: skip,
        })
    } else {
        transport == Transport::Plain
    }
}

/// Every attempt begins with the configuration that the agent has at that moment: the connector
/// takes it over whole, and probes the service of its controller.
pub proof fn law_attempts_use_the_current_configuration(
    connector: ConnectorModel,
    state: StateModel,
    moment: MomentModel,
)
    requires
        connector.stage is Begin,
        state.config.can_connect(),
    ensures
        ({
            let next = connector.step(state, ConnectorEventModel::Wake, moment);
            &&& next.connector.config == state.config
            &&& next.connector.endpoint == ws_url(state.config.host)
            &&& next.connector.stage is Resolving
            &&& next.connector.mode == connector.mode
            &&& next.connector.target == connector.target
            &&& next.connector.authenticated == connector.authenticated
            &&& next.directive is Probe
            &&& next.directive->endpoint == ws_url(state.config.host)
            &&& is_transport(
                next.directive->Probe_transport,
                ws_url(state.config.host),
                state.config.skip_cert_verification,
            )
            &&& next.state == (StateModel {
                connection: SnapshotModel {
                    phase: if connector.attempts == 0 {
                        ConnectionPhase::Connecting
                    } else {
                        ConnectionPhase::Reconnecting
                    },
                    connected: false,
                    detail: "正在连接 Lucky 主控端"@,
                    endpoint: ws_url(state.config.host),
                    attempts: next.connector.attempts,
                    last_error: None,
                    last_event_at: state.connection.last_event_at,
                },
                effects: next.state.effects,
                ..state
            })
        }),
{
    lemma_what_operations_do();
    reveal(ConnectorModel::on_wake);
}

/// Without a controller or a token nothing is tried: the connector ends, and says what is missing.
pub proof fn law_nothing_is_tried_without_a_controller(
    connector: ConnectorModel,
    state: StateModel,
    moment: MomentModel,
)
    requires
        connector.stage is Begin,
        !state.config.can_connect(),
    ensures
        ({
            let next = connector.step(state, ConnectorEventModel::Wake, moment);
            &&& next.connector.stage is Stopped
            &&& next.directive is Stop
            &&& next.state == (StateModel {
                connection: SnapshotModel {
                    phase: ConnectionPhase::Idle,
                    connected: false,
                    detail: "请先填写主控地址和 Token"@,
                    endpoint: ws_url(state.config.host),
                    attempts: connector.attempts,
                    last_error: None,
                    last_event_at: state.connection.last_event_at,
                },
                effects: next.state.effects,
                ..state
            })
        }),
{
    lemma_what_operations_do();
    reveal(ConnectorModel::on_wake);
}

/// Where the probe leads, the connector connects, as the configuration of the attempt says; where
/// it leads nowhere, the attempt has failed with its error.
pub proof fn law_the_probe_decides_where_to_connect(
    connector: ConnectorModel,
    state: StateModel,
    outcome: ProbeModel,
    moment: MomentModel,
)
    requires
        connector.stage is Resolving,
    ensures
        ({
            let next = connector.step(state, ConnectorEventModel::Probed(outcome), moment);
            match resolved(connector.endpoint, outcome) {
                Ok(target) => {
                    &&& next.connector == (ConnectorModel {
                        target,
                        stage: StageModel::Connecting,
                        ..connector
                    })
                    &&& next.state == state
                    &&& next.directive is Connect
                    &&& next.directive->target == target
                    &&& is_transport(
                        next.directive->Connect_transport,
                        target,
                        connector.config.skip_cert_verification,
                    )
                },
                Err(error) => {
                    &&& rests(connector, next, 3)
                    &&& told(
                        state,
                        next.state,
                        not_connected(
                            ConnectionPhase::Error,
                            "无法连接到主控端"@,
                            connector.endpoint,
                            connector.attempts,
                            Some(error),
                            moment.timestamp,
                        ),
                        seq![
                            entry(
                                EventLevel::Error,
                                "连接失败"@,
                                error,
                                moment.timestamp,
                            ),
                        ],
                    )
                },
            }
        }),
{
    lemma_what_operations_do();
    reveal(ConnectorModel::on_probed);
}

/// A connection that is up is followed by the login of the attempt's configuration at that second;
/// one that is not has failed.
pub proof fn law_a_connection_logs_in(
    connector: ConnectorModel,
    state: StateModel,
    result: Result<(), Seq<char>>,
    moment: MomentModel,
)
    requires
        connector.stage is Connecting,
    ensures
        ({
            let next = connector.step(state, ConnectorEventModel::Connected(result), moment);
            let stamp = moment.timestamp;
            let up = entry(
                EventLevel::Success,
                "WebSocket 已连接"@,
                "已连接到 "@ + connector.target + "，等待 Lucky 登录响应。"@,
                stamp,
            );
            match result {
                Err(error) => {
                    &&& rests(connector, next, 3)
                    &&& told(
                        state,
                        next.state,
                        not_connected(
                            ConnectionPhase::Error,
                            "无法连接到主控端"@,
                            connector.target,
                            connector.attempts,
                            Some(error),
                            stamp,
                        ),
                        seq![entry(EventLevel::Error, "连接失败"@, error, stamp)],
                    )
                },
                Ok(_) => match login_message(connector.config, moment.unix_seconds) {
                    Some(Ok(text)) => {
                        &&& next.directive == DirectiveModel::SendLogin(text)
                        &&& next.connector == (ConnectorModel {
                            stage: StageModel::SendingLogin,
                            ..connector
                        })
                        &&& told(
                            state,
                            next.state,
                            marked(state.connection, stamp),
                            seq![
                                entry(
                                    EventLevel::Info,
                                    "准备发送 Login"@,
                                    "deviceKey="@ + connector.config.device_key + " mac="@
                                        + connector.config.mac + " relay="@ + (
                                    if connector.config.relay {
                                        "true"@
                                    } else {
                                        "false"@
                                    }) + " updateTime="@ + decimal(
                                        connector.config.update_time as int,
                                    ),
                                    stamp,
                                ),
                            ] + seq![up],
                        )
                    },
                    Some(Err(_)) => false,
                    None => {
                        &&& next.directive is Stop
                        &&& told(state, next.state, marked(state.connection, stamp), seq![up])
                    },
                },
            }
        }),
{
    lemma_what_operations_do();
    reveal(ConnectorModel::on_connected);
    law_the_login_is_packed_with_the_configured_key(connector.config, moment.unix_seconds);
    let next = connector.step(state, ConnectorEventModel::Connected(result), moment);
    let up = entry(
        EventLevel::Success,
        "WebSocket 已连接"@,
        "已连接到 "@ + connector.target + "，等待 Lucky 登录响应。"@,
        moment.timestamp,
    );
    let sends = entry(
        EventLevel::Info,
        "准备发送 Login"@,
        "deviceKey="@ + connector.config.device_key + " mac="@ + connector.config.mac + " relay="@
            + (if connector.config.relay {
            "true"@
        } else {
            "false"@
        }) + " updateTime="@ + decimal(connector.config.update_time as int),
        moment.timestamp,
    );
    lemma_newest(sends, seq![up], state.events);
}

/// The login that goes out in an attempt is that of the configuration that the agent had when the
/// attempt began, whatever the connector worked with before.
pub proof fn law_the_login_is_that_of_the_current_configuration(
    connector: ConnectorModel,
    state: StateModel,
    began: MomentModel,
    outcome: ProbeModel,
    probed: MomentModel,
    state_then: StateModel,
    state_later: StateModel,
    connected: MomentModel,
    text: Seq<char>,
)
    requires
        connector.stage is Begin,
        state.config.can_connect(),
        resolved(ws_url(state.config.host), outcome) is Ok,
        login_message(state.config, connected.unix_seconds) == Some(
            Ok::<Seq<char>, Seq<char>>(text),
        ),
    ensures
        ({
            let one = connector.step(state, ConnectorEventModel::Wake, began);
            let two = one.connector.step(
                state_then,
                ConnectorEventModel::Probed(outcome),
                probed,
            );
            let three = two.connector.step(
                state_later,
                ConnectorEventModel::Connected(Ok(())),
                connected,
            );
            three.directive == DirectiveModel::SendLogin(text)
        }),
{
    law_attempts_use_the_current_configuration(connector, state, began);
    let one = connector.step(state, ConnectorEventModel::Wake, began);
    law_the_probe_decides_where_to_connect(one.connector, state_then, outcome, probed);
    let two = one.connector.step(state_then, ConnectorEventModel::Probed(outcome), probed);
    law_a_connection_logs_in(two.connector, state_later, Ok(()), connected);
}

/// A login that is out opens a session, in which nothing has been accepted yet and the controller
/// has eight seconds to answer; one that did not go out ends the attempt.
pub proof fn law_a_login_opens_a_session(
    connector: ConnectorModel,
    state: StateModel,
    result: Result<(), Seq<char>>,
    moment: MomentModel,
)
    requires
        connector.stage is SendingLogin,
    ensures
        ({
            let next = connector.step(state, ConnectorEventModel::LoginSent(result), moment);
            let stamp = moment.timestamp;
            match result {
                Err(error) => {
                    &&& rests(connector, next, 3)
                    &&& told(
                        state,
                        next.state,
                        not_connected(
                            ConnectionPhase::Error,
                            "登录消息发送失败"@,
                            connector.target,
                            connector.attempts,
                            Some(error),
                            stamp,
                        ),
                        seq![entry(EventLevel::Error, "登录发送失败"@, error, stamp)],
                    )
                },
                Ok(_) => {
                    &&& next.connector == (ConnectorModel {
                        authenticated: false,
                        stage: StageModel::Reading,
                        ..connector
                    })
                    &&& next.directive == DirectiveModel::AwaitLogin(8)
                    &&& told(
                        state,
                        next.state,
                        marked(state.connection, stamp),
                        seq![
                            entry(
                                EventLevel::Info,
                                "Login 已发送"@,
                                "已向 Lucky 主控端发送登录消息，等待响应。"@,
                                stamp,
                            ),
                        ],
                    )
                },
            }
        }),
{
    lemma_what_operations_do();
    reveal(ConnectorModel::on_login_sent);
}

/// The answer to a login is logged. A return code of zero connects; any other ends the session with
/// the controller's words as the error.
pub proof fn law_the_answer_to_the_login_decides(
    connector: ConnectorModel,
    state: StateModel,
    response: LoginRespModel,
    moment: MomentModel,
)
    requires
        connector.stage == StageModel::Decoding(PayloadKind::LoginResp),
    ensures
        ({
            let next = connector.step(
                state,
                ConnectorEventModel::Decoded(Ok(MessageModel::LoginResp(response))),
                moment,
            );
            let stamp = moment.timestamp;
            let seen = entry(
                EventLevel::Info,
                "收到 LoginResp"@,
                "ret="@ + decimal(response.ret as int) + " msg="@ + response.msg
                    + " systemNowTime="@ + decimal(response.system_now_time as int),
                stamp,
            );
            if response.ret == 0 {
                &&& reads_on(ConnectorModel { authenticated: true, ..connector }, next)
                &&& told(
                    state,
                    next.state,
                    SnapshotModel {
                        phase: ConnectionPhase::Connected,
                        connected: true,
                        detail: "主控连接正常"@,
                        endpoint: connector.target,
                        attempts: connector.attempts,
                        last_error: None,
                        last_event_at: Some(stamp),
                    },
                    seq![
                        entry(
                            EventLevel::Success,
                            "鉴权成功"@,
                            "Lucky 主控端已接受当前设备。"@,
                            stamp,
                        ),
                    ] + seq![seen],
                )
            } else {
                ends(
                    connector,
                    state,
                    next,
                    not_connected(
                        ConnectionPhase::Error,
                        "主控端拒绝登录"@,
                        connector.target,
                        connector.attempts,
                        Some(response.msg),
                        stamp,
                    ),
                    seq![entry(EventLevel::Error, "登录被拒绝"@, response.msg, stamp)]
                        + seq![seen],
                    stamp,
                )
            }
        }),
{
    lemma_what_operations_do();
    reveal(ConnectorModel::on_message);
    reveal(ConnectorModel::on_login_resp);
    let stamp = moment.timestamp;
    let seen = entry(
        EventLevel::Info,
        "收到 LoginResp"@,
        "ret="@ + decimal(response.ret as int) + " msg="@ + response.msg + " systemNowTime="@
            + decimal(response.system_now_time as int),
        stamp,
    );
    let accepted = entry(
        EventLevel::Success,
        "鉴权成功"@,
        "Lucky 主控端已接受当前设备。"@,
        stamp,
    );
    let refused = entry(EventLevel::Error, "登录被拒绝"@, response.msg, stamp);
    let closed = entry(
        EventLevel::Warning,
        "连接已关闭"@,
        "后台连接器将在稍后自动重试。"@,
        stamp,
    );
    lemma_newest(accepted, seq![seen], state.events);
    lemma_newest(refused, seq![seen], state.events);
    lemma_newest(closed, seq![refused] + seq![seen], state.events);
}

/// Settings of the controller are logged and handed out to be written, applied to the configuration
/// that the agent has at that moment; nothing takes effect yet.
pub proof fn law_settings_are_handed_out_to_be_written(
    connector: ConnectorModel,
    state: StateModel,
    sync: SyncModel,
    moment: MomentModel,
)
    requires
        connector.stage == StageModel::Decoding(PayloadKind::SyncClientConfigure),
    ensures
        ({
            let next = connector.step(
                state,
                ConnectorEventModel::Decoded(Ok(MessageModel::SyncClientConfigure(sync))),
                moment,
            );
            &&& next.directive == DirectiveModel::Persist(state.config.synced(sync))
            &&& next.connector == (ConnectorModel {
                stage: StageModel::Persisting(state.config.synced(sync)),
                ..connector
            })
            &&& told(
                state,
                next.state,
                marked(state.connection, moment.timestamp),
                seq![
                    entry(
                        EventLevel::Info,
                        "收到配置同步"@,
                        "deviceName="@ + sync.device_name + " mac="@ + sync.mac + " broadcastIp="@
                            + sync.broadcast_ip,
                        moment.timestamp,
                    ),
                ],
            )
        }),
{
    lemma_what_operations_do();
    reveal(ConnectorModel::on_message);
    reveal(ConnectorModel::on_sync);
}

/// A wake-up request is handed out whole, and nothing changes yet.
pub proof fn law_wake_ups_are_handed_out(
    connector: ConnectorModel,
    state: StateModel,
    payload: WakeUpModel,
    moment: MomentModel,
)
    requires
        connector.stage == StageModel::Decoding(PayloadKind::ReplyWakeUp),
    ensures
        ({
            let next = connector.step(
                state,
                ConnectorEventModel::Decoded(Ok(MessageModel::ReplyWakeUp(payload))),
                moment,
            );
            &&& next.directive == (DirectiveModel::Relay {
                datagrams: payload.datagrams(),
                outcome: payload.outcome(),
            })
            &&& next.connector == (ConnectorModel { stage: StageModel::Relaying, ..connector })
            &&& next.state == state
        }),
{
    reveal(ConnectorModel::on_message);
}

/// A text is logged with its length in bytes and its first 96 characters, and unpacked with the
/// key of the attempt's configuration. A payload is handed out to be decoded; what cannot be
/// unpacked is logged.
pub proof fn law_texts_are_read_with_the_key(
    connector: ConnectorModel,
    state: StateModel,
    text: Seq<char>,
    moment: MomentModel,
)
    requires
        connector.stage is Reading,
        !asks_to_shut_down(ConnectorEventModel::Text(text), connector.config.message_key),
    ensures
        ({
            let next = connector.step(state, ConnectorEventModel::Text(text), moment);
            let stamp = moment.timestamp;
            let seen = received(text, stamp);
            match unpacked(text, connector.config.message_key) {
                Ok(frame) => {
                    &&& next.directive == DirectiveModel::Decode(frame)
                    &&& next.connector == (ConnectorModel {
                        stage: StageModel::Decoding(frame.payload_kind()->Some_0),
                        ..connector
                    })
                    &&& told(state, next.state, marked(state.connection, stamp), seq![seen])
                },
                Err(error) => {
                    &&& reads_on(connector, next)
                    &&& told(
                        state,
                        next.state,
                        marked(state.connection, stamp),
                        seq![entry(EventLevel::Warning, "入站消息解析失败"@, error, stamp)]
                            + seq![seen],
                    )
                },
            }
        }),
{
    lemma_what_operations_do();
    reveal(ConnectorModel::on_text);
    let stamp = moment.timestamp;
    if let Err(error) = unpacked(text, connector.config.message_key) {
        lemma_newest(
            entry(EventLevel::Warning, "入站消息解析失败"@, error, stamp),
            seq![received(text, stamp)],
            state.events,
        );
    }
    assert(text.len() == 96 ==> text.take(96) == text);
}

/// What the log says of a text that came in.
pub open spec fn received(text: Seq<char>, stamp: Seq<char>) -> EventModel {
    entry(
        EventLevel::Info,
        "收到入站文本消息"@,
        "长度="@ + decimal(encode_utf8(text).len() as int) + "，预览="@ + (if text.len() < 96 {
            text
        } else {
            text.take(96)
        }),
        stamp,
    )
}

/// A request to shut down is logged. It starts a countdown of thirty seconds where the connector
/// prompts, and otherwise has the configured command run at once.
pub proof fn law_a_request_to_shut_down_is_taken(
    connector: ConnectorModel,
    state: StateModel,
    text: Seq<char>,
    moment: MomentModel,
)
    requires
        connector.stage is Reading,
        asks_to_shut_down(ConnectorEventModel::Text(text), connector.config.message_key),
        connector.countdown_fits(moment),
    ensures
        ({
            let next = connector.step(state, ConnectorEventModel::Text(text), moment);
            let stamp = moment.timestamp;
            let seen = received(text, stamp);
            let connection = marked(state.connection, stamp);
            match connector.mode {
                ShutdownMode::Immediate => {
                    &&& next.directive == DirectiveModel::PowerOff(state.config.power_off_cmd)
                    &&& next.connector == (ConnectorModel {
                        stage: StageModel::PoweringOff,
                        ..connector
                    })
                    &&& told(state, next.state, connection, seq![seen])
                },
                ShutdownMode::Prompt => {
                    &&& reads_on(connector, next)
                    &&& next.state.pending_shutdown is Some
                    &&& next.state.pending_shutdown->Some_0.duration_seconds == 30
                    &&& next.state.pending_shutdown->Some_0.deadline_unix_ms == moment.unix_millis
                        + 30_000
                    &&& next.state.pending_shutdown->Some_0.command_preview
                        == state.config.power_off_cmd
                    &&& next.state.shutdown_task
                    &&& told(
                        state,
                        StateModel {
                            pending_shutdown: state.pending_shutdown,
                            shutdown_task: state.shutdown_task,
                            ..next.state
                        },
                        connection,
                        seq![
                            entry(
                                EventLevel::Warning,
                                "收到关机指令"@,
                                "主控端请求 30 秒后关机，用户可以取消或立即执行。"@,
                                stamp,
                            ),
                        ] + seq![seen],
                    )
                },
            }
        }),
{
    lemma_what_operations_do();
    reveal(ConnectorModel::on_text);
    reveal(ConnectorModel::on_message);
    reveal(ConnectorModel::on_shut_down);
    let stamp = moment.timestamp;
    lemma_newest(
        entry(
            EventLevel::Warning,
            "收到关机指令"@,
            "主控端请求 30 秒后关机，用户可以取消或立即执行。"@,
            stamp,
        ),
        seq![received(text, stamp)],
        state.events,
    );
    assert(text.len() == 96 ==> text.take(96) == text);
}

/// What came of work on a message is logged, success and failure alike, and the connector reads on.
/// Settings take effect once they are written, and nothing else changes.
pub proof fn law_what_came_of_a_message_is_logged(
    connector: ConnectorModel,
    state: StateModel,
    result: Result<(), Seq<char>>,
    error: Seq<char>,
    moment: MomentModel,
)
    ensures
        ({
            let stamp = moment.timestamp;
            let connection = marked(state.connection, stamp);
            let persisted = connector.step(state, ConnectorEventModel::Persisted(result), moment);
            let relayed = connector.step(state, ConnectorEventModel::Relayed(result), moment);
            let powered = connector.step(state, ConnectorEventModel::PoweredOff(result), moment);
            let undecoded = connector.step(state, ConnectorEventModel::Decoded(Err(error)), moment);
            let binary = connector.step(state, ConnectorEventModel::Binary, moment);
            let other = connector.step(state, ConnectorEventModel::OtherFrame, moment);
            &&& connector.stage is Persisting ==> {
                &&& reads_on(connector, persisted)
                &&& persisted.state.config == if result is Ok {
                    connector.stage->Persisting_0
                } else {
                    state.config
                }
                &&& told(
                    state,
                    StateModel { config: state.config, ..persisted.state },
                    connection,
                    seq![
                        match result {
                            Ok(_) => entry(
                                EventLevel::Info,
                                "配置已同步"@,
                                "主控端配置变更已应用到本地。"@,
                                stamp,
                            ),
                            Err(why) => entry(
                                EventLevel::Warning,
                                "配置同步警告"@,
                                why,
                                stamp,
                            ),
                        },
                    ],
                )
            }
            &&& connector.stage is Relaying ==> {
                &&& reads_on(connector, relayed)
                &&& told(
                    state,
                    relayed.state,
                    connection,
                    seq![
                        match result {
                            Ok(_) => entry(
                                EventLevel::Success,
                                "已发送唤醒中继"@,
                                "魔术包已经在当前局域网内广播。"@,
                                stamp,
                            ),
                            Err(why) => entry(
                                EventLevel::Error,
                                "唤醒中继失败"@,
                                why,
                                stamp,
                            ),
                        },
                    ],
                )
            }
            &&& connector.stage is PoweringOff ==> {
                &&& reads_on(connector, powered)
                &&& told(
                    state,
                    powered.state,
                    connection,
                    seq![
                        match result {
                            Ok(_) => entry(
                                EventLevel::Warning,
                                "收到关机指令"@,
                                "本机关机命令已经执行。"@,
                                stamp,
                            ),
                            Err(why) => entry(
                                EventLevel::Error,
                                "关机命令执行失败"@,
                                why,
                                stamp,
                            ),
                        },
                    ],
                )
            }
            &&& connector.stage is Decoding ==> {
                &&& reads_on(connector, undecoded)
                &&& told(
                    state,
                    undecoded.state,
                    connection,
                    seq![entry(EventLevel::Warning, "入站消息解析失败"@, error, stamp)],
                )
            }
            &&& connector.stage is Reading ==> {
                &&& reads_on(connector, binary)
                &&& told(
                    state,
                    binary.state,
                    connection,
                    seq![
                        entry(
                            EventLevel::Warning,
                            "收到不支持的帧"@,
                            "当前实现期望接收文本帧，但收到了二进制帧。"@,
                            stamp,
                        ),
                    ],
                )
                &&& reads_on(connector, other)
                &&& other.state == state
            }
        }),
{
    lemma_what_operations_do();
    reveal(ConnectorModel::on_persisted);
    reveal(ConnectorModel::on_relayed);
    reveal(ConnectorModel::on_powered_off);
}

/// A session ends when the connection is closed or cannot be read, or when the answer to the login
/// is overdue; as long as it is not, the connector reads on.
pub proof fn law_how_sessions_end(
    connector: ConnectorModel,
    state: StateModel,
    error: Seq<char>,
    moment: MomentModel,
)
    ensures
        ({
            let stamp = moment.timestamp;
            let closed = connector.step(state, ConnectorEventModel::Closed, moment);
            let failed = connector.step(state, ConnectorEventModel::ReadFailed(error), moment);
            let late = connector.step(state, ConnectorEventModel::DeadlineChecked(true), moment);
            let in_time = connector.step(
                state,
                ConnectorEventModel::DeadlineChecked(false),
                moment,
            );
            &&& connector.stage is Reading ==> {
                &&& connector.authenticated ==> ends(
                    connector,
                    state,
                    closed,
                    state.connection,
                    Seq::empty(),
                    stamp,
                )
                &&& !connector.authenticated ==> rests(connector, closed, 4) && closed.state
                    == state
                &&& ends(
                    connector,
                    state,
                    failed,
                    not_connected(
                        ConnectionPhase::Error,
                        "读取连接数据失败"@,
                        connector.target,
                        connector.attempts,
                        Some(error),
                        stamp,
                    ),
                    seq![entry(EventLevel::Error, "主控连接流异常"@, error, stamp)],
                    stamp,
                )
            }
            &&& connector.stage is CheckingDeadline ==> {
                &&& in_time.connector == (ConnectorModel {
                    stage: StageModel::Reading,
                    ..connector
                })
                &&& in_time.directive == DirectiveModel::Read
                &&& in_time.state == state
                &&& ends(
                    connector,
                    state,
                    late,
                    not_connected(
                        ConnectionPhase::Error,
                        "已连接主控端，但未收到登录响应"@,
                        connector.target,
                        connector.attempts,
                        Some("LoginResp timeout"@),
                        stamp,
                    ),
                    seq![
                        entry(
                            EventLevel::Warning,
                            "登录响应超时"@,
                            "WebSocket 已连接，但在 8 秒内未收到 Lucky LoginResp。"@,
                            stamp,
                        ),
                    ],
                    stamp,
                )
            }
        }),
{
    lemma_what_operations_do();
    reveal(ConnectorModel::on_deadline);
    let stamp = moment.timestamp;
    let closing = entry(
        EventLevel::Warning,
        "连接已关闭"@,
        "后台连接器将在稍后自动重试。"@,
        stamp,
    );
    let unread = entry(EventLevel::Error, "主控连接流异常"@, error, stamp);
    let overdue = entry(
        EventLevel::Warning,
        "登录响应超时"@,
        "WebSocket 已连接，但在 8 秒内未收到 Lucky LoginResp。"@,
        stamp,
    );
    lemma_newest(closing, seq![unread], state.events);
    lemma_newest(closing, seq![overdue], state.events);
    assert(seq![closing] + Seq::<EventModel>::empty() == seq![closing]);
}

/// The user interface keeps up with a connector: what it shows stays what the state holds.
pub proof fn law_the_user_interface_keeps_up_with_a_connector(
    connector: ConnectorModel,
    state: StateModel,
    event: ConnectorEventModel,
    moment: MomentModel,
    start: Shown,
)
    requires
        state.is_shown_since(start),
    ensures
        connector.step(state, event, moment).state.is_shown_since(start),
{
    if connector.expects(event) {
        lemma_what_steps_change(connector, state, event, moment);
    }
}

/// A connector begins with no attempt made and nothing accepted, and its first event is the time
/// of its first attempt.
pub proof fn law_a_connector_begins_with_an_attempt(
    mode: ShutdownMode,
    config: ConfigModel,
    event: ConnectorEventModel,
)
    ensures
        ConnectorModel::initial(mode, config).expects(event) <==> event is Wake,
        ConnectorModel::initial(mode, config).mode == mode,
        ConnectorModel::initial(mode, config).attempts == 0,
        !ConnectorModel::initial(mode, config).authenticated,
{
}

} // verus!
