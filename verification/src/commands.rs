//! What the user can ask for, and what the desktop reports: each command as a change of the shared
//! state.
//!
//! Where a command has work done outside (a file written, a command run), it comes in two parts:
//! the first says what to do, and the second takes what came of it.

use vstd::prelude::*;
use vstd::string::*;

use crate::config::{AppConfig, ConfigModel};
use crate::power::Platform;
use crate::state::{
    lemma_operations_are_shown, newest, ConnectionPhase, EffectModel, EventLevel, EventModel,
    SharedState, Shown, SnapshotModel, StateModel,
};
use crate::text::same;
use crate::wake::outcome_model;

verus! {

/// What happened to the main window.
#[derive(Clone, Copy, Debug, PartialEq, Eq, Structural)]
pub enum WindowChange {
    /// The user wants to close it.
    CloseRequested,
    /// Its size has changed, perhaps because it was minimized.
    Resized { minimized: bool },
    /// Something else.
    Other,
}

/// What to do about a change of the main window.
#[derive(Clone, Copy, Debug, PartialEq, Eq, Structural)]
pub enum WindowAction {
    /// Let it be.
    Leave,
    /// Hide the window.
    Hide,
    /// Keep the window from being closed, and hide it.
    HideInsteadOfClosing,
}

/// What to do about a choice from the menu of the tray.
#[derive(Clone, Copy, Debug, PartialEq, Eq, Structural)]
pub enum TrayAction {
    /// Bring the main window to the front.
    ShowMainWindow,
    /// End the program.
    Quit,
    /// Nothing.
    Nothing,
}

impl StateModel {
    /// The state with a configuration that has been saved. A connector starts if the
    /// configuration says so.
    pub open spec fn saved(self, next: ConfigModel, timestamp: Seq<char>) -> StateModel {
        let told = StateModel { config: next, ..self }.logged(
            EventLevel::Success,
            "配置已保存"@,
            "新的运行配置已经写入本地。"@,
            timestamp,
        );
        if next.connects_by_itself() {
            told.connector_started()
        } else {
            told
        }
    }

    /// The state with a connector that the user asked for.
    pub open spec fn connecting(self, timestamp: Seq<char>) -> StateModel {
        self.logged(
            EventLevel::Info,
            "手动连接"@,
            "正在立即发起主控连接。"@,
            timestamp,
        ).connector_started()
    }

    /// The state with a connector that the user asked to begin anew.
    pub open spec fn reconnecting(self, timestamp: Seq<char>) -> StateModel {
        self.logged(
            EventLevel::Info,
            "请求重连"@,
            "正在刷新与主控端的连接。"@,
            timestamp,
        ).connector_started()
    }

    /// The state without the pending shutdown that the user cancelled.
    pub open spec fn shutdown_cancelled(self, timestamp: Seq<char>) -> StateModel {
        self.shutdown_cleared().logged(
            EventLevel::Info,
            "已取消关机"@,
            "用户取消了这次关机倒计时。"@,
            timestamp,
        )
    }

    /// The state after the user had the power command run at once.
    pub open spec fn shutdown_forced(self, timestamp: Seq<char>) -> StateModel {
        self.logged(
            EventLevel::Warning,
            "立即关机"@,
            "用户确认立即执行本机关机命令。"@,
            timestamp,
        )
    }

    /// The state with a configuration that differs in whether the agent starts with the system.
    pub open spec fn autostart_changed(self, next: ConfigModel, timestamp: Seq<char>) -> StateModel {
        StateModel { config: next, ..self }.logged(
            EventLevel::Info,
            "开机自启已更新"@,
            if next.launch_at_startup {
                "程序将随 Windows 一起启动。"@
            } else {
                "已关闭开机自启。"@
            },
            timestamp,
        )
    }

    /// The state once the program is up.
    pub open spec fn ready(self, timestamp: Seq<char>) -> StateModel {
        self.logged(
            EventLevel::Info,
            "程序已就绪"@,
            "桌面服务和本地运行环境已经初始化完成。"@,
            timestamp,
        )
    }

    /// The state with a connector, if the configuration says that the agent connects by itself.
    pub open spec fn connecting_if_set(self) -> StateModel {
        if self.config.connects_by_itself() {
            self.connector_started()
        } else {
            self
        }
    }

    /// The state after a change of the main window.
    pub open spec fn window_changed(self, change: WindowChange, timestamp: Seq<char>) -> StateModel {
        if change == WindowChange::CloseRequested && self.config.minimize_to_tray {
            self.logged(
                EventLevel::Info,
                "窗口已隐藏到托盘"@,
                "程序仍会继续在后台运行。"@,
                timestamp,
            )
        } else {
            self
        }
    }

    /// What to do about a change of the main window: with the tray in use, closing and minimizing
    /// hide it.
    pub open spec fn window_action(self, change: WindowChange) -> WindowAction {
        match change {
            WindowChange::CloseRequested if self.config.minimize_to_tray => {
                WindowAction::HideInsteadOfClosing
            },
            WindowChange::Resized { minimized } if minimized && self.config.minimize_to_tray => {
                WindowAction::Hide
            },
            _ => WindowAction::Leave,
        }
    }
}

/// Takes over a configuration that the user saved: `next` is what [`AppConfig::prepare_save`] made
/// of it, and `persisted` says whether it could be written to the disk. If not, that is the error
/// and nothing has changed.
pub fn save_config(
    state: &mut SharedState,
    next: AppConfig,
    persisted: Result<(), String>,
    timestamp: &str,
) -> (r: Result<(), String>)
    ensures
        outcome_model(r) == outcome_model(persisted),
        final(state)@ == (match persisted {
            Ok(_) => old(state)@.saved(next@, timestamp@),
            Err(_) => old(state)@,
        }),
{
    let connects = next.connects_by_itself();
    match state.set_config(next, persisted) {
        Err(error) => Err(error),
        Ok(_) => {
            state.push_event_at(
                EventLevel::Success,
                "配置已保存",
                "新的运行配置已经写入本地。",
                timestamp,
            );
            if connects {
                state.start_connector();
            }
            Ok(())
        },
    }
}

/// Connects at once, provided that there is a controller to connect to.
pub fn connect_now(state: &mut SharedState, timestamp: &str) -> (r: Result<(), String>)
    ensures
        outcome_model(r) == (if old(state)@.config.can_connect() {
            Ok::<(), Seq<char>>(())
        } else {
            Err("请先填写主控地址和 Token。"@)
        }),
        final(state)@ == (if old(state)@.config.can_connect() {
            old(state)@.connecting(timestamp@)
        } else {
            old(state)@
        }),
{
    if !state.config_snapshot().can_connect() {
        return Err("请先填写主控地址和 Token。".to_owned());
    }
    state.push_event_at(
        EventLevel::Info,
        "手动连接",
        "正在立即发起主控连接。",
        timestamp,
    );
    state.start_connector();
    Ok(())
}

/// Begins the connection anew.
pub fn reconnect_now(state: &mut SharedState, timestamp: &str)
    ensures
        final(state)@ == old(state)@.reconnecting(timestamp@),
{
    state.push_event_at(
        EventLevel::Info,
        "请求重连",
        "正在刷新与主控端的连接。",
        timestamp,
    );
    state.start_connector();
}

/// Ends the connection.
pub fn disconnect_now(state: &mut SharedState, timestamp: &str)
    ensures
        final(state)@ == old(state)@.stopped("Stopped by user"@, timestamp@),
{
    state.stop_connector("Stopped by user", timestamp);
}

/// Calls off the pending shutdown.
pub fn cancel_pending_shutdown(state: &mut SharedState, timestamp: &str)
    ensures
        final(state)@ == old(state)@.shutdown_cancelled(timestamp@),
{
    state.clear_shutdown_prompt();
    state.push_event_at(
        EventLevel::Info,
        "已取消关机",
        "用户取消了这次关机倒计时。",
        timestamp,
    );
}

/// The user did not wait for the countdown, and the command that
/// [`SharedState::take_shutdown_command`] handed out has been run, or not. If not, that is the
/// error and nothing has changed.
pub fn execute_pending_shutdown_now(
    state: &mut SharedState,
    outcome: Result<(), String>,
    timestamp: &str,
) -> (r: Result<(), String>)
    ensures
        outcome_model(r) == outcome_model(outcome),
        final(state)@ == (match outcome {
            Ok(_) => old(state)@.shutdown_forced(timestamp@),
            Err(_) => old(state)@,
        }),
{
    match outcome {
        Err(error) => Err(error),
        Ok(_) => {
            state.push_event_at(
                EventLevel::Warning,
                "立即关机",
                "用户确认立即执行本机关机命令。",
                timestamp,
            );
            Ok(())
        },
    }
}

/// The configuration to write once the system says whether it starts the agent.
pub fn prepare_launch_at_startup(state: &SharedState, current: bool) -> (next: AppConfig)
    ensures
        next@ == (ConfigModel { launch_at_startup: current, ..state@.config }),
{
    let mut next = state.config_snapshot();
    next.launch_at_startup = current;
    next
}

/// Takes over what [`prepare_launch_at_startup`] made, once it has been written to the disk, and
/// says whether the system starts the agent. If it could not be written, that is the error and
/// nothing has changed.
pub fn set_launch_at_startup(
    state: &mut SharedState,
    next: AppConfig,
    persisted: Result<(), String>,
    timestamp: &str,
) -> (r: Result<bool, String>)
    ensures
        match persisted {
            Ok(_) => {
                &&& r == Ok::<bool, String>(next@.launch_at_startup)
                &&& final(state)@ == old(state)@.autostart_changed(next@, timestamp@)
            },
            Err(error) => {
                &&& r is Err
                &&& r->Err_0@ == error@
                &&& final(state)@ == old(state)@
            },
        },
{
    let current = next.launch_at_startup;
    match state.set_config(next, persisted) {
        Err(error) => Err(error),
        Ok(_) => {
            state.push_event_at(
                EventLevel::Info,
                "开机自启已更新",
                if current {
                    "程序将随 Windows 一起启动。"
                } else {
                    "已关闭开机自启。"
                },
                timestamp,
            );
            Ok(current)
        },
    }
}

/// The program is up: tells the log, and says whether the system is to start the agent from now
/// on.
pub fn start_up(state: &mut SharedState, timestamp: &str) -> (enable_autostart: bool)
    ensures
        enable_autostart == old(state)@.config.launch_at_startup,
        final(state)@ == old(state)@.ready(timestamp@),
{
    let config = state.config_snapshot();
    state.push_event_at(
        EventLevel::Info,
        "程序已就绪",
        "桌面服务和本地运行环境已经初始化完成。",
        timestamp,
    );
    config.launch_at_startup
}

/// Connects if the configuration says that the agent connects by itself.
pub fn connect_if_set(state: &mut SharedState)
    ensures
        final(state)@ == old(state)@.connecting_if_set(),
{
    if state.config_snapshot().connects_by_itself() {
        state.start_connector();
    }
}

/// The main window has changed.
pub fn handle_window_event(state: &mut SharedState, change: WindowChange, timestamp: &str) -> (r:
    WindowAction)
    ensures
        r == old(state)@.window_action(change),
        final(state)@ == old(state)@.window_changed(change, timestamp@),
{
    let to_tray = state.config_snapshot().minimize_to_tray;
    match change {
        WindowChange::CloseRequested => {
            if !to_tray {
                return WindowAction::Leave;
            }
            state.push_event_at(
                EventLevel::Info,
                "窗口已隐藏到托盘",
                "程序仍会继续在后台运行。",
                timestamp,
            );
            WindowAction::HideInsteadOfClosing
        },
        WindowChange::Resized { minimized } => {
            if to_tray && minimized {
                WindowAction::Hide
            } else {
                WindowAction::Leave
            }
        },
        WindowChange::Other => WindowAction::Leave,
    }
}

/// What an entry of the tray's menu stands for.
pub open spec fn tray_action(id: Seq<char>) -> TrayAction {
    if id == "show"@ {
        TrayAction::ShowMainWindow
    } else if id == "quit"@ {
        TrayAction::Quit
    } else {
        TrayAction::Nothing
    }
}

/// The user has chosen an entry of the tray's menu.
pub fn handle_menu_event(id: &str) -> (r: TrayAction)
    ensures
        r == tray_action(id@),
{
    if same(id, "show") {
        TrayAction::ShowMainWindow
    } else if same(id, "quit") {
        TrayAction::Quit
    } else {
        TrayAction::Nothing
    }
}

/// Every command keeps what always holds of the state.
pub proof fn law_commands_keep_the_state_well_formed(
    state: StateModel,
    next: ConfigModel,
    change: WindowChange,
    timestamp: Seq<char>,
)
    requires
        state.well_formed(),
    ensures
        state.saved(next, timestamp).well_formed(),
        state.connecting(timestamp).well_formed(),
        state.reconnecting(timestamp).well_formed(),
        state.stopped("Stopped by user"@, timestamp).well_formed(),
        state.shutdown_cancelled(timestamp).well_formed(),
        state.shutdown_forced(timestamp).well_formed(),
        state.autostart_changed(next, timestamp).well_formed(),
        state.ready(timestamp).well_formed(),
        state.connecting_if_set().well_formed(),
        state.window_changed(change, timestamp).well_formed(),
{
    reveal(StateModel::reported);
    reveal(StateModel::logged);
}

/// Once the user has disconnected, no connector runs, no shutdown is pending and nothing counts as
/// connected; the configuration stays.
pub proof fn law_disconnecting_ends_everything(state: StateModel, timestamp: Seq<char>)
    ensures
        ({
            let after = state.stopped("Stopped by user"@, timestamp);
            &&& !after.connector_task
            &&& !after.shutdown_task
            &&& after.pending_shutdown is None
            &&& after.connection.phase == ConnectionPhase::Disconnected
            &&& !after.connection.connected
            &&& after.connection.attempts == state.connection.attempts
            &&& after.config == state.config
        }),
{
    reveal(StateModel::reported);
    reveal(StateModel::logged);
}

/// The agent connects by itself in the same cases when it comes up and when a configuration is
/// saved: exactly where it is set to, and there is a controller and a token.
pub proof fn law_the_agent_connects_where_it_is_set_to(
    state: StateModel,
    next: ConfigModel,
    timestamp: Seq<char>,
)
    requires
        !state.connector_task,
    ensures
        state.saved(next, timestamp).connector_task == next.connects_by_itself(),
        state.ready(timestamp).connecting_if_set().connector_task
            == state.config.connects_by_itself(),
{
    reveal(StateModel::logged);
}

/// Whether a command changed nothing in the shared state but the configuration, which it left as
/// given, the log, in front of which it put one entry, and what asks for connectors: it started
/// one, in place of any other, or left them alone.
pub open spec fn carried_out(
    before: StateModel,
    after: StateModel,
    config: ConfigModel,
    entry: EventModel,
    starts: bool,
) -> bool {
    &&& after.config == config
    &&& after.events == newest(seq![entry] + before.events)
    &&& after.connection == (SnapshotModel {
        last_event_at: Some(entry.timestamp),
        ..before.connection
    })
    &&& after.pending_shutdown == before.pending_shutdown
    &&& after.shutdown_task == before.shutdown_task
    &&& after.connector_task == (starts || before.connector_task)
    &&& after.effects =~= before.effects + seq![
        EffectModel::ConnectionUpdated(after.connection),
        EffectModel::ActivityLogged(entry),
    ] + (if starts && before.connector_task {
        seq![EffectModel::AbortConnector, EffectModel::StartConnector]
    } else if starts {
        seq![EffectModel::StartConnector]
    } else {
        Seq::empty()
    })
}

/// Saving makes the saved configuration the agent's own and logs it, and starts a connector exactly
/// where the saved configuration is set to connect and has an address and a token.
pub proof fn law_saving_takes_over_the_configuration(
    state: StateModel,
    next: ConfigModel,
    timestamp: Seq<char>,
)
    ensures
        carried_out(
            state,
            state.saved(next, timestamp),
            next,
            EventModel {
                level: EventLevel::Success,
                title: "配置已保存"@,
                detail: "新的运行配置已经写入本地。"@,
                timestamp,
            },
            next.auto_connect && next.host.len() > 0 && next.token.len() > 0,
        ),
{
    reveal(StateModel::logged);
}

/// What the user switched off stays off: once a configuration that does not connect by itself is
/// saved, in whatever shape it was asked for, no connector starts.
pub proof fn law_saving_does_not_connect_against_the_users_will(
    state: StateModel,
    asked: ConfigModel,
    fresh_key: Seq<char>,
    now: i64,
    platform: Platform,
    timestamp: Seq<char>,
)
    requires
        !asked.auto_connect,
    ensures
        ({
            let after = state.saved(asked.sanitized(fresh_key, now, platform), timestamp);
            &&& !after.config.auto_connect
            &&& after.connector_task == state.connector_task
            &&& after.ready(timestamp).connecting_if_set().connector_task == state.connector_task
        }),
{
    law_saving_takes_over_the_configuration(
        state,
        asked.sanitized(fresh_key, now, platform),
        timestamp,
    );
    reveal(StateModel::logged);
}

/// Connecting by hand and reconnecting log it and start a connector in place of any other; the
/// configuration stays.
pub proof fn law_connecting_by_hand_starts_a_connector(state: StateModel, timestamp: Seq<char>)
    ensures
        carried_out(
            state,
            state.connecting(timestamp),
            state.config,
            EventModel {
                level: EventLevel::Info,
                title: "手动连接"@,
                detail: "正在立即发起主控连接。"@,
                timestamp,
            },
            true,
        ),
        carried_out(
            state,
            state.reconnecting(timestamp),
            state.config,
            EventModel {
                level: EventLevel::Info,
                title: "请求重连"@,
                detail: "正在刷新与主控端的连接。"@,
                timestamp,
            },
            true,
        ),
{
    reveal(StateModel::logged);
}

/// Coming up logs it and changes nothing else; then a connector starts exactly where the
/// configuration is set to connect and has an address and a token.
pub proof fn law_coming_up_connects_where_set(state: StateModel, timestamp: Seq<char>)
    ensures
        carried_out(
            state,
            state.ready(timestamp),
            state.config,
            EventModel {
                level: EventLevel::Info,
                title: "程序已就绪"@,
                detail: "桌面服务和本地运行环境已经初始化完成。"@,
                timestamp,
            },
            false,
        ),
        carried_out(
            state,
            state.ready(timestamp).connecting_if_set(),
            state.config,
            EventModel {
                level: EventLevel::Info,
                title: "程序已就绪"@,
                detail: "桌面服务和本地运行环境已经初始化完成。"@,
                timestamp,
            },
            state.config.auto_connect && state.config.host.len() > 0 && state.config.token.len()
                > 0,
        ),
        state.config.auto_connect && state.config.host.len() > 0 && state.config.token.len() > 0
            || state.connecting_if_set() == state,
{
    reveal(StateModel::logged);
}

/// Cancelling calls the pending shutdown off and logs it; running the command at once, and a change
/// of whether the agent starts with the system, are logged. Nothing else changes.
pub proof fn law_small_commands_are_logged(
    state: StateModel,
    next: ConfigModel,
    timestamp: Seq<char>,
)
    ensures
        carried_out(
            state.shutdown_cleared(),
            state.shutdown_cancelled(timestamp),
            state.config,
            EventModel {
                level: EventLevel::Info,
                title: "已取消关机"@,
                detail: "用户取消了这次关机倒计时。"@,
                timestamp,
            },
            false,
        ),
        state.shutdown_cancelled(timestamp).pending_shutdown is None,
        !state.shutdown_cancelled(timestamp).shutdown_task,
        state.shutdown_cancelled(timestamp).connector_task == state.connector_task,
        state.shutdown_cancelled(timestamp).events == newest(
            seq![
                EventModel {
                    level: EventLevel::Info,
                    title: "已取消关机"@,
                    detail: "用户取消了这次关机倒计时。"@,
                    timestamp,
                },
            ] + state.events,
        ),
        carried_out(
            state,
            state.shutdown_forced(timestamp),
            state.config,
            EventModel {
                level: EventLevel::Warning,
                title: "立即关机"@,
                detail: "用户确认立即执行本机关机命令。"@,
                timestamp,
            },
            false,
        ),
        carried_out(
            state,
            state.autostart_changed(next, timestamp),
            next,
            EventModel {
                level: EventLevel::Info,
                title: "开机自启已更新"@,
                detail: if next.launch_at_startup {
                    "程序将随 Windows 一起启动。"@
                } else {
                    "已关闭开机自启。"@
                },
                timestamp,
            },
            false,
        ),
{
    reveal(StateModel::logged);
}

/// With the tray in use closing hides the window instead, and is logged, and minimizing hides it;
/// without, and on any other change, the window is left alone and nothing changes.
pub proof fn law_the_window_hides_only_in_the_tray(
    state: StateModel,
    change: WindowChange,
    timestamp: Seq<char>,
)
    ensures
        state.window_action(change) == WindowAction::HideInsteadOfClosing <==> change
            == WindowChange::CloseRequested && state.config.minimize_to_tray,
        state.window_action(change) == WindowAction::Hide <==> change == (WindowChange::Resized {
            minimized: true,
        }) && state.config.minimize_to_tray,
        state.window_action(change) != WindowAction::HideInsteadOfClosing ==> state.window_changed(
            change,
            timestamp,
        ) == state,
        state.window_action(change) == WindowAction::HideInsteadOfClosing ==> carried_out(
            state,
            state.window_changed(change, timestamp),
            state.config,
            EventModel {
                level: EventLevel::Info,
                title: "窗口已隐藏到托盘"@,
                detail: "程序仍会继续在后台运行。"@,
                timestamp,
            },
            false,
        ),
{
    reveal(StateModel::logged);
}

/// The two entries of the tray's menu do different things, and nothing else does anything.
pub proof fn law_the_menu_has_two_entries(id: Seq<char>)
    ensures
        tray_action(id) == TrayAction::ShowMainWindow <==> id == "show"@,
        tray_action(id) == TrayAction::Quit <==> id == "quit"@,
{
    reveal_strlit("show");
    reveal_strlit("quit");
    assert("show"@[0] != "quit"@[0]);
}

/// The user interface keeps up with every command.
pub proof fn law_the_user_interface_keeps_up_with_commands(
    state: StateModel,
    start: Shown,
    next: ConfigModel,
    change: WindowChange,
    timestamp: Seq<char>,
)
    requires
        state.is_shown_since(start),
    ensures
        state.saved(next, timestamp).is_shown_since(start),
        state.connecting(timestamp).is_shown_since(start),
        state.reconnecting(timestamp).is_shown_since(start),
        state.stopped("Stopped by user"@, timestamp).is_shown_since(start),
        state.shutdown_cancelled(timestamp).is_shown_since(start),
        state.shutdown_forced(timestamp).is_shown_since(start),
        state.autostart_changed(next, timestamp).is_shown_since(start),
        state.ready(timestamp).is_shown_since(start),
        state.connecting_if_set().is_shown_since(start),
        state.window_changed(change, timestamp).is_shown_since(start),
{
    lemma_operations_are_shown();
}

} // verus!
