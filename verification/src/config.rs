//! The agent's configuration: its defaults, how a saved or stored one is brought into shape, what
//! the controller may change in it, and where it lives.

use std::path::PathBuf;

use uuid::Uuid;
use vstd::prelude::*;
use vstd::string::*;

use crate::clock::{seconds_at, unix_now};
use crate::power::{
    default_poweroff_cmd, law_command_depends_on_the_normal_form,
    law_normalizing_an_action_settles_it, lemma_action_names, normalize_execution_action,
    normalized_action, power_command, power_command_for_action, shutdown_command, Platform,
};
use crate::text::{
    blank, is_blank, is_white_space, join, law_blank_texts_are_white_space,
    law_trimming_settles, law_trimming_takes_off_white_space_alone, trim, trimmed,
};
use crate::wake::{default_mac_address, is_own_mac};

verus! {

/// The folder of the configuration, under the user's configuration directory.
pub const CONFIG_FOLDER: &'static str = "LuckyWOLAgent";

/// The file of the configuration, in its folder.
pub const CONFIG_FILE: &'static str = "agent-config.json";

/// The key that the controller encrypts with.
pub const MESSAGE_KEY: &'static str = "lucky666";

/// What the user, or the controller, has set.
pub struct AppConfig {
    pub host: String,
    pub token: String,
    pub message_key: String,
    pub skip_cert_verification: bool,
    pub execution_action: String,
    pub device_key: String,
    pub device_name: String,
    pub mac: String,
    pub broadcast_ip: String,
    pub relay: bool,
    pub wol_port: u16,
    pub wol_repeat: u8,
    pub power_off_cmd: String,
    pub auto_connect: bool,
    pub minimize_to_tray: bool,
    pub launch_at_startup: bool,
    pub update_time: i64,
}

/// The model of [`AppConfig`].
#[verifier::ext_equal]
pub struct ConfigModel {
    pub host: Seq<char>,
    pub token: Seq<char>,
    pub message_key: Seq<char>,
    pub skip_cert_verification: bool,
    pub execution_action: Seq<char>,
    pub device_key: Seq<char>,
    pub device_name: Seq<char>,
    pub mac: Seq<char>,
    pub broadcast_ip: Seq<char>,
    pub relay: bool,
    pub wol_port: u16,
    pub wol_repeat: u8,
    pub power_off_cmd: Seq<char>,
    pub auto_connect: bool,
    pub minimize_to_tray: bool,
    pub launch_at_startup: bool,
    pub update_time: i64,
}

impl View for AppConfig {
    type V = ConfigModel;

    open spec fn view(&self) -> ConfigModel {
        ConfigModel {
            host: self.host@,
            token: self.token@,
            message_key: self.message_key@,
            skip_cert_verification: self.skip_cert_verification,
            execution_action: self.execution_action@,
            device_key: self.device_key@,
            device_name: self.device_name@,
            mac: self.mac@,
            broadcast_ip: self.broadcast_ip@,
            relay: self.relay,
            wol_port: self.wol_port,
            wol_repeat: self.wol_repeat,
            power_off_cmd: self.power_off_cmd@,
            auto_connect: self.auto_connect,
            minimize_to_tray: self.minimize_to_tray,
            launch_at_startup: self.launch_at_startup,
            update_time: self.update_time,
        }
    }
}

impl Clone for AppConfig {
    fn clone(&self) -> (r: AppConfig)
        ensures
            r@ == self@,
    {
        AppConfig {
            host: self.host.clone(),
            token: self.token.clone(),
            message_key: self.message_key.clone(),
            skip_cert_verification: self.skip_cert_verification,
            execution_action: self.execution_action.clone(),
            device_key: self.device_key.clone(),
            device_name: self.device_name.clone(),
            mac: self.mac.clone(),
            broadcast_ip: self.broadcast_ip.clone(),
            relay: self.relay,
            wol_port: self.wol_port,
            wol_repeat: self.wol_repeat,
            power_off_cmd: self.power_off_cmd.clone(),
            auto_connect: self.auto_connect,
            minimize_to_tray: self.minimize_to_tray,
            launch_at_startup: self.launch_at_startup,
            update_time: self.update_time,
        }
    }
}

/// The settings that the controller sends.
pub struct SyncClientConfigure {
    pub enable: bool,
    pub server_url: String,
    pub insecure_skip_verify: bool,
    pub token: String,
    pub relay: bool,
    pub key: String,
    pub device_name: String,
    pub mac: String,
    pub broadcast_ip: String,
    pub port: u16,
    pub repeat: u8,
    pub power_off_cmd: String,
    pub update_time: i64,
}

/// The model of [`SyncClientConfigure`].
#[verifier::ext_equal]
pub struct SyncModel {
    pub enable: bool,
    pub server_url: Seq<char>,
    pub insecure_skip_verify: bool,
    pub token: Seq<char>,
    pub relay: bool,
    pub key: Seq<char>,
    pub device_name: Seq<char>,
    pub mac: Seq<char>,
    pub broadcast_ip: Seq<char>,
    pub port: u16,
    pub repeat: u8,
    pub power_off_cmd: Seq<char>,
    pub update_time: i64,
}

impl View for SyncClientConfigure {
    type V = SyncModel;

    open spec fn view(&self) -> SyncModel {
        SyncModel {
            enable: self.enable,
            server_url: self.server_url@,
            insecure_skip_verify: self.insecure_skip_verify,
            token: self.token@,
            relay: self.relay,
            key: self.key@,
            device_name: self.device_name@,
            mac: self.mac@,
            broadcast_ip: self.broadcast_ip@,
            port: self.port,
            repeat: self.repeat,
            power_off_cmd: self.power_off_cmd@,
            update_time: self.update_time,
        }
    }
}

impl Clone for SyncClientConfigure {
    fn clone(&self) -> (r: SyncClientConfigure)
        ensures
            r@ == self@,
    {
        SyncClientConfigure {
            enable: self.enable,
            server_url: self.server_url.clone(),
            insecure_skip_verify: self.insecure_skip_verify,
            token: self.token.clone(),
            relay: self.relay,
            key: self.key.clone(),
            device_name: self.device_name.clone(),
            mac: self.mac.clone(),
            broadcast_ip: self.broadcast_ip.clone(),
            port: self.port,
            repeat: self.repeat,
            power_off_cmd: self.power_off_cmd.clone(),
            update_time: self.update_time,
        }
    }
}

/// `std::path::PathBuf`, a path of the file system.
#[verifier::external_type_specification]
#[verifier::external_body]
pub struct ExPathBuf(PathBuf);

/// The path of `name` in the directory `base`.
pub uninterp spec fn joined_path(base: PathBuf, name: Seq<char>) -> PathBuf;

/// `std::path::Path::join`: the path of `name` in the directory `base`, a function of the two.
#[verifier::external_body]
fn join_path(base: &PathBuf, name: &str) -> (path: PathBuf)
    ensures
        path == joined_path(*base, name@),
{
    base.join(name)
}

/// `dirs::config_dir`: the user's configuration directory.
///
/// The environment decides, and nothing is claimed of the answer.
#[verifier::external_body]
fn user_config_dir() -> (base: Option<PathBuf>) {
    dirs::config_dir()
}

/// `hostname::get`: the name of the machine, where it is text.
///
/// The machine decides, and nothing is claimed of the answer.
#[verifier::external_body]
fn read_hostname() -> (name: Option<String>) {
    hostname::get().ok().and_then(|name| name.into_string().ok())
}

/// Whether `c` is a lower-case hexadecimal digit.
pub open spec fn is_lower_hex(c: char) -> bool {
    '0' <= c <= '9' || 'a' <= c <= 'f'
}

/// Whether `text` is a unique identifier in its plain form: 32 lower-case hexadecimal digits.
pub open spec fn is_plain_uuid(text: Seq<char>) -> bool {
    text.len() == 32 && forall|i: int| 0 <= i < 32 ==> is_lower_hex(#[trigger] text[i])
}

/// `uuid::Uuid::new_v4` in its simple form, 32 lower-case hexadecimal digits.
///
/// Chance decides which. A system without a source of randomness makes it panic, which no
/// argument can rule out.
#[verifier::external_body]
fn random_uuid() -> (text: String)
    ensures
        is_plain_uuid(text@),
{
    Uuid::new_v4().simple().to_string()
}

/// Whether `text` is a device key of the agent's own making.
pub open spec fn is_fresh_key(text: Seq<char>) -> bool {
    exists|id: Seq<char>| is_plain_uuid(id) && text == #[trigger] ("Client_"@ + id)
}

/// A device key of the agent's own making.
pub fn fresh_device_key() -> (r: String)
    ensures
        is_fresh_key(r@),
{
    let id = random_uuid();
    join("Client_", id.as_str())
}

/// The directory of the configuration under the user's configuration directory.
pub fn config_dir_under(base: Option<PathBuf>) -> (r: Result<PathBuf, String>)
    ensures
        match base {
            Some(base) => r == Ok::<PathBuf, String>(joined_path(base, CONFIG_FOLDER@)),
            None => r is Err && r->Err_0@ == "无法定位本地配置目录。"@,
        },
{
    match base {
        Some(base) => Ok(join_path(&base, CONFIG_FOLDER)),
        None => Err("无法定位本地配置目录。".to_owned()),
    }
}

/// The file of the configuration under the user's configuration directory.
pub fn config_path_under(base: Option<PathBuf>) -> (r: Result<PathBuf, String>)
    ensures
        match base {
            Some(base) => r == Ok::<PathBuf, String>(
                joined_path(joined_path(base, CONFIG_FOLDER@), CONFIG_FILE@),
            ),
            None => r is Err && r->Err_0@ == "无法定位本地配置目录。"@,
        },
{
    match config_dir_under(base) {
        Ok(directory) => Ok(join_path(&directory, CONFIG_FILE)),
        Err(error) => Err(error),
    }
}

/// The directory of the configuration.
pub fn config_dir() -> (r: Result<PathBuf, String>)
    ensures
        match r {
            Ok(directory) => exists|base: PathBuf|
                directory == #[trigger] joined_path(base, CONFIG_FOLDER@),
            Err(error) => error@ == "无法定位本地配置目录。"@,
        },
{
    config_dir_under(user_config_dir())
}

/// The file of the configuration.
pub fn config_path() -> (r: Result<PathBuf, String>)
    ensures
        match r {
            Ok(path) => exists|base: PathBuf|
                path == joined_path(#[trigger] joined_path(base, CONFIG_FOLDER@), CONFIG_FILE@),
            Err(error) => error@ == "无法定位本地配置目录。"@,
        },
{
    config_path_under(user_config_dir())
}

/// The name for a device: that of the machine, unless it is blank or there is none.
pub open spec fn device_name_for(hostname: Option<Seq<char>>) -> Seq<char> {
    match hostname {
        Some(name) => if is_blank(name) {
            "Lucky被控端设备"@
        } else {
            name
        },
        None => "Lucky被控端设备"@,
    }
}

/// A text that may be missing, taken by its view.
pub open spec fn text_option(text: Option<String>) -> Option<Seq<char>> {
    match text {
        Some(text) => Some(text@),
        None => None,
    }
}

/// The name for a device whose machine has the given name.
pub fn choose_device_name(hostname: Option<String>) -> (r: String)
    ensures
        r@ == device_name_for(text_option(hostname)),
{
    match hostname {
        Some(name) => if blank(name.as_str()) {
            "Lucky被控端设备".to_owned()
        } else {
            name
        },
        None => "Lucky被控端设备".to_owned(),
    }
}

/// The name for this device.
pub fn default_device_name() -> (r: String)
    ensures
        exists|hostname: Option<Seq<char>>| r@ == #[trigger] device_name_for(hostname),
        !is_blank(r@),
{
    let hostname = read_hostname();
    let ghost model = text_option(hostname);
    let name = choose_device_name(hostname);
    proof {
        assert(name@ == device_name_for(model));
        reveal_strlit("Lucky被控端设备");
    }
    name
}

impl ConfigModel {
    /// Whether this is what a fresh configuration may be on a platform.
    pub open spec fn is_default(self, platform: Platform) -> bool {
        &&& self.host == Seq::<char>::empty()
        &&& self.token == Seq::<char>::empty()
        &&& self.message_key == MESSAGE_KEY@
        &&& !self.skip_cert_verification
        &&& self.execution_action == "shutdown"@
        &&& is_fresh_key(self.device_key)
        &&& exists|hostname: Option<Seq<char>>|
            self.device_name == #[trigger] device_name_for(hostname)
        &&& is_own_mac(self.mac)
        &&& self.broadcast_ip == Seq::<char>::empty()
        &&& self.relay
        &&& self.wol_port == 9
        &&& self.wol_repeat == 5
        &&& self.power_off_cmd == shutdown_command(platform)
        &&& self.auto_connect
        &&& self.minimize_to_tray
        &&& !self.launch_at_startup
        &&& exists|reading: std::time::SystemTime|
            self.update_time == #[trigger] seconds_at(reading)
    }

    /// The configuration that is saved when the user asks for this one: texts trimmed, the fixed
    /// settings in place, and the power command that of the action.
    pub open spec fn sanitized(self, fresh_key: Seq<char>, now: i64, platform: Platform) -> Self {
        ConfigModel {
            host: trimmed(self.host),
            token: trimmed(self.token),
            message_key: MESSAGE_KEY@,
            execution_action: normalized_action(self.execution_action),
            device_key: if is_blank(self.device_key) {
                fresh_key
            } else {
                trimmed(self.device_key)
            },
            device_name: trimmed(self.device_name),
            mac: trimmed(self.mac),
            broadcast_ip: trimmed(self.broadcast_ip),
            wol_port: 9,
            wol_repeat: 5,
            power_off_cmd: power_command(normalized_action(self.execution_action), platform),
            update_time: now,
            ..self
        }
    }

    /// The configuration that comes of a stored one.
    pub open spec fn restored(self, platform: Platform) -> Self {
        ConfigModel {
            message_key: MESSAGE_KEY@,
            execution_action: normalized_action(self.execution_action),
            power_off_cmd: power_command(normalized_action(self.execution_action), platform),
            ..self
        }
    }

    /// The configuration after the controller has sent its settings: a blank text keeps what
    /// there was.
    #[verifier::opaque]
    pub open spec fn synced(self, sync: SyncModel) -> Self {
        ConfigModel {
            auto_connect: sync.enable,
            host: unless_blank(sync.server_url, self.host),
            skip_cert_verification: sync.insecure_skip_verify,
            token: unless_blank(sync.token, self.token),
            relay: sync.relay,
            device_key: unless_blank(sync.key, self.device_key),
            device_name: unless_blank(sync.device_name, self.device_name),
            mac: unless_blank(sync.mac, self.mac),
            broadcast_ip: unless_blank(sync.broadcast_ip, self.broadcast_ip),
            wol_port: sync.port,
            wol_repeat: sync.repeat,
            power_off_cmd: unless_blank(sync.power_off_cmd, self.power_off_cmd),
            update_time: sync.update_time,
            ..self
        }
    }

    /// Whether there is a controller to connect to.
    pub open spec fn can_connect(self) -> bool {
        self.host.len() > 0 && self.token.len() > 0
    }

    /// Whether the agent connects without being asked.
    pub open spec fn connects_by_itself(self) -> bool {
        self.auto_connect && self.can_connect()
    }
}

/// A new text, unless it is blank.
pub open spec fn unless_blank(new: Seq<char>, current: Seq<char>) -> Seq<char> {
    if is_blank(new) {
        current
    } else {
        new
    }
}

/// A new text, unless it is blank.
fn replace_unless_blank(new: String, current: String) -> (r: String)
    ensures
        r@ == unless_blank(new@, current@),
{
    if blank(new.as_str()) {
        current
    } else {
        new
    }
}

impl AppConfig {
    /// A fresh configuration for a platform.
    pub fn default_for(platform: Platform) -> (r: AppConfig)
        ensures
            r@.is_default(platform),
    {
        AppConfig {
            host: String::new(),
            token: String::new(),
            message_key: MESSAGE_KEY.to_owned(),
            skip_cert_verification: false,
            execution_action: "shutdown".to_owned(),
            device_key: fresh_device_key(),
            device_name: default_device_name(),
            mac: default_mac_address(),
            broadcast_ip: String::new(),
            relay: true,
            wol_port: 9,
            wol_repeat: 5,
            power_off_cmd: default_poweroff_cmd(platform),
            auto_connect: true,
            minimize_to_tray: true,
            launch_at_startup: false,
            update_time: unix_now(),
        }
    }

    /// The configuration that is saved when the user asks for this one, with the key to fall
    /// back on and the time of saving.
    pub fn sanitize(self, fresh_key: String, now: i64, platform: Platform) -> (r: AppConfig)
        ensures
            r@ == self@.sanitized(fresh_key@, now, platform),
    {
        let execution_action = normalize_execution_action(self.execution_action.as_str());
        let power_off_cmd = power_command_for_action(execution_action.as_str(), platform);
        let device_key = if blank(self.device_key.as_str()) {
            fresh_key
        } else {
            trim(self.device_key.as_str()).to_owned()
        };
        AppConfig {
            host: trim(self.host.as_str()).to_owned(),
            token: trim(self.token.as_str()).to_owned(),
            message_key: MESSAGE_KEY.to_owned(),
            skip_cert_verification: self.skip_cert_verification,
            execution_action,
            device_key,
            device_name: trim(self.device_name.as_str()).to_owned(),
            mac: trim(self.mac.as_str()).to_owned(),
            broadcast_ip: trim(self.broadcast_ip.as_str()).to_owned(),
            relay: self.relay,
            wol_port: 9,
            wol_repeat: 5,
            power_off_cmd,
            auto_connect: self.auto_connect,
            minimize_to_tray: self.minimize_to_tray,
            launch_at_startup: self.launch_at_startup,
            update_time: now,
        }
    }

    /// The configuration that is saved now when the user asks for this one.
    pub fn prepare_save(self, platform: Platform) -> (r: AppConfig)
        ensures
            exists|fresh_key: Seq<char>, reading: std::time::SystemTime|
                #[trigger] is_fresh_key(fresh_key) && r@ == self@.sanitized(
                    fresh_key,
                    #[trigger] seconds_at(reading) as i64,
                    platform,
                ),
    {
        let fresh_key = fresh_device_key();
        let ghost key = fresh_key@;
        let now: i64 = unix_now();
        let ghost asked = self@;
        let next = self.sanitize(fresh_key, now, platform);
        proof {
            let reading = choose|reading: std::time::SystemTime| now == #[trigger] seconds_at(reading);
            assert(next@ == asked.sanitized(key, seconds_at(reading) as i64, platform));
        }
        next
    }

    /// The configuration after the controller has sent its settings.
    pub fn apply_sync(self, sync: SyncClientConfigure) -> (r: AppConfig)
        ensures
            r@ == self@.synced(sync@),
    {
        proof {
            reveal(ConfigModel::synced);
        }
        AppConfig {
            host: replace_unless_blank(sync.server_url, self.host),
            token: replace_unless_blank(sync.token, self.token),
            message_key: self.message_key,
            skip_cert_verification: sync.insecure_skip_verify,
            execution_action: self.execution_action,
            device_key: replace_unless_blank(sync.key, self.device_key),
            device_name: replace_unless_blank(sync.device_name, self.device_name),
            mac: replace_unless_blank(sync.mac, self.mac),
            broadcast_ip: replace_unless_blank(sync.broadcast_ip, self.broadcast_ip),
            relay: sync.relay,
            wol_port: sync.port,
            wol_repeat: sync.repeat,
            power_off_cmd: replace_unless_blank(sync.power_off_cmd, self.power_off_cmd),
            auto_connect: sync.enable,
            minimize_to_tray: self.minimize_to_tray,
            launch_at_startup: self.launch_at_startup,
            update_time: sync.update_time,
        }
    }

    /// Whether there is a controller to connect to.
    pub fn can_connect(&self) -> (r: bool)
        ensures
            r == self@.can_connect(),
    {
        !self.host.as_str().is_empty() && !self.token.as_str().is_empty()
    }

    /// Whether the agent connects without being asked.
    pub fn connects_by_itself(&self) -> (r: bool)
        ensures
            r == self@.connects_by_itself(),
    {
        self.auto_connect && self.can_connect()
    }
}

/// The configuration to start with: the stored one brought into shape, or a fresh one where
/// none could be read.
pub fn load_config(stored: Option<AppConfig>, platform: Platform) -> (r: AppConfig)
    ensures
        match stored {
            Some(config) => r@ == config@.restored(platform),
            None => r@.is_default(platform),
        },
{
    let ghost kept = stored;
    let config = match stored {
        Some(config) => config,
        None => AppConfig::default_for(platform),
    };
    proof {
        if kept is None {
            law_a_fresh_configuration_is_settled(config@, platform);
        }
    }
    let execution_action = normalize_execution_action(config.execution_action.as_str());
    let power_off_cmd = power_command_for_action(execution_action.as_str(), platform);
    let restored = AppConfig {
        host: config.host,
        token: config.token,
        message_key: MESSAGE_KEY.to_owned(),
        skip_cert_verification: config.skip_cert_verification,
        execution_action,
        device_key: config.device_key,
        device_name: config.device_name,
        mac: config.mac,
        broadcast_ip: config.broadcast_ip,
        relay: config.relay,
        wol_port: config.wol_port,
        wol_repeat: config.wol_repeat,
        power_off_cmd,
        auto_connect: config.auto_connect,
        minimize_to_tray: config.minimize_to_tray,
        launch_at_startup: config.launch_at_startup,
        update_time: config.update_time,
    };
    assert(restored@ == config@.restored(platform));
    restored
}

/// Loading changes nothing in a fresh configuration.
pub proof fn law_a_fresh_configuration_is_settled(config: ConfigModel, platform: Platform)
    requires
        config.is_default(platform),
    ensures
        config.restored(platform) == config,
{
    lemma_action_names();
}

/// Loading what was saved gives back what was saved.
pub proof fn law_loading_gives_back_what_was_saved(
    config: ConfigModel,
    fresh_key: Seq<char>,
    now: i64,
    platform: Platform,
)
    ensures
        config.sanitized(fresh_key, now, platform).restored(platform) == config.sanitized(
            fresh_key,
            now,
            platform,
        ),
{
    law_normalizing_an_action_settles_it(config.execution_action);
}

/// Saving what was saved changes nothing but the time of saving, whatever key there is to fall
/// back on the second time.
pub proof fn law_saving_settles(
    config: ConfigModel,
    fresh_key: Seq<char>,
    now: i64,
    other_key: Seq<char>,
    later: i64,
    platform: Platform,
)
    requires
        is_fresh_key(fresh_key),
    ensures
        config.sanitized(fresh_key, now, platform).sanitized(other_key, later, platform)
            == (ConfigModel { update_time: later, ..config.sanitized(fresh_key, now, platform) }),
{
    law_normalizing_an_action_settles_it(config.execution_action);
    law_trimming_settles(config.host);
    law_trimming_settles(config.token);
    law_trimming_settles(config.device_key);
    law_trimming_settles(config.device_name);
    law_trimming_settles(config.mac);
    law_trimming_settles(config.broadcast_ip);
    let id = choose|id: Seq<char>| is_plain_uuid(id) && fresh_key == #[trigger] ("Client_"@ + id);
    reveal_strlit("Client_");
    assert(fresh_key[0] == 'C');
    assert(fresh_key.last() == id[31]);
    assert(is_lower_hex(id[31]));
    assert(trimmed(fresh_key) == fresh_key);
}

/// Settings that are blank throughout leave every text of the configuration as it was.
pub proof fn law_blank_settings_keep_the_texts(config: ConfigModel, sync: SyncModel)
    requires
        is_blank(sync.server_url),
        is_blank(sync.token),
        is_blank(sync.key),
        is_blank(sync.device_name),
        is_blank(sync.mac),
        is_blank(sync.broadcast_ip),
        is_blank(sync.power_off_cmd),
    ensures
        config.synced(sync) == (ConfigModel {
            auto_connect: sync.enable,
            skip_cert_verification: sync.insecure_skip_verify,
            relay: sync.relay,
            wol_port: sync.port,
            wol_repeat: sync.repeat,
            update_time: sync.update_time,
            ..config
        }),
{
    reveal(ConfigModel::synced);
}

/// The controller cannot lose the agent by its settings: a configuration that can connect still
/// can after any of them.
pub proof fn law_settings_keep_the_controller(config: ConfigModel, sync: SyncModel)
    requires
        config.can_connect(),
    ensures
        config.synced(sync).can_connect(),
{
    reveal(ConfigModel::synced);
    lemma_empty_is_blank(sync.server_url);
    lemma_empty_is_blank(sync.token);
}

/// The controller's settings never touch the agent's own: the key of the protocol, the power
/// action, and how the agent shows and starts itself.
pub proof fn law_settings_leave_the_agents_own(config: ConfigModel, sync: SyncModel)
    ensures
        config.synced(sync).message_key == config.message_key,
        config.synced(sync).execution_action == config.execution_action,
        config.synced(sync).minimize_to_tray == config.minimize_to_tray,
        config.synced(sync).launch_at_startup == config.launch_at_startup,
{
    reveal(ConfigModel::synced);
}

proof fn lemma_empty_is_blank(s: Seq<char>)
    ensures
        s.len() == 0 ==> is_blank(s),
{
}

/// Each setting of the controller arrives in the field of its own name, whatever the others are: a
/// switch, a number or the time as it was sent, and a text unless it is blank, in which case the
/// field stays.
pub proof fn law_settings_arrive_in_their_own_fields(config: ConfigModel, sync: SyncModel)
    ensures
        ({
            let next = config.synced(sync);
            &&& next.auto_connect == sync.enable
            &&& next.skip_cert_verification == sync.insecure_skip_verify
            &&& next.relay == sync.relay
            &&& next.wol_port == sync.port
            &&& next.wol_repeat == sync.repeat
            &&& next.update_time == sync.update_time
            &&& !is_blank(sync.server_url) ==> next.host == sync.server_url
            &&& !is_blank(sync.token) ==> next.token == sync.token
            &&& !is_blank(sync.key) ==> next.device_key == sync.key
            &&& !is_blank(sync.device_name) ==> next.device_name == sync.device_name
            &&& !is_blank(sync.mac) ==> next.mac == sync.mac
            &&& !is_blank(sync.broadcast_ip) ==> next.broadcast_ip == sync.broadcast_ip
            &&& !is_blank(sync.power_off_cmd) ==> next.power_off_cmd == sync.power_off_cmd
            &&& is_blank(sync.server_url) ==> next.host == config.host
            &&& is_blank(sync.token) ==> next.token == config.token
            &&& is_blank(sync.key) ==> next.device_key == config.device_key
            &&& is_blank(sync.device_name) ==> next.device_name == config.device_name
            &&& is_blank(sync.mac) ==> next.mac == config.mac
            &&& is_blank(sync.broadcast_ip) ==> next.broadcast_ip == config.broadcast_ip
            &&& is_blank(sync.power_off_cmd) ==> next.power_off_cmd == config.power_off_cmd
        }),
{
    reveal(ConfigModel::synced);
}

/// Sending the same settings again changes nothing.
pub proof fn law_the_same_settings_again_change_nothing(config: ConfigModel, sync: SyncModel)
    ensures
        config.synced(sync).synced(sync) == config.synced(sync),
{
    reveal(ConfigModel::synced);
}

/// Saving keeps every switch that the user set.
pub proof fn law_saving_keeps_the_switches(
    config: ConfigModel,
    fresh_key: Seq<char>,
    now: i64,
    platform: Platform,
)
    ensures
        ({
            let saved = config.sanitized(fresh_key, now, platform);
            &&& saved.auto_connect == config.auto_connect
            &&& saved.relay == config.relay
            &&& saved.skip_cert_verification == config.skip_cert_verification
            &&& saved.minimize_to_tray == config.minimize_to_tray
            &&& saved.launch_at_startup == config.launch_at_startup
        }),
{
}

/// Whether `kept` is what trimming leaves of `asked`: a part of it, between white space alone, that
/// neither begins nor ends in white space.
pub open spec fn is_trimmed_part(kept: Seq<char>, asked: Seq<char>) -> bool {
    exists|a: int, b: int|
        {
            &&& 0 <= a <= b <= asked.len()
            &&& kept == #[trigger] asked.subrange(a, b)
            &&& forall|i: int| 0 <= i < a ==> is_white_space(#[trigger] asked[i])
            &&& forall|i: int| b <= i < asked.len() ==> is_white_space(#[trigger] asked[i])
            &&& a < b ==> !is_white_space(asked[a]) && !is_white_space(asked[b - 1])
        }
}

/// Saving keeps every text that the user entered, but for the white space around it; a key that
/// holds nothing else gives way to a fresh one. The settings that are not the user's have their
/// fixed values, the time is that of saving, and the command belongs to the action.
pub proof fn law_saving_keeps_the_texts(
    config: ConfigModel,
    fresh_key: Seq<char>,
    now: i64,
    platform: Platform,
)
    ensures
        ({
            let saved = config.sanitized(fresh_key, now, platform);
            let blank_key = forall|i: int|
                0 <= i < config.device_key.len() ==> is_white_space(
                    #[trigger] config.device_key[i],
                );
            &&& is_trimmed_part(saved.host, config.host)
            &&& is_trimmed_part(saved.token, config.token)
            &&& is_trimmed_part(saved.device_name, config.device_name)
            &&& is_trimmed_part(saved.mac, config.mac)
            &&& is_trimmed_part(saved.broadcast_ip, config.broadcast_ip)
            &&& blank_key ==> saved.device_key == fresh_key
            &&& !blank_key ==> is_trimmed_part(saved.device_key, config.device_key)
            &&& saved.message_key == "lucky666"@
            &&& saved.wol_port == 9
            &&& saved.wol_repeat == 5
            &&& saved.update_time == now
            &&& saved.execution_action == normalized_action(config.execution_action)
            &&& saved.power_off_cmd == power_command(config.execution_action, platform)
        }),
{
    law_trimming_takes_off_white_space_alone(config.host);
    law_trimming_takes_off_white_space_alone(config.token);
    law_trimming_takes_off_white_space_alone(config.device_name);
    law_trimming_takes_off_white_space_alone(config.mac);
    law_trimming_takes_off_white_space_alone(config.broadcast_ip);
    law_trimming_takes_off_white_space_alone(config.device_key);
    law_blank_texts_are_white_space(config.device_key);
    law_command_depends_on_the_normal_form(config.execution_action, platform);
}

/// Loading keeps everything that was stored but the protocol key, which is fixed, and the power
/// command, which belongs to the stored action in its normal form.
pub proof fn law_loading_keeps_what_was_stored(config: ConfigModel, platform: Platform)
    ensures
        ({
            let loaded = config.restored(platform);
            &&& loaded.host == config.host
            &&& loaded.token == config.token
            &&& loaded.skip_cert_verification == config.skip_cert_verification
            &&& loaded.device_key == config.device_key
            &&& loaded.device_name == config.device_name
            &&& loaded.mac == config.mac
            &&& loaded.broadcast_ip == config.broadcast_ip
            &&& loaded.relay == config.relay
            &&& loaded.wol_port == config.wol_port
            &&& loaded.wol_repeat == config.wol_repeat
            &&& loaded.auto_connect == config.auto_connect
            &&& loaded.minimize_to_tray == config.minimize_to_tray
            &&& loaded.launch_at_startup == config.launch_at_startup
            &&& loaded.update_time == config.update_time
            &&& loaded.message_key == "lucky666"@
            &&& loaded.execution_action == normalized_action(config.execution_action)
            &&& loaded.power_off_cmd == power_command(config.execution_action, platform)
        }),
{
    law_command_depends_on_the_normal_form(config.execution_action, platform);
}

/// A fresh configuration has no controller to connect to yet, connects by itself once it has one,
/// checks certificates, relays, shuts down when asked, and wakes machines in the usual way.
pub proof fn law_a_fresh_configuration_waits_for_its_controller(
    config: ConfigModel,
    platform: Platform,
    host: Seq<char>,
    token: Seq<char>,
)
    requires
        config.is_default(platform),
    ensures
        config.host.len() == 0,
        config.token.len() == 0,
        !config.can_connect(),
        host.len() > 0 && token.len() > 0 ==> (ConfigModel {
            host,
            token,
            ..config
        }).connects_by_itself(),
        !config.skip_cert_verification,
        config.message_key == "lucky666"@,
        config.relay,
        config.wol_port == 9,
        config.wol_repeat == 5,
        config.minimize_to_tray,
        !config.launch_at_startup,
        config.broadcast_ip.len() == 0,
        config.execution_action == "shutdown"@,
        config.power_off_cmd == power_command("shutdown"@, platform),
        config.device_name.len() > 0,
        config.device_key.len() == 39,
        config.device_key.take(7) == "Client_"@,
{
    lemma_action_names();
    reveal_strlit("Client_");
    reveal_strlit("Lucky被控端设备");
    let id = choose|id: Seq<char>|
        is_plain_uuid(id) && config.device_key == #[trigger] ("Client_"@ + id);
    assert(config.device_key.take(7) == "Client_"@);
    let hostname = choose|hostname: Option<Seq<char>>|
        config.device_name == #[trigger] device_name_for(hostname);
    assert(config.device_name == device_name_for(hostname));
}

/// The agent connects by itself exactly where it is set to and has both an address and a token.
pub proof fn law_connecting_takes_an_address_and_a_token(config: ConfigModel)
    ensures
        config.can_connect() <==> config.host != Seq::<char>::empty() && config.token != Seq::<
            char,
        >::empty(),
        config.connects_by_itself() <==> config.auto_connect && config.host != Seq::<char>::empty()
            && config.token != Seq::<char>::empty(),
{
    assert(config.host.len() == 0 ==> config.host == Seq::<char>::empty());
    assert(config.token.len() == 0 ==> config.token == Seq::<char>::empty());
}

/// A device bears the name of its machine, unchanged, unless that is nothing but white space.
pub proof fn law_a_device_is_named_after_its_machine(hostname: Seq<char>)
    ensures
        device_name_for(Some(hostname)) == hostname <==> {
            ||| hostname == "Lucky被控端设备"@
            ||| exists|i: int| 0 <= i < hostname.len() && !is_white_space(#[trigger] hostname[i])
        },
        device_name_for(Some(hostname)) != hostname ==> device_name_for(Some(hostname))
            == device_name_for(None),
        device_name_for(None) == "Lucky被控端设备"@,
{
    law_blank_texts_are_white_space(hostname);
}

/// The model of a configuration holds what each field holds, under its name.
pub proof fn law_the_model_of_a_configuration_is_faithful(config: AppConfig)
    ensures
        config@.host == config.host@,
        config@.token == config.token@,
        config@.message_key == config.message_key@,
        config@.skip_cert_verification == config.skip_cert_verification,
        config@.execution_action == config.execution_action@,
        config@.device_key == config.device_key@,
        config@.device_name == config.device_name@,
        config@.mac == config.mac@,
        config@.broadcast_ip == config.broadcast_ip@,
        config@.relay == config.relay,
        config@.wol_port == config.wol_port,
        config@.wol_repeat == config.wol_repeat,
        config@.power_off_cmd == config.power_off_cmd@,
        config@.auto_connect == config.auto_connect,
        config@.minimize_to_tray == config.minimize_to_tray,
        config@.launch_at_startup == config.launch_at_startup,
        config@.update_time == config.update_time,
{
}

/// The model of settings holds what each field holds, under its name.
pub proof fn law_the_model_of_settings_is_faithful(sync: SyncClientConfigure)
    ensures
        sync@.enable == sync.enable,
        sync@.server_url == sync.server_url@,
        sync@.insecure_skip_verify == sync.insecure_skip_verify,
        sync@.token == sync.token@,
        sync@.relay == sync.relay,
        sync@.key == sync.key@,
        sync@.device_name == sync.device_name@,
        sync@.mac == sync.mac@,
        sync@.broadcast_ip == sync.broadcast_ip@,
        sync@.port == sync.port,
        sync@.repeat == sync.repeat,
        sync@.power_off_cmd == sync.power_off_cmd@,
        sync@.update_time == sync.update_time,
{
}

/// A text that may be missing is modelled as it is.
pub proof fn law_the_model_of_an_optional_text_is_faithful(text: Option<String>)
    ensures
        text is Some <==> text_option(text) is Some,
        text matches Some(words) ==> text_option(text) == Some(words@),
{
}

} // verus!
