//! What the agent does to the machine that it runs on: the power action, the command behind it,
//! and how that command is run.

use vstd::prelude::*;
use vstd::string::*;

use crate::text::{
    ascii_lowered, blank, contains, is_blank, join, occurs, occurs_at, same, to_lower, trim, trimmed,
};

verus! {

/// The operating systems that the agent has commands for.
#[derive(Clone, Copy, Debug, PartialEq, Eq, Structural)]
pub enum Platform {
    Windows,
    Linux,
    Macos,
}

/// The power action that a setting names: hibernation or sleep where it says so, in whatever
/// case and with whatever white space around it, and shutting down otherwise.
pub open spec fn normalized_action(raw: Seq<char>) -> Seq<char> {
    let name = ascii_lowered(trimmed(raw));
    if name == "hibernate"@ {
        "hibernate"@
    } else if name == "sleep"@ {
        "sleep"@
    } else {
        "shutdown"@
    }
}

/// The power action that a command amounts to.
pub open spec fn detected_action(command: Seq<char>) -> Seq<char> {
    let lower = ascii_lowered(trimmed(command));
    if occurs(lower, "shutdown /h"@) || occurs(lower, "hibernate"@) {
        "hibernate"@
    } else if occurs(lower, "suspend"@) || occurs(lower, "sleepnow"@) || occurs(
        lower,
        "setsuspendstate"@,
    ) {
        "sleep"@
    } else {
        "shutdown"@
    }
}

/// The command that shuts the machine down.
pub open spec fn shutdown_command(platform: Platform) -> Seq<char> {
    match platform {
        Platform::Windows => "shutdown /s /t 0"@,
        Platform::Linux => "shutdown -h now"@,
        Platform::Macos => "osascript -e 'tell app \"System Events\" to shut down'"@,
    }
}

/// The command that hibernates the machine.
pub open spec fn hibernate_command(platform: Platform) -> Seq<char> {
    match platform {
        Platform::Windows => "shutdown /h"@,
        Platform::Linux => "systemctl hibernate"@,
        Platform::Macos => "pmset sleepnow"@,
    }
}

/// The command that puts the machine to sleep.
pub open spec fn sleep_command(platform: Platform) -> Seq<char> {
    match platform {
        Platform::Windows => "powershell -NoProfile -Command \"Add-Type -AssemblyName System.Windows.Forms; [System.Windows.Forms.Application]::SetSuspendState('Suspend',$false,$false)\""@,
        Platform::Linux => "systemctl suspend"@,
        Platform::Macos => "pmset sleepnow"@,
    }
}

/// The command for the power action that a setting names.
pub open spec fn power_command(action: Seq<char>, platform: Platform) -> Seq<char> {
    let name = normalized_action(action);
    if name == "hibernate"@ {
        hibernate_command(platform)
    } else if name == "sleep"@ {
        sleep_command(platform)
    } else {
        shutdown_command(platform)
    }
}

/// The shell of a platform, and the flag behind which it takes a command.
pub open spec fn shell(platform: Platform) -> (Seq<char>, Seq<char>) {
    match platform {
        Platform::Windows => ("cmd"@, "/C"@),
        Platform::Linux => ("sh"@, "-c"@),
        Platform::Macos => ("sh"@, "-c"@),
    }
}

/// The power action that a setting names.
pub fn normalize_execution_action(raw: &str) -> (r: String)
    ensures
        r@ == normalized_action(raw@),
{
    let name = to_lower(trim(raw));
    if same(name.as_str(), "hibernate") {
        "hibernate".to_owned()
    } else if same(name.as_str(), "sleep") {
        "sleep".to_owned()
    } else {
        "shutdown".to_owned()
    }
}

/// The power action that a command amounts to.
pub fn detect_execution_action_from_command(command: &str) -> (r: String)
    ensures
        r@ == detected_action(command@),
{
    let lower = to_lower(trim(command));
    if contains(lower.as_str(), "shutdown /h") || contains(lower.as_str(), "hibernate") {
        "hibernate".to_owned()
    } else if contains(lower.as_str(), "suspend") || contains(lower.as_str(), "sleepnow")
        || contains(lower.as_str(), "setsuspendstate") {
        "sleep".to_owned()
    } else {
        "shutdown".to_owned()
    }
}

/// The command for the power action that a setting names.
pub fn power_command_for_action(action: &str, platform: Platform) -> (r: String)
    ensures
        r@ == power_command(action@, platform),
{
    let name = normalize_execution_action(action);
    if same(name.as_str(), "hibernate") {
        default_hibernate_cmd(platform)
    } else if same(name.as_str(), "sleep") {
        default_sleep_cmd(platform)
    } else {
        default_shutdown_cmd(platform)
    }
}

/// The command that a fresh configuration holds.
pub fn default_poweroff_cmd(platform: Platform) -> (r: String)
    ensures
        r@ == shutdown_command(platform),
{
    proof {
        lemma_action_names();
    }
    power_command_for_action("shutdown", platform)
}

/// The command that shuts the machine down.
pub fn default_shutdown_cmd(platform: Platform) -> (r: String)
    ensures
        r@ == shutdown_command(platform),
{
    match platform {
        Platform::Windows => "shutdown /s /t 0".to_owned(),
        Platform::Linux => "shutdown -h now".to_owned(),
        Platform::Macos => "osascript -e 'tell app \"System Events\" to shut down'".to_owned(),
    }
}

/// The command that hibernates the machine.
pub fn default_hibernate_cmd(platform: Platform) -> (r: String)
    ensures
        r@ == hibernate_command(platform),
{
    match platform {
        Platform::Windows => "shutdown /h".to_owned(),
        Platform::Linux => "systemctl hibernate".to_owned(),
        Platform::Macos => "pmset sleepnow".to_owned(),
    }
}

/// The command that puts the machine to sleep.
pub fn default_sleep_cmd(platform: Platform) -> (r: String)
    ensures
        r@ == sleep_command(platform),
{
    match platform {
        Platform::Windows => "powershell -NoProfile -Command \"Add-Type -AssemblyName System.Windows.Forms; [System.Windows.Forms.Application]::SetSuspendState('Suspend',$false,$false)\"".to_owned(),
        Platform::Linux => "systemctl suspend".to_owned(),
        Platform::Macos => "pmset sleepnow".to_owned(),
    }
}

/// A program, and the arguments to run it with.
pub struct Invocation {
    pub program: String,
    pub flag: String,
    pub command: String,
}

/// How the shell of the platform runs a power command; a blank command is refused.
pub fn plan_poweroff(command: &str, platform: Platform) -> (r: Result<Invocation, String>)
    ensures
        match r {
            Ok(call) => !is_blank(command@) && (call.program@, call.flag@) == shell(platform)
                && call.command@ == command@,
            Err(error) => is_blank(command@) && error@ == "当前未配置关机命令。"@,
        },
{
    if blank(command) {
        return Err("当前未配置关机命令。".to_owned());
    }
    match platform {
        Platform::Windows => Ok(
            Invocation {
                program: "cmd".to_owned(),
                flag: "/C".to_owned(),
                command: command.to_owned(),
            },
        ),
        _ => Ok(
            Invocation {
                program: "sh".to_owned(),
                flag: "-c".to_owned(),
                command: command.to_owned(),
            },
        ),
    }
}

/// What a finished power command amounts to: a failed one is an error that names its status.
pub fn judge_poweroff(success: bool, status: &str) -> (r: Result<(), String>)
    ensures
        match r {
            Ok(_) => success,
            Err(error) => !success && error@ == "关机命令执行返回状态异常: "@ + status@,
        },
{
    if success {
        Ok(())
    } else {
        Err(join("关机命令执行返回状态异常: ", status))
    }
}

/// The names of the actions stand for themselves.
pub proof fn lemma_action_names()
    ensures
        normalized_action("hibernate"@) == "hibernate"@,
        normalized_action("sleep"@) == "sleep"@,
        normalized_action("shutdown"@) == "shutdown"@,
        "hibernate"@ != "sleep"@,
        "hibernate"@ != "shutdown"@,
        "sleep"@ != "shutdown"@,
{
    reveal_strlit("hibernate");
    reveal_strlit("sleep");
    reveal_strlit("shutdown");
    assert(ascii_lowered("hibernate"@) == "hibernate"@);
    assert(ascii_lowered("sleep"@) == "sleep"@);
    assert(ascii_lowered("shutdown"@) == "shutdown"@);
    assert("hibernate"@.len() != "sleep"@.len());
    assert("hibernate"@.len() != "shutdown"@.len());
    assert("sleep"@.len() != "shutdown"@.len());
}

/// Normalising a setting twice is normalising it once, and what comes out is one of the three
/// actions.
pub proof fn law_normalizing_an_action_settles_it(raw: Seq<char>)
    ensures
        normalized_action(normalized_action(raw)) == normalized_action(raw),
        ({
            ||| normalized_action(raw) == "hibernate"@
            ||| normalized_action(raw) == "sleep"@
            ||| normalized_action(raw) == "shutdown"@
        }),
{
    lemma_action_names();
}

/// A setting and its normal form stand for one command.
pub proof fn law_command_depends_on_the_normal_form(raw: Seq<char>, platform: Platform)
    ensures
        power_command(normalized_action(raw), platform) == power_command(raw, platform),
{
    law_normalizing_an_action_settles_it(raw);
}

/// Whether none of the first `n` characters of `s` is an `a` with a `b` behind it.
spec fn pair_free(s: Seq<char>, a: char, b: char, n: nat) -> bool
    decreases n,
{
    n == 0 || (pair_free(s, a, b, (n - 1) as nat) && !(n < s.len() && s[n - 1] == a && s[n as int]
        == b))
}

proof fn lemma_pair_free(s: Seq<char>, a: char, b: char, n: nat, i: int)
    requires
        pair_free(s, a, b, n),
        0 <= i < n,
        i + 1 < s.len(),
    ensures
        !(s[i] == a && s[i + 1] == b),
    decreases n,
{
    if i < n - 1 {
        lemma_pair_free(s, a, b, (n - 1) as nat, i);
    }
}

/// A pattern with an adjacent pair that a text lacks does not occur in the text.
proof fn lemma_absent(s: Seq<char>, pattern: Seq<char>, k: int)
    requires
        0 <= k,
        k + 1 < pattern.len(),
        pair_free(s, pattern[k], pattern[k + 1], s.len()),
    ensures
        !occurs(s, pattern),
{
    assert forall|i: int| !#[trigger] occurs_at(s, pattern, i) by {
        if occurs_at(s, pattern, i) {
            let found = s.subrange(i, i + pattern.len());
            assert(found[k] == s[i + k]);
            assert(found[k + 1] == s[i + k + 1]);
            lemma_pair_free(s, pattern[k], pattern[k + 1], s.len(), i + k);
        }
    }
}

/// None of the patterns of another action occurs in a command that shuts down.
proof fn lemma_no_pattern(s: Seq<char>)
    requires
        pair_free(s, '/', 'h', s.len()),
        pair_free(s, 'h', 'i', s.len()),
    ensures
        !occurs(s, "shutdown /h"@),
        !occurs(s, "hibernate"@),
        ({
            &&& pair_free(s, 's', 'u', s.len())
            &&& pair_free(s, 's', 'l', s.len())
            &&& pair_free(s, 's', 'e', s.len())
        }) ==> ({
            &&& !occurs(s, "suspend"@)
            &&& !occurs(s, "sleepnow"@)
            &&& !occurs(s, "setsuspendstate"@)
        }),
{
    reveal_strlit("shutdown /h");
    reveal_strlit("hibernate");
    reveal_strlit("suspend");
    reveal_strlit("sleepnow");
    reveal_strlit("setsuspendstate");
    lemma_absent(s, "shutdown /h"@, 9);
    lemma_absent(s, "hibernate"@, 0);
    if pair_free(s, 's', 'u', s.len()) && pair_free(s, 's', 'l', s.len()) && pair_free(
        s,
        's',
        'e',
        s.len(),
    ) {
        lemma_absent(s, "suspend"@, 0);
        lemma_absent(s, "sleepnow"@, 0);
        lemma_absent(s, "setsuspendstate"@, 0);
    }
}

proof fn lemma_detects_shutdown(platform: Platform)
    ensures
        detected_action(shutdown_command(platform)) == "shutdown"@,
{
    let command = shutdown_command(platform);
    let lower = ascii_lowered(command);
    reveal_with_fuel(pair_free, 60);
    if platform == Platform::Windows {
        reveal_strlit("shutdown /s /t 0");
        assert(pair_free(lower, '/', 'h', 16));
        assert(pair_free(lower, 'h', 'i', 16));
        assert(pair_free(lower, 's', 'u', 16));
        assert(pair_free(lower, 's', 'l', 16));
        assert(pair_free(lower, 's', 'e', 16));
    } else if platform == Platform::Linux {
        reveal_strlit("shutdown -h now");
        assert(pair_free(lower, '/', 'h', 15));
        assert(pair_free(lower, 'h', 'i', 15));
        assert(pair_free(lower, 's', 'u', 15));
        assert(pair_free(lower, 's', 'l', 15));
        assert(pair_free(lower, 's', 'e', 15));
    } else {
        reveal_strlit("osascript -e 'tell app \"System Events\" to shut down'");
        assert(pair_free(lower, '/', 'h', 52));
        assert(pair_free(lower, 'h', 'i', 52));
        assert(pair_free(lower, 's', 'u', 52));
        assert(pair_free(lower, 's', 'l', 52));
        assert(pair_free(lower, 's', 'e', 52));
    }
    assert(trimmed(command) == command);
    lemma_no_pattern(lower);
}

proof fn lemma_detects_hibernation(platform: Platform)
    requires
        platform != Platform::Macos,
    ensures
        detected_action(hibernate_command(platform)) == "hibernate"@,
{
    let command = hibernate_command(platform);
    let lower = ascii_lowered(command);
    reveal_strlit("shutdown /h");
    reveal_strlit("systemctl hibernate");
    reveal_strlit("hibernate");
    assert(trimmed(command) == command);
    if platform == Platform::Windows {
        assert(lower.subrange(0, 11) == "shutdown /h"@);
        assert(occurs_at(lower, "shutdown /h"@, 0));
    } else {
        assert(lower.subrange(10, 19) == "hibernate"@);
        assert(occurs_at(lower, "hibernate"@, 10));
    }
}

proof fn lemma_detects_sleep(platform: Platform)
    ensures
        detected_action(sleep_command(platform)) == "sleep"@,
{
    let command = sleep_command(platform);
    let lower = ascii_lowered(command);
    reveal_with_fuel(pair_free, 20);
    reveal_strlit("suspend");
    reveal_strlit("sleepnow");
    if platform == Platform::Windows {
        reveal_strlit("powershell -NoProfile -Command \"Add-Type -AssemblyName System.Windows.Forms; [System.Windows.Forms.Application]::SetSuspendState('Suspend',$false,$false)\"");
        assert(lower.len() == 154);
        assert(pair_free(lower, '/', 'h', 14) && pair_free(lower, 'h', 'i', 14));
        assert(pair_free(lower, '/', 'h', 28) && pair_free(lower, 'h', 'i', 28));
        assert(pair_free(lower, '/', 'h', 42) && pair_free(lower, 'h', 'i', 42));
        assert(pair_free(lower, '/', 'h', 56) && pair_free(lower, 'h', 'i', 56));
        assert(pair_free(lower, '/', 'h', 70) && pair_free(lower, 'h', 'i', 70));
        assert(pair_free(lower, '/', 'h', 84) && pair_free(lower, 'h', 'i', 84));
        assert(pair_free(lower, '/', 'h', 98) && pair_free(lower, 'h', 'i', 98));
        assert(pair_free(lower, '/', 'h', 112) && pair_free(lower, 'h', 'i', 112));
        assert(pair_free(lower, '/', 'h', 126) && pair_free(lower, 'h', 'i', 126));
        assert(pair_free(lower, '/', 'h', 140) && pair_free(lower, 'h', 'i', 140));
        assert(pair_free(lower, '/', 'h', 154) && pair_free(lower, 'h', 'i', 154));
        assert(lower.subrange(116, 123) == "suspend"@);
        assert(occurs_at(lower, "suspend"@, 116));
    } else if platform == Platform::Linux {
        reveal_strlit("systemctl suspend");
        assert(pair_free(lower, '/', 'h', 17));
        assert(pair_free(lower, 'h', 'i', 17));
        assert(lower.subrange(10, 17) == "suspend"@);
        assert(occurs_at(lower, "suspend"@, 10));
    } else {
        reveal_strlit("pmset sleepnow");
        assert(pair_free(lower, '/', 'h', 14));
        assert(pair_free(lower, 'h', 'i', 14));
        assert(lower.subrange(6, 14) == "sleepnow"@);
        assert(occurs_at(lower, "sleepnow"@, 6));
    }
    assert(trimmed(command) == command);
    lemma_no_pattern(lower);
}

/// The command for an action reveals that action. The one exception is hibernation under macOS,
/// whose command is that of sleep.
pub proof fn law_command_reveals_its_action(action: Seq<char>, platform: Platform)
    requires
        !(platform == Platform::Macos && normalized_action(action) == "hibernate"@),
    ensures
        detected_action(power_command(action, platform)) == normalized_action(action),
{
    lemma_action_names();
    if normalized_action(action) == "hibernate"@ {
        lemma_detects_hibernation(platform);
    } else if normalized_action(action) == "sleep"@ {
        lemma_detects_sleep(platform);
    } else {
        lemma_detects_shutdown(platform);
    }
}

/// A setting chooses hibernation or sleep exactly by that name, in whatever case and with whatever
/// white space around it, and anything else chooses shutting down.
pub proof fn law_actions_are_chosen_by_name(raw: Seq<char>)
    ensures
        normalized_action(raw) == "hibernate"@ <==> ascii_lowered(trimmed(raw)) == "hibernate"@,
        normalized_action(raw) == "sleep"@ <==> ascii_lowered(trimmed(raw)) == "sleep"@,
        normalized_action(raw) == "shutdown"@ <==> ascii_lowered(trimmed(raw)) != "hibernate"@
            && ascii_lowered(trimmed(raw)) != "sleep"@,
{
    lemma_action_names();
}

/// A command amounts to hibernation or sleep exactly if it holds one of the words for it, in
/// whatever case, hibernation first.
pub proof fn law_actions_are_detected_by_word(command: Seq<char>)
    ensures
        ({
            let lower = ascii_lowered(trimmed(command));
            let hibernates = occurs(lower, "shutdown /h"@) || occurs(lower, "hibernate"@);
            let sleeps = occurs(lower, "suspend"@) || occurs(lower, "sleepnow"@);
            &&& detected_action(command) == "hibernate"@ <==> hibernates
            &&& detected_action(command) == "sleep"@ <==> !hibernates && sleeps
            &&& detected_action(command) == "shutdown"@ <==> !hibernates && !sleeps
        }),
{
    let lower = ascii_lowered(trimmed(command));
    lemma_action_names();
    reveal_strlit("suspend");
    reveal_strlit("setsuspendstate");
    if occurs(lower, "setsuspendstate"@) {
        let i = choose|i: int| #[trigger] occurs_at(lower, "setsuspendstate"@, i);
        let found = lower.subrange(i, i + 15);
        assert(found == "setsuspendstate"@);
        assert(found.subrange(3, 10) == "suspend"@);
        assert(lower.subrange(i + 3, i + 10) == found.subrange(3, 10));
        assert(occurs_at(lower, "suspend"@, i + 3));
    }
}

/// Each action has its own command on its platform.
pub proof fn law_each_action_has_its_command(action: Seq<char>, platform: Platform)
    ensures
        normalized_action(action) == "hibernate"@ ==> power_command(action, platform)
            == hibernate_command(platform),
        normalized_action(action) == "sleep"@ ==> power_command(action, platform) == sleep_command(
            platform,
        ),
        normalized_action(action) == "shutdown"@ ==> power_command(action, platform)
            == shutdown_command(platform),
{
    lemma_action_names();
}

} // verus!
