use lucky_wol_agent::power::{
    default_hibernate_cmd, default_poweroff_cmd, default_shutdown_cmd, default_sleep_cmd,
    detect_execution_action_from_command, judge_poweroff, normalize_execution_action,
    plan_poweroff, power_command_for_action, Platform,
};

const PLATFORMS: [Platform; 3] = [Platform::Windows, Platform::Linux, Platform::Macos];

#[test]
fn actions_are_normalized() {
    assert_eq!(normalize_execution_action("hibernate"), "hibernate");
    assert_eq!(normalize_execution_action(" Sleep\n"), "sleep");
    assert_eq!(normalize_execution_action("HIBERNATE"), "hibernate");
    assert_eq!(normalize_execution_action("shutdown"), "shutdown");
    assert_eq!(normalize_execution_action(""), "shutdown");
    assert_eq!(normalize_execution_action("hiber nate"), "shutdown");
}

#[test]
fn normalizing_an_action_twice_is_normalizing_it_once() {
    for raw in ["hibernate", " Sleep\n", "", "reboot"] {
        let once = normalize_execution_action(raw);
        assert_eq!(normalize_execution_action(&once), once);
        for platform in PLATFORMS {
            assert_eq!(
                power_command_for_action(raw, platform),
                power_command_for_action(&once, platform)
            );
        }
    }
}

#[test]
fn actions_are_detected_in_commands() {
    assert_eq!(detect_execution_action_from_command("  SHUTDOWN /H /f"), "hibernate");
    assert_eq!(detect_execution_action_from_command("systemctl hibernate"), "hibernate");
    assert_eq!(detect_execution_action_from_command("systemctl suspend"), "sleep");
    assert_eq!(detect_execution_action_from_command("pmset SleepNow"), "sleep");
    assert_eq!(detect_execution_action_from_command("x SetSuspendState y"), "sleep");
    assert_eq!(detect_execution_action_from_command("hibernate; suspend"), "hibernate");
    assert_eq!(detect_execution_action_from_command("shutdown /s"), "shutdown");
    assert_eq!(detect_execution_action_from_command(""), "shutdown");
}

#[test]
fn each_platform_has_its_commands() {
    assert_eq!(default_shutdown_cmd(Platform::Windows), "shutdown /s /t 0");
    assert_eq!(default_shutdown_cmd(Platform::Linux), "shutdown -h now");
    assert_eq!(
        default_shutdown_cmd(Platform::Macos),
        "osascript -e 'tell app \"System Events\" to shut down'"
    );
    assert_eq!(default_hibernate_cmd(Platform::Windows), "shutdown /h");
    assert_eq!(default_hibernate_cmd(Platform::Linux), "systemctl hibernate");
    assert_eq!(default_hibernate_cmd(Platform::Macos), "pmset sleepnow");
    assert_eq!(
        default_sleep_cmd(Platform::Windows),
        "powershell -NoProfile -Command \"Add-Type -AssemblyName System.Windows.Forms; [System.Windows.Forms.Application]::SetSuspendState('Suspend',$false,$false)\""
    );
    assert_eq!(default_sleep_cmd(Platform::Linux), "systemctl suspend");
    assert_eq!(default_sleep_cmd(Platform::Macos), "pmset sleepnow");
}

#[test]
fn actions_have_their_commands() {
    for platform in PLATFORMS {
        assert_eq!(power_command_for_action(" Hibernate ", platform), default_hibernate_cmd(platform));
        assert_eq!(power_command_for_action("SLEEP", platform), default_sleep_cmd(platform));
        assert_eq!(power_command_for_action("anything", platform), default_shutdown_cmd(platform));
        assert_eq!(default_poweroff_cmd(platform), default_shutdown_cmd(platform));
    }
}

#[test]
fn commands_reveal_their_actions() {
    for platform in PLATFORMS {
        for action in ["shutdown", "hibernate", "sleep"] {
            let command = power_command_for_action(action, platform);
            let expected = if platform == Platform::Macos && action == "hibernate" {
                "sleep"
            } else {
                action
            };
            assert_eq!(detect_execution_action_from_command(&command), expected);
        }
    }
}

#[test]
fn commands_run_in_the_shell_of_the_platform() {
    match plan_poweroff("shutdown /s /t 0", Platform::Windows) {
        Ok(call) => {
            assert_eq!(call.program, "cmd");
            assert_eq!(call.flag, "/C");
            assert_eq!(call.command, "shutdown /s /t 0");
        }
        Err(error) => panic!("{}", error),
    }
    for platform in [Platform::Linux, Platform::Macos] {
        match plan_poweroff(" halt ", platform) {
            Ok(call) => {
                assert_eq!(call.program, "sh");
                assert_eq!(call.flag, "-c");
                assert_eq!(call.command, " halt ");
            }
            Err(error) => panic!("{}", error),
        }
    }
}

#[test]
fn a_blank_command_is_not_run() {
    for command in ["", "  ", "\t\n"] {
        match plan_poweroff(command, Platform::Linux) {
            Ok(_) => panic!("there is nothing to run"),
            Err(error) => assert_eq!(error, "当前未配置关机命令。"),
        }
    }
}

#[test]
fn a_failed_command_is_reported() {
    assert_eq!(judge_poweroff(true, "exit status: 0"), Ok(()));
    assert_eq!(
        judge_poweroff(false, "exit status: 1"),
        Err("关机命令执行返回状态异常: exit status: 1".to_string())
    );
}
