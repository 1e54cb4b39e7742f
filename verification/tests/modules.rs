//! Modules: gates, reloads, restarts and output.

use pc_bridge::config::{Config, ModuleDef, RestartPolicy};
use pc_bridge::modules::{
    blocked_reason, prune_status, should_stop, AfterRun, ChildOutcome, ModuleManager,
    ModuleRunner, ModuleState, OutputLine, Pump, MAX_LINE,
};

fn def(name: &str, command: &str, args: &[&str], restart: RestartPolicy) -> ModuleDef {
    ModuleDef {
        name: name.to_string(),
        command: command.to_string(),
        args: args.iter().map(|s| (*s).to_string()).collect(),
        working_dir: None,
        restart,
        admin: false,
    }
}

#[test]
fn non_admin_module_is_never_blocked() {
    let m = def("m", "true", &[], RestartPolicy::Never);
    for elevated in [false, true] {
        assert!(blocked_reason(&m, false, elevated).is_none());
        assert!(blocked_reason(&m, true, elevated).is_none());
    }
}

#[test]
fn admin_module_blocked_without_privileges_allowed() {
    let mut m = def("m", "true", &[], RestartPolicy::Never);
    m.admin = true;
    for elevated in [false, true] {
        let reason = blocked_reason(&m, false, elevated).expect("must be blocked");
        assert!(reason.contains("custom_command_privileges_allowed"));
    }
}

#[test]
fn admin_module_blocked_when_agent_is_not_elevated() {
    let mut m = def("m", "true", &[], RestartPolicy::Never);
    m.admin = true;
    for is_elevated in [false, true] {
        if is_elevated {
            assert!(blocked_reason(&m, true, is_elevated).is_none());
        } else {
            let reason = blocked_reason(&m, true, is_elevated).expect("must be blocked");
            assert!(reason.contains("not running elevated"));
        }
    }
}

#[test]
fn unchanged_module_keeps_running_across_a_reload() {
    let a = def("a", "true", &[], RestartPolicy::Never);
    let b = def("b", "true", &[], RestartPolicy::Never);
    let wanted = vec![a.clone(), b.clone()];
    let previous = vec![a, b];
    assert!(!should_stop("a", &wanted, &previous));
    assert!(!should_stop("b", &wanted, &previous));
}

#[test]
fn changed_or_removed_modules_stop() {
    let a = def("a", "true", &[], RestartPolicy::Never);
    let mut a2 = a.clone();
    a2.args = vec!["--now".to_string()];

    assert!(should_stop("a", &[a2], std::slice::from_ref(&a)));
    assert!(should_stop("a", &[], std::slice::from_ref(&a)));
    assert!(should_stop("ghost", &[a], &[]));
}

#[test]
fn status_prunes_modules_that_left_the_config() {
    let a = def("a", "true", &[], RestartPolicy::Never);
    let status = vec![
        ("a".to_string(), ModuleState::Running),
        ("blocked-and-deleted".to_string(), ModuleState::Blocked),
    ];

    let wanted = [a];
    let status = prune_status(&status, &wanted);

    assert_eq!(
        status.iter().find(|(n, _)| n == "a").map(|(_, s)| *s),
        Some(ModuleState::Running)
    );
    assert!(
        !status.iter().any(|(n, _)| n == "blocked-and-deleted"),
        "a module removed from config must not keep reporting a state"
    );
}

#[test]
fn state_strings_are_stable() {
    assert_eq!(ModuleState::Running.as_str(), "running");
    assert_eq!(ModuleState::Stopped.as_str(), "stopped");
    assert_eq!(ModuleState::Blocked.as_str(), "blocked");
    assert_eq!(ModuleState::Failed.as_str(), "failed");
}

/// The lines that come out of an output, cut into chunks of a size, and how many
/// were dropped.
fn pump(input: &[u8], chunk: usize, is_err: bool) -> (Vec<String>, usize) {
    let mut pump = Pump::new(is_err);
    let mut texts = Vec::new();
    let mut dropped = 0;
    for part in input.chunks(chunk) {
        let (next, lines) = pump.feed(part);
        pump = next;
        for line in lines {
            match line {
                OutputLine::Text(t) => texts.push(t),
                OutputLine::Dropped => dropped += 1,
            }
        }
    }
    texts.extend(pump.finish());
    (texts, dropped)
}

#[test]
fn pump_drops_overlong_lines_but_keeps_short_ones() {
    let long = "x".repeat(MAX_LINE + 1);
    let input = format!("ok one\n{long}\nok two\n");
    for chunk in [1, 7, 4096] {
        let (lines, dropped) = pump(input.as_bytes(), chunk, false);
        assert_eq!(lines, ["ok one", "ok two"]);
        assert_eq!(dropped, 1);
    }
}

#[test]
fn a_huge_line_with_no_newline_is_bounded() {
    let mut input = vec![b'x'; 4 * 1024 * 1024];
    input.extend_from_slice(b"\nsurvivor\n");
    let (lines, dropped) = pump(&input, 4096, false);
    assert_eq!(lines, ["survivor"]);
    assert_eq!(dropped, 1);
}

#[test]
fn a_line_of_exactly_max_len_survives() {
    let line = "y".repeat(MAX_LINE);
    let (lines, dropped) = pump(format!("{line}\n").as_bytes(), 4096, false);
    assert_eq!(lines, [line]);
    assert_eq!(dropped, 0);
}

#[test]
fn crlf_output_does_not_log_a_stray_carriage_return() {
    let (lines, _) = pump(b"one\r\ntwo\r\n", 4096, false);
    assert_eq!(lines, ["one", "two"]);
}

#[test]
fn a_final_line_without_a_newline_is_not_lost() {
    let (lines, _) = pump(b"no trailing newline", 4096, false);
    assert_eq!(lines, ["no trailing newline"]);
}

#[test]
fn invalid_utf8_does_not_kill_the_pump() {
    let (lines, _) = pump(b"bad \xff\xfe byte\ngood\n", 4096, false);
    assert!(lines[0].contains("byte"));
    assert_eq!(lines[1], "good");
}

#[test]
fn stderr_lines_are_tagged() {
    let (lines, _) = pump(b"boom\n", 4096, true);
    assert_eq!(lines, ["stderr: boom"]);
}

#[test]
fn an_overlong_last_line_is_lost() {
    let (lines, dropped) = pump("z".repeat(MAX_LINE + 1).as_bytes(), 100, false);
    assert!(lines.is_empty());
    assert_eq!(dropped, 0);
}

#[test]
fn spawn_failure_with_restart_never_gives_up() {
    let mut runner = ModuleRunner::new(RestartPolicy::Never);
    let after = runner.after_run(ChildOutcome::SpawnFailed, 0);
    assert_eq!(
        after,
        AfterRun {
            report: ModuleState::Failed,
            wait_secs: None
        }
    );
}

#[test]
fn clean_exit_with_on_failure_does_not_restart() {
    let mut runner = ModuleRunner::new(RestartPolicy::OnFailure);
    let after = runner.after_run(ChildOutcome::Exited { success: true }, 0);
    assert_eq!(
        after,
        AfterRun {
            report: ModuleState::Stopped,
            wait_secs: None
        }
    );
}

#[test]
fn failure_with_on_failure_restarts_and_cancel_wins_during_backoff() {
    let mut runner = ModuleRunner::new(RestartPolicy::OnFailure);
    let after = runner.after_run(ChildOutcome::Exited { success: false }, 0);
    assert_eq!(after.report, ModuleState::Running);
    assert_eq!(after.wait_secs, Some(1));
    let after = runner.after_run(ChildOutcome::Cancelled, 0);
    assert_eq!(after.report, ModuleState::Stopped);
    assert_eq!(after.wait_secs, None);
}

#[test]
fn cancel_stops_a_running_module() {
    let mut runner = ModuleRunner::new(RestartPolicy::Always);
    let after = runner.after_run(ChildOutcome::Cancelled, 50_000);
    assert_eq!(
        after,
        AfterRun {
            report: ModuleState::Stopped,
            wait_secs: None
        }
    );
}

#[test]
fn waits_double_up_to_a_minute_and_start_anew_after_a_healthy_run() {
    let mut runner = ModuleRunner::new(RestartPolicy::Always);
    let failed = ChildOutcome::Exited { success: false };
    let waits: Vec<u64> = (0..8)
        .map(|_| runner.after_run(failed, 10).wait_secs.unwrap())
        .collect();
    assert_eq!(waits, [1, 2, 4, 8, 16, 32, 60, 60]);
    assert_eq!(runner.after_run(ChildOutcome::SpawnFailed, 60_000).wait_secs, Some(60));
    assert_eq!(runner.after_run(failed, 30_000).wait_secs, Some(1));
    assert_eq!(runner.after_run(failed, 29_999).wait_secs, Some(2));
}

fn config_with(modules: Vec<ModuleDef>) -> Config {
    Config {
        modules_enabled: true,
        modules,
        ..Config::default()
    }
}

#[test]
fn a_reload_starts_stops_and_blocks() {
    let mut admin = def("root", "true", &[], RestartPolicy::Never);
    admin.admin = true;
    let a = def("a", "true", &[], RestartPolicy::Never);
    let b = def("b", "true", &[], RestartPolicy::Never);
    let mut host = ModuleManager::new();

    let plan = host.reload(&config_with(vec![a.clone(), admin.clone(), b.clone()]), true);
    assert!(plan.stop.is_empty());
    let started: Vec<&str> = plan.start.iter().map(|d| d.name.as_str()).collect();
    assert_eq!(started, ["a", "b"]);
    assert_eq!(host.state("root"), Some(ModuleState::Blocked));
    let (running, attributes) = host.publish_status();
    assert_eq!(running, 2);
    assert_eq!(
        attributes,
        r#"{"a":"running","b":"running","root":"blocked"}"#
    );

    let again = host.reload(&config_with(vec![a.clone(), admin.clone(), b.clone()]), true);
    assert!(again.stop.is_empty() && again.start.is_empty());

    let mut changed = b.clone();
    changed.command = "false".to_string();
    let plan = host.reload(&config_with(vec![a, changed]), true);
    assert_eq!(plan.stop, ["b"]);
    assert_eq!(plan.start.len(), 1);
    assert_eq!(plan.start[0].command, "false");
    assert_eq!(host.state("root"), None);

    let plan = host.reload(&Config::default(), true);
    assert_eq!(plan.stop, ["a", "b"]);
    assert_eq!(host.publish_status(), (0, "{}".to_string()));
}

#[test]
fn an_administrator_module_runs_where_it_may() {
    let mut admin = def("root", "true", &[], RestartPolicy::Never);
    admin.admin = true;
    let mut config = config_with(vec![admin]);
    config.custom_command_privileges_allowed = true;
    assert_eq!(ModuleManager::new().reload(&config, false).start.len(), 0);
    assert_eq!(ModuleManager::new().reload(&config, true).start.len(), 1);
}

#[test]
fn only_changes_of_state_are_published() {
    let mut host = ModuleManager::new();
    host.reload(
        &config_with(vec![def("a", "true", &[], RestartPolicy::Never)]),
        false,
    );
    assert!(!host.on_status("a", ModuleState::Running));
    assert!(host.on_status("a", ModuleState::Failed));
    assert!(!host.on_status("a", ModuleState::Failed));
    assert_eq!(host.publish_status().0, 0);
}
