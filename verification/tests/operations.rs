use duniter_node_manager::identity::Identity;
use duniter_node_manager::operation::{Main, Run};
use duniter_node_manager::protocol::{Action, Reply, Stage, Task};

/// Runs an operation to its end against `answer`, which stands for the
/// transport, and returns every action that was asked for, the last one
/// included.
fn drive(
    main: &mut Main,
    start: (Run, Action),
    answer: &mut dyn FnMut(&Action) -> Reply,
) -> Vec<Action> {
    let (mut run, mut action) = start;
    let mut asked = Vec::new();
    for _ in 0..100 {
        asked.push(action.clone());
        if matches!(action, Action::Finish { .. }) {
            assert!(run.is_finished());
            return asked;
        }
        let reply = answer(&action);
        action = main.step(&mut run, reply);
    }
    panic!("the operation did not end");
}

/// The commands among `asked`, in order.
fn commands(asked: &[Action]) -> Vec<String> {
    let mut out = Vec::new();
    for a in asked {
        if let Action::Execute { command, .. } = a {
            out.push(command.clone());
        }
    }
    out
}

/// A transport on which everything works and every command prints what
/// `shell` says.
fn working(shell: &dyn Fn(&str) -> String) -> impl FnMut(&Action) -> Reply + '_ {
    move |action: &Action| match action {
        Action::Execute { command, capture } => {
            if *capture {
                Reply::Output(shell(command))
            } else {
                Reply::Done
            }
        }
        _ => Reply::Done,
    }
}

const ADDRESS: &str = "alice@10.0.0.5:22";

#[test]
fn check_installation_with_nothing_installed() {
    let mut main = Main::new();
    let start = main.check_installation(ADDRESS.to_string(), "secret".to_string());
    let shell = |_: &str| String::new();
    let asked = drive(&mut main, start, &mut working(&shell));
    assert_eq!(main.output, "No duniter on the system\nNo duniter services on the system");
    assert_eq!(
        commands(&asked),
        vec![
            "command -v duniter2".to_string(),
            "systemctl list-unit-files | grep -iE 'duniter|distance-oracle'".to_string(),
        ]
    );
    assert_eq!(
        asked.last().unwrap(),
        &Action::Finish { output_changed: true, config_changed: false }
    );
}

#[test]
fn check_installation_finds_the_program() {
    let mut main = Main::new();
    let start = main.check_installation(ADDRESS.to_string(), "secret".to_string());
    let shell = |c: &str| {
        if c == "command -v duniter2" {
            "/usr/bin/duniter2".to_string()
        } else {
            String::new()
        }
    };
    let asked = drive(&mut main, start, &mut working(&shell));
    assert!(main.output.starts_with("Duniter detected at /usr/bin/duniter2"));
    assert_eq!(
        main.output,
        "Duniter detected at /usr/bin/duniter2\nNo duniter services on the system"
    );
    assert_eq!(
        asked,
        vec![
            Action::Connect { host: [10, 0, 0, 5], port: 22, timeout_secs: 2 },
            Action::Handshake,
            Action::PasswordLogin { user: "alice".to_string(), password: "secret".to_string() },
            Action::Execute { command: "command -v duniter2".to_string(), capture: true },
            Action::Execute {
                command: "systemctl list-unit-files | grep -iE 'duniter|distance-oracle'"
                    .to_string(),
                capture: true,
            },
            Action::Disconnect,
            Action::Finish { output_changed: true, config_changed: false },
        ]
    );
}

#[test]
fn check_installation_finds_the_services() {
    let mut main = Main::new();
    let start = main.check_installation(ADDRESS.to_string(), "secret".to_string());
    let shell = |c: &str| {
        if c == "command -v duniter2" {
            String::new()
        } else {
            "duniter-smith.service enabled\n".to_string()
        }
    };
    drive(&mut main, start, &mut working(&shell));
    assert_eq!(
        main.output,
        "No duniter on the system\nDuniter services detected at duniter-smith.service enabled\n"
    );
}

#[test]
fn start_node_starts_then_shows_the_log() {
    let mut main = Main::new();
    let start = main.start_node(ADDRESS.to_string(), "secret".to_string(), "s1".to_string());
    let shell = |_: &str| "the log".to_string();
    let asked = drive(&mut main, start, &mut working(&shell));
    assert_eq!(
        commands(&asked),
        vec![
            "sudo systemctl start duniter-s1.service".to_string(),
            "journalctl -ru duniter-s1.service -u distance-oracle -n 100".to_string(),
        ]
    );
    assert_eq!(main.output, "\nthe log");
    let login = Action::PasswordLogin { user: "alice".to_string(), password: "secret".to_string() };
    let connect = Action::Connect { host: [10, 0, 0, 5], port: 22, timeout_secs: 2 };
    assert_eq!(
        asked,
        vec![
            connect.clone(),
            Action::Handshake,
            login.clone(),
            Action::Execute {
                command: "sudo systemctl start duniter-s1.service".to_string(),
                capture: false,
            },
            Action::Disconnect,
            connect,
            Action::Handshake,
            login,
            Action::Execute {
                command: "journalctl -ru duniter-s1.service -u distance-oracle -n 100".to_string(),
                capture: true,
            },
            Action::Disconnect,
            Action::Finish { output_changed: true, config_changed: false },
        ]
    );
}

#[test]
fn start_node_issues_the_command_of_see_logs() {
    let shell = |_: &str| String::new();
    let mut main = Main::new();
    let start = main.start_node(ADDRESS.to_string(), "secret".to_string(), "s1".to_string());
    let started = commands(&drive(&mut main, start, &mut working(&shell)));
    let mut other = Main::new();
    let start = other.see_logs(ADDRESS.to_string(), "secret".to_string(), "s1".to_string());
    let seen = commands(&drive(&mut other, start, &mut working(&shell)));
    assert_eq!(seen.len(), 1);
    assert_eq!(started.len(), 2);
    assert_eq!(started[1], seen[0]);
    assert_eq!(main.output, other.output);
}

#[test]
fn stop_node_stops_then_shows_the_log() {
    let mut main = Main::new();
    let start = main.stop_node(ADDRESS.to_string(), "secret".to_string(), "smith".to_string());
    let shell = |_: &str| "stopped\n".to_string();
    let asked = drive(&mut main, start, &mut working(&shell));
    assert_eq!(
        commands(&asked),
        vec![
            "sudo systemctl stop duniter-smith.service".to_string(),
            "journalctl -ru duniter-smith.service -u distance-oracle -n 100".to_string(),
        ]
    );
    assert_eq!(main.output, "\nstopped\n");
}

#[test]
fn see_logs_puts_the_log_behind_a_line_break() {
    let mut main = Main::new();
    main.output = "old".to_string();
    let start = main.see_logs(ADDRESS.to_string(), "secret".to_string(), "mirror".to_string());
    let shell = |_: &str| "line 1\nline 2\n".to_string();
    let asked = drive(&mut main, start, &mut working(&shell));
    assert_eq!(main.output, "\nline 1\nline 2\n");
    assert_eq!(
        commands(&asked),
        vec!["journalctl -ru duniter-mirror.service -u distance-oracle -n 100".to_string()]
    );
}

#[test]
fn start_and_stop_oracle_show_its_log() {
    let shell = |_: &str| "oracle log".to_string();
    let mut main = Main::new();
    let start = main.start_oracle(ADDRESS.to_string(), "secret".to_string());
    let asked = drive(&mut main, start, &mut working(&shell));
    assert_eq!(
        commands(&asked),
        vec![
            "sudo systemctl start distance-oracle.service".to_string(),
            "journalctl -ru distance-oracle -n 100".to_string(),
        ]
    );
    assert_eq!(main.output, "oracle log");
    let start = main.stop_oracle(ADDRESS.to_string(), "secret".to_string());
    let asked = drive(&mut main, start, &mut working(&shell));
    assert_eq!(
        commands(&asked),
        vec![
            "sudo systemctl stop distance-oracle.service".to_string(),
            "journalctl -ru distance-oracle -n 100".to_string(),
        ]
    );
    assert_eq!(main.output, "oracle log");
}

#[test]
fn get_config_keeps_the_trimmed_text() {
    let mut main = Main::new();
    main.output = "untouched".to_string();
    let start = main.get_config(ADDRESS.to_string(), "secret".to_string());
    let shell = |_: &str| "\n  KEY=value\nOTHER=1 \n\n".to_string();
    let asked = drive(&mut main, start, &mut working(&shell));
    assert_eq!(main.config, "KEY=value\nOTHER=1");
    assert_eq!(main.output, "untouched");
    assert_eq!(commands(&asked), vec!["sudo cat /etc/duniter/env_file".to_string()]);
    assert_eq!(
        asked.last().unwrap(),
        &Action::Finish { output_changed: false, config_changed: true }
    );
}

#[test]
fn write_config_sends_the_trimmed_text() {
    let mut main = Main::new();
    main.output = "untouched".to_string();
    let start =
        main.write_config(ADDRESS.to_string(), "secret".to_string(), "  A=1\nB=2\n\n".to_string());
    let shell = |_: &str| String::new();
    let asked = drive(&mut main, start, &mut working(&shell));
    assert_eq!(
        asked[3],
        Action::Execute {
            command: "echo \"A=1\nB=2\" | sudo tee /etc/duniter/env_file".to_string(),
            capture: false,
        }
    );
    assert_eq!(main.output, "untouched");
    assert_eq!(main.config, "");
    assert_eq!(
        asked.last().unwrap(),
        &Action::Finish { output_changed: false, config_changed: false }
    );
}

#[test]
fn write_config_then_get_config_round_trips() {
    let text = " \t NODE=smith\nPORT=30333  \n";
    let mut main = Main::new();
    let start = main.write_config(ADDRESS.to_string(), "secret".to_string(), text.to_string());
    let mut file = String::new();
    {
        let mut remote = |action: &Action| {
            if let Action::Execute { command, .. } = action {
                let body = command
                    .strip_prefix("echo \"")
                    .unwrap()
                    .strip_suffix("\" | sudo tee /etc/duniter/env_file")
                    .unwrap();
                file = format!("{}\n", body);
            }
            Reply::Done
        };
        drive(&mut main, start, &mut remote);
    }
    let start = main.get_config(ADDRESS.to_string(), "secret".to_string());
    let shell = |_: &str| file.clone();
    drive(&mut main, start, &mut working(&shell));
    assert_eq!(main.config, text.trim());
    assert_eq!(main.config, "NODE=smith\nPORT=30333");
}

#[test]
fn command_runs_one_command_and_shows_nothing() {
    let mut main = Main::new();
    let start = main.command(ADDRESS.to_string(), "secret".to_string(), "uptime".to_string());
    let mut remote = |_: &Action| Reply::Output("ignored".to_string());
    let asked = drive(&mut main, start, &mut remote);
    assert_eq!(commands(&asked), vec!["uptime".to_string()]);
    assert_eq!(asked[3], Action::Execute { command: "uptime".to_string(), capture: false });
    assert_eq!(main.output, "");
}

#[test]
fn address_without_at_fails_at_once() {
    let mut main = Main::new();
    let (run, action) = main.check_installation("aliceNoAt".to_string(), "secret".to_string());
    assert_eq!(action, Action::Finish { output_changed: true, config_changed: false });
    assert!(run.is_finished());
    assert_eq!(
        main.output,
        "Failed to open session: Invalid input format: Expected 'username@ip:port'."
    );
}

#[test]
fn bad_socket_address_fails_at_once() {
    let mut main = Main::new();
    let (run, action) =
        main.start_node("alice@example.org:22".to_string(), "pw".to_string(), "s1".to_string());
    assert_eq!(action, Action::Finish { output_changed: true, config_changed: false });
    assert!(run.is_finished());
    assert_eq!(
        main.output,
        "Failed to open session: Connexion Error: invalid IPv4 socket address syntax"
    );
}

#[test]
fn selector_that_matches_no_identity() {
    let mut main = Main::new();
    let start = main.see_logs(
        ADDRESS.to_string(),
        "\u{1F511}nobody@nowhere42".to_string(),
        "s1".to_string(),
    );
    let mut remote = |action: &Action| match action {
        Action::ListIdentities => Reply::Identities(vec![
            Identity::new("alice@laptop".to_string(), &[1, 2, 3]),
            Identity::new("bob@desktop".to_string(), &[4, 5, 6]),
        ]),
        _ => Reply::Done,
    };
    let asked = drive(&mut main, start, &mut remote);
    assert_eq!(main.output, "Failed to open session: Identity not found");
    assert_eq!(
        asked,
        vec![
            Action::Connect { host: [10, 0, 0, 5], port: 22, timeout_secs: 2 },
            Action::Handshake,
            Action::ListIdentities,
            Action::Disconnect,
            Action::Finish { output_changed: true, config_changed: false },
        ]
    );
}

#[test]
fn agent_without_identities_finds_none() {
    let mut main = Main::new();
    let start =
        main.get_config(ADDRESS.to_string(), "\u{1F511}alice@laptop6".to_string());
    let mut remote = |_: &Action| Reply::Done;
    drive(&mut main, start, &mut remote);
    assert_eq!(main.output, "Failed to open session: Identity not found");
    assert_eq!(main.config, "");
}

#[test]
fn selector_logs_in_with_the_first_identity_it_holds() {
    let ids = vec![
        Identity::new("carol".to_string(), &[9]),
        Identity::new("alice@laptop".to_string(), &[1, 2, 3]),
        Identity::new("alice@laptop".to_string(), &[3, 2, 1]),
    ];
    let selector = ids[1].token();
    assert_eq!(selector, "\u{1F511}alice@laptop6");
    let mut main = Main::new();
    let start = main.get_config(ADDRESS.to_string(), selector);
    let mut remote = |action: &Action| match action {
        Action::ListIdentities => Reply::Identities(ids.clone()),
        Action::Execute { .. } => Reply::Output("X=1\n".to_string()),
        _ => Reply::Done,
    };
    let asked = drive(&mut main, start, &mut remote);
    assert_eq!(asked[2], Action::ListIdentities);
    assert_eq!(asked[3], Action::IdentityLogin { user: "alice".to_string(), index: 1 });
    assert_eq!(main.config, "X=1");
}

#[test]
fn refused_connection_is_told_and_nothing_is_closed() {
    let mut main = Main::new();
    let start = main.check_installation(ADDRESS.to_string(), "secret".to_string());
    let mut remote = |action: &Action| match action {
        Action::Connect { .. } => Reply::Failed("connection timed out".to_string()),
        _ => Reply::Done,
    };
    let asked = drive(&mut main, start, &mut remote);
    assert_eq!(main.output, "Failed to open session: connection timed out");
    assert_eq!(
        asked,
        vec![
            Action::Connect { host: [10, 0, 0, 5], port: 22, timeout_secs: 2 },
            Action::Finish { output_changed: true, config_changed: false },
        ]
    );
}

#[test]
fn failed_handshake_closes_the_connection() {
    let mut main = Main::new();
    let start = main.get_config(ADDRESS.to_string(), "secret".to_string());
    let mut remote = |action: &Action| match action {
        Action::Handshake => Reply::Failed("banner recv failure".to_string()),
        _ => Reply::Done,
    };
    let asked = drive(&mut main, start, &mut remote);
    assert_eq!(main.output, "Failed to open session: banner recv failure");
    assert_eq!(
        asked,
        vec![
            Action::Connect { host: [10, 0, 0, 5], port: 22, timeout_secs: 2 },
            Action::Handshake,
            Action::Disconnect,
            Action::Finish { output_changed: true, config_changed: false },
        ]
    );
}

#[test]
fn rejected_password_closes_the_session() {
    let mut main = Main::new();
    let start = main.see_logs(ADDRESS.to_string(), "wrong".to_string(), "s1".to_string());
    let mut remote = |action: &Action| match action {
        Action::PasswordLogin { .. } => Reply::Failed("Authentication failed".to_string()),
        _ => Reply::Done,
    };
    let asked = drive(&mut main, start, &mut remote);
    assert_eq!(main.output, "Failed to open session: Authentication failed");
    assert_eq!(asked[asked.len() - 2], Action::Disconnect);
    assert_eq!(commands(&asked), Vec::<String>::new());
}

#[test]
fn failed_agent_listing_closes_the_session() {
    let mut main = Main::new();
    let start = main.see_logs(ADDRESS.to_string(), "\u{1F511}key1".to_string(), "s1".to_string());
    let mut remote = |action: &Action| match action {
        Action::ListIdentities => Reply::Failed("no agent".to_string()),
        _ => Reply::Done,
    };
    let asked = drive(&mut main, start, &mut remote);
    assert_eq!(main.output, "Failed to open session: no agent");
    assert_eq!(asked[asked.len() - 2], Action::Disconnect);
}

#[test]
fn start_node_shows_the_log_although_the_first_session_failed() {
    let mut main = Main::new();
    let start = main.start_node(ADDRESS.to_string(), "secret".to_string(), "s1".to_string());
    let mut logins = 0;
    let mut remote = |action: &Action| match action {
        Action::PasswordLogin { .. } => {
            logins += 1;
            if logins == 1 {
                Reply::Failed("Authentication failed".to_string())
            } else {
                Reply::Done
            }
        }
        Action::Execute { .. } => Reply::Output("the log".to_string()),
        _ => Reply::Done,
    };
    let asked = drive(&mut main, start, &mut remote);
    assert_eq!(
        commands(&asked),
        vec!["journalctl -ru duniter-s1.service -u distance-oracle -n 100".to_string()]
    );
    assert_eq!(main.output, "\nthe log");
    let closed = asked.iter().filter(|a| matches!(a, Action::Disconnect)).count();
    assert_eq!(closed, 2);
}

#[test]
fn failed_command_ends_the_operation() {
    let mut main = Main::new();
    let start = main.start_node(ADDRESS.to_string(), "secret".to_string(), "s1".to_string());
    let mut remote = |action: &Action| match action {
        Action::Execute { .. } => Reply::Failed("channel closed".to_string()),
        _ => Reply::Done,
    };
    let asked = drive(&mut main, start, &mut remote);
    assert_eq!(main.output, "Failed to open session: channel closed");
    assert_eq!(commands(&asked), vec!["sudo systemctl start duniter-s1.service".to_string()]);
    assert_eq!(
        &asked[asked.len() - 2..],
        &[Action::Disconnect, Action::Finish { output_changed: true, config_changed: false }]
    );
}

#[test]
fn failed_second_probe_replaces_the_first_finding() {
    let mut main = Main::new();
    let start = main.check_installation(ADDRESS.to_string(), "secret".to_string());
    let mut remote = |action: &Action| match action {
        Action::Execute { command, .. } => {
            if command == "command -v duniter2" {
                Reply::Output("/usr/bin/duniter2\n".to_string())
            } else {
                Reply::Failed("read failed".to_string())
            }
        }
        _ => Reply::Done,
    };
    drive(&mut main, start, &mut remote);
    assert_eq!(main.output, "Failed to open session: read failed");
}

#[test]
fn stages_follow_the_actions() {
    let mut main = Main::new();
    let (mut run, action) = main.get_config(ADDRESS.to_string(), "secret".to_string());
    assert!(matches!(action, Action::Connect { .. }));
    assert_eq!(run.stage(), Stage::Connecting);
    assert_eq!(main.step(&mut run, Reply::Done), Action::Handshake);
    assert_eq!(run.stage(), Stage::Handshaking);
    assert!(matches!(main.step(&mut run, Reply::Done), Action::PasswordLogin { .. }));
    assert_eq!(run.stage(), Stage::LoggingIn);
    assert!(matches!(main.step(&mut run, Reply::Done), Action::Execute { .. }));
    assert_eq!(run.stage(), Stage::Running(0));
    assert_eq!(main.step(&mut run, Reply::Output("a".to_string())), Action::Disconnect);
    assert_eq!(run.stage(), Stage::Closing);
    let end = Action::Finish { output_changed: false, config_changed: true };
    assert_eq!(main.step(&mut run, Reply::Done), end);
    assert_eq!(run.stage(), Stage::Finished);
    assert_eq!(main.step(&mut run, Reply::Output("late".to_string())), end);
    assert_eq!(main.config, "a");
}

#[test]
fn get_keys_lists_tokens_or_nothing() {
    let main = Main::new();
    let listing = Reply::Identities(vec![
        Identity::new("alice@laptop".to_string(), &[1, 2, 3]),
        Identity::new("".to_string(), &[255, 255]),
    ]);
    assert_eq!(
        main.get_keys(&listing),
        vec!["\u{1F511}alice@laptop6".to_string(), "\u{1F511}510".to_string()]
    );
    assert_eq!(main.get_keys(&Reply::Failed("no agent".to_string())), Vec::<String>::new());
    assert_eq!(main.get_keys(&Reply::Done), Vec::<String>::new());
    assert_eq!(main.get_keys(&Reply::Identities(Vec::new())), Vec::<String>::new());
}

#[test]
fn every_operation_ends_and_closes_what_it_opened() {
    let mut x: u32 = 99;
    let mut next = move |n: u32| {
        x = x.wrapping_mul(1_664_525).wrapping_add(1_013_904_223);
        (x >> 8) % n
    };
    for round in 0..3000 {
        let pass = if next(2) == 0 { "secret".to_string() } else { "\u{1F511}k7".to_string() };
        let mut main = Main::new();
        main.output = "before".to_string();
        main.config = "before".to_string();
        let (start, tasks) = match round % 8 {
            0 => (main.check_installation(ADDRESS.to_string(), pass), 1),
            1 => (main.see_logs(ADDRESS.to_string(), pass, "s1".to_string()), 1),
            2 => (main.start_node(ADDRESS.to_string(), pass, "s1".to_string()), 2),
            3 => (main.stop_node(ADDRESS.to_string(), pass, "s1".to_string()), 2),
            4 => (main.start_oracle(ADDRESS.to_string(), pass), 2),
            5 => (main.stop_oracle(ADDRESS.to_string(), pass), 2),
            6 => (main.get_config(ADDRESS.to_string(), pass), 1),
            _ => (main.write_config(ADDRESS.to_string(), pass, "A=1".to_string()), 1),
        };
        let mut open = false;
        let mut remote = |action: &Action| {
            let reply = match next(6) {
                0 => Reply::Failed("failed".to_string()),
                1 => Reply::Done,
                2 => Reply::Output("text".to_string()),
                3 => Reply::Identities(vec![Identity::new("k".to_string(), &[7])]),
                4 => Reply::Identities(Vec::new()),
                _ => Reply::Output(String::new()),
            };
            match action {
                Action::Connect { .. } => {
                    assert!(!open);
                    open = !matches!(reply, Reply::Failed(_));
                }
                Action::Disconnect => {
                    assert!(open);
                    open = false;
                }
                Action::Finish { .. } => panic!("asked to do something after the end"),
                _ => assert!(open),
            }
            reply
        };
        let asked = drive(&mut main, start, &mut remote);
        assert!(!open);
        assert!(asked.len() <= 7 * tasks + 1);
        match asked.last().unwrap() {
            Action::Finish { output_changed, config_changed } => {
                assert!(*output_changed || main.output == "before");
                assert!(*config_changed || main.config == "before");
            }
            _ => panic!("the last action is not the end"),
        }
    }
}

#[test]
fn tasks_know_their_commands() {
    let probe = Task::CheckInstallation;
    assert_eq!(probe.steps(), 2);
    assert_eq!(probe.command(0), "command -v duniter2");
    assert_eq!(probe.command(1), "systemctl list-unit-files | grep -iE 'duniter|distance-oracle'");
    assert!(probe.captures() && probe.writes_output() && !probe.writes_config());
    let logs = Task::NodeLogs("smith".to_string());
    assert_eq!(logs.steps(), 1);
    assert_eq!(logs.command(0), "journalctl -ru duniter-smith.service -u distance-oracle -n 100");
    assert!(logs.captures() && logs.writes_output() && !logs.writes_config());
    let oracle = Task::OracleLogs;
    assert_eq!(oracle.command(0), "journalctl -ru distance-oracle -n 100");
    assert!(oracle.captures() && oracle.writes_output());
    let read = Task::ReadConfig;
    assert_eq!(read.command(0), "sudo cat /etc/duniter/env_file");
    assert!(read.captures() && !read.writes_output() && read.writes_config());
    let plain = Task::Command("uptime".to_string());
    assert_eq!((plain.steps(), plain.command(0)), (1, "uptime".to_string()));
    assert!(!plain.captures() && !plain.writes_output() && !plain.writes_config());
}
