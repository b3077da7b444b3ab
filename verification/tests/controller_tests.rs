use macprox::controller::{
    Completion, Controller, Goal, Phase, ProbeOutcome, Step, GRACE_SECONDS,
};
use macprox::request::ValidationError;
use macprox::status::{ConnectionOutcome, FailureReason};

/// What the outside world answers in a test, and what it was asked to do.
struct World {
    created: Option<String>,
    spawned: Result<u32, String>,
    exit: Option<String>,
    unreadable: bool,
    log: Vec<String>,
    phases: Vec<Phase>,
}

fn world(created: Option<&str>, spawned: Result<u32, &str>, exit: Option<&str>) -> World {
    World {
        created: created.map(|s| s.to_string()),
        spawned: spawned.map_err(|e| e.to_string()),
        exit: exit.map(|s| s.to_string()),
        unreadable: false,
        log: Vec::new(),
        phases: Vec::new(),
    }
}

/// Does what each step asks for, in the world given, until the sequence ends.
fn drive(controller: &mut Controller<u32>, first: Step<u32>, world: &mut World) -> Completion {
    let mut step = first;
    loop {
        world.phases.push(step.phase());
        step = match step {
            Step::StopProcess { process, goal } => {
                world.log.push(format!("stop {}", process));
                controller.process_stopped(goal)
            }
            Step::EraseHelper { path, goal } => {
                world.log.push(format!("erase {}", path));
                controller.helper_erased(goal)
            }
            Step::CreateHelper { helper, request } => {
                world.log.push(format!("create {} {:o}", helper.file_name, helper.mode));
                controller.helper_created(request, world.created.clone())
            }
            Step::Spawn { invocation, display_name } => {
                world.log.push(format!(
                    "spawn {} env {} [{}]",
                    invocation.program,
                    invocation.env.len(),
                    invocation.args[9]
                ));
                controller.spawn_finished(display_name, world.spawned.clone())
            }
            Step::Probe { process, grace_seconds, display_name } => {
                world.log.push(format!("probe {} after {}", process, grace_seconds));
                let found = match &world.exit {
                    Some(status) => ProbeOutcome::Exited(status.clone()),
                    None if world.unreadable => ProbeOutcome::Unknown(process),
                    None => ProbeOutcome::Running(process),
                };
                controller.probe_finished(display_name, found)
            }
            Step::Finished(completion) => return completion,
        };
    }
}

fn connect_with(
    controller: &mut Controller<u32>,
    port: &str,
    password: Option<&str>,
    world: &mut World,
) -> Completion {
    let first = controller.connect(None, "example.com", port, "bob", password);
    drive(controller, first, world)
}

const PLAIN: &str =
    "ssh -p 22 -o ExitOnForwardFailure=yes -o ServerAliveInterval=15 -o ServerAliveCountMax=3";
const FORCED: &str = "ssh -p 22 -o ExitOnForwardFailure=yes -o ServerAliveInterval=15 \
                      -o ServerAliveCountMax=3 -o PreferredAuthentications=password \
                      -o PubkeyAuthentication=no -o NumberOfPasswordPrompts=1";

#[test]
fn new_controller_is_idle() {
    let controller: Controller<u32> = Controller::new(1);
    assert!(!controller.is_connected());
    assert_eq!(controller.status(), "");
    assert!(!controller.handle().has_process());
    assert_eq!(controller.handle().helper_path(), None);
    assert_eq!(GRACE_SECONDS, 4);
}

#[test]
fn connect_with_empty_host_or_username_touches_nothing() {
    let forms = [("", "bob"), ("   ", "bob"), ("example.com", ""), ("example.com", " \t"), ("", "")];
    for (host, user) in forms {
        let mut controller: Controller<u32> = Controller::new(1);
        let mut w = world(Some("/tmp/h.sh"), Ok(7), None);
        let first = controller.connect(Some("x"), host, "22", user, Some("pw"));
        assert_eq!(first.phase(), Phase::Idle);
        let done = drive(&mut controller, first, &mut w);
        let expected = if host.trim().is_empty() {
            ValidationError::EmptyHost
        } else {
            ValidationError::EmptyUsername
        };
        assert_eq!(
            done,
            Completion::Connect(ConnectionOutcome::Failed(FailureReason::Validation(expected)))
        );
        assert!(w.log.is_empty());
        assert!(!controller.handle().has_process());
        assert_eq!(controller.handle().helper_path(), None);
        assert!(!controller.is_connected());
        assert_eq!(controller.status(), "Server and Username required");
    }
}

#[test]
fn invalid_form_leaves_the_handle_alone() {
    let mut controller: Controller<u32> = Controller::new(1);
    // A helper path is in the handle, left there by an attempt under way.
    let request = macprox::request::ConnectionRequest::from_form(None, "h", "22", "u", Some("p"))
        .ok()
        .unwrap();
    let _ = controller.helper_created(request, Some("/tmp/h.sh".to_string()));
    let step = controller.connect(None, "", "22", "bob", None);
    assert!(matches!(
        step,
        Step::Finished(Completion::Connect(ConnectionOutcome::Failed(
            FailureReason::Validation(ValidationError::EmptyHost)
        )))
    ));
    assert_eq!(controller.handle().helper_path(), Some("/tmp/h.sh"));
    assert!(!controller.handle().has_process());
}

#[test]
fn scenario_without_password_creates_no_helper() {
    let mut controller: Controller<u32> = Controller::new(77);
    let mut w = world(Some("/tmp/unused.sh"), Ok(100), None);
    let done = connect_with(&mut controller, "22", None, &mut w);
    assert_eq!(
        done,
        Completion::Connect(ConnectionOutcome::Connected("bob@example.com:22".to_string()))
    );
    assert_eq!(w.log, vec![format!("spawn sshuttle env 0 [{}]", PLAIN), "probe 100 after 4".to_string()]);
    assert_eq!(controller.handle().helper_path(), None);
    assert!(controller.handle().has_process());
    assert!(controller.is_connected());
}

#[test]
fn scenario_with_password_and_unreadable_port() {
    let mut controller: Controller<u32> = Controller::new(77);
    let mut w = world(Some("/tmp/macprox_askpass_77.sh"), Ok(100), None);
    let done = connect_with(&mut controller, "abc", Some("x"), &mut w);
    assert_eq!(
        done,
        Completion::Connect(ConnectionOutcome::Connected("bob@example.com:22".to_string()))
    );
    assert_eq!(
        w.log,
        vec![
            "create macprox_askpass_77.sh 700".to_string(),
            format!("spawn sshuttle env 4 [{}]", FORCED),
            "probe 100 after 4".to_string(),
        ]
    );
    assert_eq!(controller.handle().helper_path(), Some("/tmp/macprox_askpass_77.sh"));
    assert_eq!(controller.status(), "Connected via sshuttle: bob@example.com:22");

    let mut w = world(None, Err("unused"), None);
    let first = controller.disconnect();
    let done = drive(&mut controller, first, &mut w);
    assert_eq!(done, Completion::Disconnected);
    assert_eq!(w.log, vec!["stop 100", "erase /tmp/macprox_askpass_77.sh"]);
    assert_eq!(controller.handle().helper_path(), None);
    assert!(!controller.handle().has_process());
    assert!(!controller.is_connected());
    assert_eq!(controller.status(), "Disconnected");
}

#[test]
fn scenario_early_exit_fails_and_erases_the_helper() {
    let mut controller: Controller<u32> = Controller::new(5);
    let mut w = world(Some("/tmp/macprox_askpass_5.sh"), Ok(100), Some("exit status: 255"));
    let done = connect_with(&mut controller, "22", Some("wrong"), &mut w);
    assert_eq!(
        done,
        Completion::Connect(ConnectionOutcome::Failed(FailureReason::EarlyExit(
            "exit status: 255".to_string()
        )))
    );
    assert_eq!(
        w.log,
        vec![
            "create macprox_askpass_5.sh 700".to_string(),
            format!("spawn sshuttle env 4 [{}]", FORCED),
            "probe 100 after 4".to_string(),
            "erase /tmp/macprox_askpass_5.sh".to_string(),
        ]
    );
    assert!(!controller.is_connected());
    assert!(!controller.handle().has_process());
    assert_eq!(controller.handle().helper_path(), None);
    assert_eq!(controller.status(), "Connection failed: exit status: 255");
}

#[test]
fn early_exit_without_password_has_nothing_to_erase() {
    let mut controller: Controller<u32> = Controller::new(5);
    let mut w = world(None, Ok(100), Some("exit status: 1"));
    let done = connect_with(&mut controller, "22", None, &mut w);
    assert_eq!(
        done,
        Completion::Connect(ConnectionOutcome::Failed(FailureReason::EarlyExit(
            "exit status: 1".to_string()
        )))
    );
    assert_eq!(w.log.len(), 2);
    assert!(!controller.is_connected());
    assert!(!controller.handle().has_process());
}

#[test]
fn scenario_still_running_connects_and_keeps_the_helper() {
    let mut controller: Controller<u32> = Controller::new(5);
    let mut w = world(Some("/tmp/macprox_askpass_5.sh"), Ok(100), None);
    let first = controller.connect(Some(" office "), "example.com", "22", "bob", Some("pw"));
    assert_eq!(controller.status(), "Connecting to office...");
    assert_eq!(first.phase(), Phase::Connecting);
    let done = drive(&mut controller, first, &mut w);
    assert_eq!(done, Completion::Connect(ConnectionOutcome::Connected("office".to_string())));
    assert!(controller.is_connected());
    assert!(controller.handle().has_process());
    assert_eq!(controller.handle().helper_path(), Some("/tmp/macprox_askpass_5.sh"));
    assert_eq!(controller.status(), "Connected via sshuttle: office");
    assert!(!w.log.iter().any(|line| line.starts_with("erase")));
}

#[test]
fn unreadable_process_state_counts_as_running() {
    let mut controller: Controller<u32> = Controller::new(5);
    let mut w = world(None, Ok(100), None);
    w.unreadable = true;
    let done = connect_with(&mut controller, "22", None, &mut w);
    assert_eq!(
        done,
        Completion::Connect(ConnectionOutcome::Connected("bob@example.com:22".to_string()))
    );
    assert!(controller.is_connected());
}

#[test]
fn scenario_connect_while_connected_touches_nothing() {
    let mut controller: Controller<u32> = Controller::new(5);
    let mut w = world(Some("/tmp/macprox_askpass_5.sh"), Ok(100), None);
    let _ = connect_with(&mut controller, "22", Some("pw"), &mut w);
    let mut w = world(Some("/tmp/other.sh"), Ok(200), None);
    let first = controller.connect(None, "other.example", "22", "eve", Some("pw"));
    assert_eq!(first.phase(), Phase::Connected);
    let done = drive(&mut controller, first, &mut w);
    assert_eq!(done, Completion::Connect(ConnectionOutcome::AlreadyConnected));
    assert!(w.log.is_empty());
    assert!(controller.is_connected());
    assert_eq!(controller.handle().helper_path(), Some("/tmp/macprox_askpass_5.sh"));
    assert_eq!(controller.status(), "Already connected. Disconnect first.");
    let mut w = world(None, Err("unused"), None);
    let first = controller.disconnect();
    let _ = drive(&mut controller, first, &mut w);
    assert_eq!(w.log, vec!["stop 100", "erase /tmp/macprox_askpass_5.sh"]);
}

#[test]
fn already_connected_comes_before_the_checks() {
    let mut controller: Controller<u32> = Controller::new(5);
    let _ = controller.probe_finished("x".to_string(), ProbeOutcome::Running(9));
    let step = controller.connect(None, "", "", "", None);
    assert!(matches!(
        step,
        Step::Finished(Completion::Connect(ConnectionOutcome::AlreadyConnected))
    ));
}

#[test]
fn helper_failure_ends_the_attempt_before_any_spawn() {
    let mut controller: Controller<u32> = Controller::new(5);
    let mut w = world(None, Ok(100), None);
    let done = connect_with(&mut controller, "22", Some("pw"), &mut w);
    assert_eq!(done, Completion::Connect(ConnectionOutcome::Failed(FailureReason::HelperCreation)));
    assert_eq!(w.log, vec!["create macprox_askpass_5.sh 700"]);
    assert!(!controller.is_connected());
    assert!(!controller.handle().has_process());
    assert_eq!(controller.handle().helper_path(), None);
    assert_eq!(controller.status(), "Failed to create askpass helper");
}

#[test]
fn spawn_failure_is_reported_and_cleaned_up_after() {
    let mut controller: Controller<u32> = Controller::new(5);
    let mut w = world(Some("/tmp/macprox_askpass_5.sh"), Err("No such file or directory"), None);
    let done = connect_with(&mut controller, "22", Some("pw"), &mut w);
    assert_eq!(
        done,
        Completion::Connect(ConnectionOutcome::Failed(FailureReason::Spawn(
            "No such file or directory".to_string()
        )))
    );
    assert_eq!(
        w.log,
        vec![
            "create macprox_askpass_5.sh 700".to_string(),
            format!("spawn sshuttle env 4 [{}]", FORCED),
            "erase /tmp/macprox_askpass_5.sh".to_string(),
        ]
    );
    assert!(!controller.is_connected());
    assert_eq!(controller.handle().helper_path(), None);
    assert_eq!(controller.status(), "Failed to start sshuttle: No such file or directory");
}

#[test]
fn disconnect_when_nothing_is_connected_only_reports() {
    let mut controller: Controller<u32> = Controller::new(5);
    let step = controller.disconnect();
    assert!(matches!(step, Step::Finished(Completion::Disconnected)));
    assert_eq!(controller.status(), "Disconnected");
    assert!(!controller.is_connected());
    let step = controller.disconnect();
    assert!(matches!(step, Step::Finished(Completion::Disconnected)));
    assert_eq!(controller.status(), "Disconnected");
}

#[test]
fn disconnect_stops_the_process_before_it_erases_the_helper() {
    let mut controller: Controller<u32> = Controller::new(5);
    let mut w = world(Some("/tmp/macprox_askpass_5.sh"), Ok(100), None);
    let _ = connect_with(&mut controller, "22", Some("pw"), &mut w);

    let step = controller.disconnect();
    assert_eq!(step.phase(), Phase::Disconnecting);
    // While the process is being stopped the helper is still in the handle.
    assert_eq!(controller.handle().helper_path(), Some("/tmp/macprox_askpass_5.sh"));
    assert!(!controller.handle().has_process());
    let goal = match step {
        Step::StopProcess { process, goal } => {
            assert_eq!(process, 100);
            goal
        }
        _ => panic!("the process must be stopped first"),
    };
    let step = controller.process_stopped(goal);
    assert_eq!(controller.handle().helper_path(), None);
    let goal = match step {
        Step::EraseHelper { path, goal } => {
            assert_eq!(path, "/tmp/macprox_askpass_5.sh");
            goal
        }
        _ => panic!("the helper must be erased next"),
    };
    assert!(controller.is_connected());
    let step = controller.helper_erased(goal);
    assert!(matches!(step, Step::Finished(Completion::Disconnected)));
    assert!(!controller.is_connected());
}

#[test]
fn connect_cleans_up_what_an_earlier_sequence_left() {
    let mut controller: Controller<u32> = Controller::new(5);
    // A process that outlived its probe after a disconnect had run.
    let _ = controller.probe_finished("stale".to_string(), ProbeOutcome::Running(9));
    let first = controller.disconnect();
    let goal = match first {
        Step::StopProcess { goal, .. } => goal,
        _ => panic!("a process was held"),
    };
    let _ = controller.probe_finished("stale".to_string(), ProbeOutcome::Running(10));
    let _ = controller.process_stopped(goal);
    assert!(!controller.is_connected());
    assert!(controller.handle().has_process());

    let mut w = world(None, Ok(100), None);
    let done = connect_with(&mut controller, "22", None, &mut w);
    assert_eq!(w.log[0], "stop 10");
    assert_eq!(
        done,
        Completion::Connect(ConnectionOutcome::Connected("bob@example.com:22".to_string()))
    );
}

#[test]
fn disconnect_during_the_grace_period_finds_no_process() {
    let mut controller: Controller<u32> = Controller::new(5);
    let first = controller.connect(None, "example.com", "22", "bob", Some("pw"));
    let request = match first {
        Step::CreateHelper { request, .. } => request,
        _ => panic!("a helper is needed"),
    };
    let spawn = controller.helper_created(request, Some("/tmp/macprox_askpass_5.sh".to_string()));
    let name = match spawn {
        Step::Spawn { display_name, .. } => display_name,
        _ => panic!("the tool is started next"),
    };
    let probe = controller.spawn_finished(name, Ok(100));
    let (process, name) = match probe {
        Step::Probe { process, display_name, grace_seconds } => {
            assert_eq!(grace_seconds, 4);
            (process, display_name)
        }
        _ => panic!("the process is watched next"),
    };

    // A disconnect comes in while the process is being watched.
    let mut w = world(None, Err("unused"), None);
    let first = controller.disconnect();
    let done = drive(&mut controller, first, &mut w);
    assert_eq!(done, Completion::Disconnected);
    assert_eq!(w.log, vec!["erase /tmp/macprox_askpass_5.sh"]);

    // The attempt goes on: the process is still running.
    let step = controller.probe_finished(name, ProbeOutcome::Running(process));
    assert!(matches!(step, Step::Finished(Completion::Connect(ConnectionOutcome::Connected(_)))));
    assert!(controller.is_connected());
    assert!(controller.handle().has_process());
    assert_eq!(controller.handle().helper_path(), None);
}

#[test]
fn two_disconnects_at_once_act_on_each_resource_once() {
    let mut controller: Controller<u32> = Controller::new(5);
    let mut w = world(Some("/tmp/macprox_askpass_5.sh"), Ok(100), None);
    let _ = connect_with(&mut controller, "22", Some("pw"), &mut w);

    let first = controller.disconnect();
    let second = controller.disconnect();
    let mut stops = 0;
    let mut erases = 0;
    for start in [first, second] {
        let mut step = start;
        loop {
            step = match step {
                Step::StopProcess { goal, .. } => {
                    stops += 1;
                    controller.process_stopped(goal)
                }
                Step::EraseHelper { goal, .. } => {
                    erases += 1;
                    controller.helper_erased(goal)
                }
                Step::Finished(done) => {
                    assert_eq!(done, Completion::Disconnected);
                    break;
                }
                _ => panic!("a disconnect only cleans up"),
            };
        }
    }
    assert_eq!(stops, 1);
    assert_eq!(erases, 1);
    assert!(!controller.is_connected());
}

#[test]
fn phases_of_a_connect_and_a_disconnect() {
    let mut controller: Controller<u32> = Controller::new(5);
    let mut w = world(Some("/tmp/macprox_askpass_5.sh"), Ok(100), None);
    let _ = connect_with(&mut controller, "22", Some("pw"), &mut w);
    assert_eq!(
        w.phases,
        vec![Phase::Connecting, Phase::Connecting, Phase::Connecting, Phase::Connected]
    );
    let mut w = world(None, Err("unused"), None);
    let first = controller.disconnect();
    let _ = drive(&mut controller, first, &mut w);
    assert_eq!(w.phases, vec![Phase::Disconnecting, Phase::Disconnecting, Phase::Idle]);
    let mut w = world(None, Ok(1), Some("exit status: 1"));
    let _ = connect_with(&mut controller, "22", None, &mut w);
    assert_eq!(w.phases, vec![Phase::Connecting, Phase::Connecting, Phase::Idle]);
}

#[test]
fn failure_goal_ends_without_touching_the_front_end() {
    let mut controller: Controller<u32> = Controller::new(5);
    let step = controller.helper_erased(Goal::Fail(FailureReason::HelperCreation));
    assert!(matches!(
        step,
        Step::Finished(Completion::Connect(ConnectionOutcome::Failed(FailureReason::HelperCreation)))
    ));
    assert_eq!(controller.status(), "");
    assert!(!controller.is_connected());
}
