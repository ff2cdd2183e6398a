use sandbox::container::{
    mount_entry_line, Container, ContainerState, StartFollowUp,
};
use sandbox::executor::{bounded_outcome, classify_exit_code, CommandOutcome, ExitStatus};

fn new_container() -> Container {
    Container::new(
        String::from("sandbox"),
        String::from("ubuntu"),
        String::from("jammy"),
        String::from("amd64"),
        60,
        String::from("/mnt/sandtmp"),
    )
}

fn args_of(cmd: &sandbox::container::CommandSpec) -> Vec<&str> {
    cmd.args.iter().map(|a| a.as_str()).collect()
}

#[test]
fn new_container_does_not_exist_yet() {
    let c = new_container();
    assert_eq!(c.state, ContainerState::NotExist);
    assert_eq!(c.timeout, 60);
    assert_eq!(c.mount_root_path, "/mnt/sandtmp");
}

#[test]
fn create_plans_exact_command() {
    let c = new_container();
    let cmd = c.create().expect("create must be enabled from NotExist");
    assert_eq!(cmd.program, "sudo");
    assert_eq!(cmd.timeout_secs, 60);
    assert_eq!(
        args_of(&cmd),
        vec![
            "lxc-create",
            "-t",
            "download",
            "-n",
            "sandbox",
            "--",
            "-d",
            "ubuntu",
            "-r",
            "jammy",
            "-a",
            "amd64"
        ]
    );
}

#[test]
fn create_failure_is_fatal_and_keeps_state() {
    let mut c = new_container();
    assert!(c.create().is_some());
    let fatal = c.create_finished(CommandOutcome::Failure(1));
    assert!(fatal);
    assert_eq!(c.state, ContainerState::NotExist);
    let mut c2 = new_container();
    assert!(c2.create().is_some());
    let fatal2 = c2.create_finished(CommandOutcome::TimedOut);
    assert!(fatal2);
    assert_eq!(c2.state, ContainerState::NotExist);
}

#[test]
fn create_twice_is_refused() {
    let mut c = new_container();
    assert!(c.create().is_some());
    assert!(!c.create_finished(CommandOutcome::Success));
    assert_eq!(c.state, ContainerState::Created);
    assert!(c.create().is_none());
}

#[test]
fn start_twice_transitions_only_once() {
    let mut c = new_container();
    c.create();
    c.create_finished(CommandOutcome::Success);
    let cmd = c.start().expect("start must be enabled from Created");
    assert_eq!(args_of(&cmd), vec!["lxc-start", "-n", "sandbox"]);
    match c.start_finished(CommandOutcome::Success) {
        StartFollowUp::Provision(provision) => {
            assert_eq!(
                args_of(&provision),
                vec!["lxc-attach", "-n", "sandbox", "--", "sh", "/mnt/sandtmp/setup.sh"]
            );
        }
        StartFollowUp::Fatal => panic!("successful start must provision"),
    }
    assert_eq!(c.state, ContainerState::Running);
    assert!(c.start().is_none());
    assert_eq!(c.state, ContainerState::Running);
}

#[test]
fn start_failure_is_fatal() {
    let mut c = new_container();
    c.create();
    c.create_finished(CommandOutcome::Success);
    assert!(c.start().is_some());
    match c.start_finished(CommandOutcome::TimedOut) {
        StartFollowUp::Provision(_) => panic!("timed-out start must be fatal"),
        StartFollowUp::Fatal => {}
    }
    assert_eq!(c.state, ContainerState::Created);
}

#[test]
fn destroy_refused_while_running() {
    let mut c = new_container();
    c.create();
    c.create_finished(CommandOutcome::Success);
    c.start();
    c.start_finished(CommandOutcome::Success);
    assert_eq!(c.state, ContainerState::Running);
    assert!(c.destroy().is_none());
    assert_eq!(c.state, ContainerState::Running);
}

#[test]
fn stop_extracts_telemetry_before_stop_verb() {
    let mut c = new_container();
    c.create();
    c.create_finished(CommandOutcome::Success);
    c.start();
    c.start_finished(CommandOutcome::Success);
    let plan = c.stop().expect("stop must be enabled while Running");
    assert_eq!(
        args_of(&plan.extract),
        vec![
            "lxc-attach",
            "-n",
            "sandbox",
            "--",
            "cp",
            "/var/log/syslog",
            "/mnt/sandtmp/syslog"
        ]
    );
    assert_eq!(args_of(&plan.stop_cmd), vec!["lxc-stop", "-n", "sandbox"]);
    c.stop_finished(CommandOutcome::Success);
    assert_eq!(c.state, ContainerState::Stopped);
}

#[test]
fn failed_stop_keeps_running_state() {
    let mut c = new_container();
    c.create();
    c.create_finished(CommandOutcome::Success);
    c.start();
    c.start_finished(CommandOutcome::Success);
    assert!(c.stop().is_some());
    c.stop_finished(CommandOutcome::Failure(1));
    assert_eq!(c.state, ContainerState::Running);
}

#[test]
fn full_lifecycle_reaches_not_exist() {
    let mut c = new_container();
    c.create();
    c.create_finished(CommandOutcome::Success);
    c.start();
    c.start_finished(CommandOutcome::Success);
    let plan = c.execute_target().expect("execution is enabled while Running");
    assert_eq!(
        args_of(&plan.copy),
        vec![
            "lxc-attach",
            "-n",
            "sandbox",
            "--",
            "cp",
            "/mnt/sandtmp/target.elf",
            "/root/target.elf"
        ]
    );
    assert_eq!(
        args_of(&plan.run),
        vec!["lxc-attach", "-n", "sandbox", "--", "bash", "-c", "cd /root && ./target.elf"]
    );
    assert_eq!(c.state, ContainerState::Running);
    c.stop();
    c.stop_finished(CommandOutcome::Success);
    let destroy_cmd = c.destroy().expect("destroy is enabled from Stopped");
    assert_eq!(args_of(&destroy_cmd), vec!["lxc-destroy", "-n", "sandbox"]);
    c.destroy_finished(CommandOutcome::Success);
    assert_eq!(c.state, ContainerState::NotExist);
}

#[test]
fn attach_refused_unless_running() {
    let mut c = new_container();
    assert!(c.attach("ls -l").is_none());
    assert!(c.execute_target().is_none());
    assert!(c.stop().is_none());
    c.create();
    c.create_finished(CommandOutcome::Success);
    assert!(c.attach("ls -l").is_none());
    c.start();
    c.start_finished(CommandOutcome::Success);
    let cmd = c.attach("ls -l /root").expect("attach is enabled while Running");
    assert_eq!(
        args_of(&cmd),
        vec!["lxc-attach", "-n", "sandbox", "--", "ls", "-l", "/root"]
    );
}

#[test]
fn attach_timeout_escalates_to_stop() {
    let c = new_container();
    assert!(c.attach_finished(CommandOutcome::TimedOut));
    assert!(!c.attach_finished(CommandOutcome::Success));
    assert!(!c.attach_finished(CommandOutcome::Failure(3)));
}

#[test]
fn config_path_and_mount_entry_line() {
    let c = new_container();
    assert_eq!(c.config_file_path(), "/var/lib/lxc/sandbox/config");
    assert_eq!(
        mount_entry_line("/tmp/stage", "/mnt/sandtmp"),
        "lxc.mount.entry = /tmp/stage mnt/sandtmp none bind,create=dir 0 0"
    );
    assert_eq!(
        mount_entry_line("/tmp/stage", "relative/path"),
        "lxc.mount.entry = /tmp/stage relative/path none bind,create=dir 0 0"
    );
}

#[test]
fn timeout_is_distinct_from_immediate_failure() {
    let (outcome, must_kill) = bounded_outcome(None);
    assert_eq!(outcome, CommandOutcome::TimedOut);
    assert!(must_kill);
    let (outcome2, must_kill2) = bounded_outcome(Some(Some(1)));
    assert_eq!(outcome2, CommandOutcome::Failure(1));
    assert!(!must_kill2);
    assert_ne!(outcome, outcome2);
}

#[test]
fn exit_classification() {
    let (ok, kill) = bounded_outcome(Some(Some(0)));
    assert_eq!(ok, CommandOutcome::Success);
    assert!(!kill);
    let (signalled, kill2) = bounded_outcome(Some(None));
    assert_eq!(signalled, CommandOutcome::Failure(-1));
    assert!(!kill2);
    assert_eq!(classify_exit_code(0), ExitStatus::Successful);
    assert_eq!(classify_exit_code(7), ExitStatus::Unsuccessful(7));
}
