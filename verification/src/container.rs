//! Container lifecycle supervisor.
//!
//! The supervisor is an explicit state machine over one named guest. Every
//! lifecycle verb is split in two: a plan function (`create`, `start`,
//! `execute_target`, `stop`, `destroy`, `attach`) that, from the current
//! state alone, either refuses the verb or returns exactly the external
//! command(s) to issue, and an apply function (`*_finished`) that absorbs
//! the outcome of the issued command into the state. The unverified driver
//! spawns the planned commands and feeds the outcomes back; a verb refused
//! by its plan function issues no external invocation at all.

use vstd::prelude::*;
use vstd::string::StrSliceExecFns;
use vstd::string::StringExecFns;

use crate::executor::CommandOutcome;
use crate::text::split_char;
use crate::text::split_spec;
use crate::text::str_views;

verus! {

/// Lifecycle state of the one guest a supervisor owns.
#[derive(Debug, Clone, Copy, PartialEq, Eq, Structural)]
pub enum ContainerState {
    NotExist,
    Created,
    Running,
    Stopped,
}

/// One external privileged operation: a program, its argument list, and
/// the wall-clock budget the bounded executor races it against.
#[derive(Debug)]
pub struct CommandSpec {
    pub program: String,
    pub args: Vec<String>,
    pub timeout_secs: u64,
}

impl CommandSpec {
    /// The argument list as a sequence of character sequences.
    pub open spec fn argv(self) -> Seq<Seq<char>> {
        str_views(self.args@)
    }
}

/// The supervisor: immutable run configuration plus the current state.
#[derive(Debug)]
pub struct Container {
    pub container_name: String,
    pub distribution: String,
    pub release: String,
    pub arch: String,
    pub state: ContainerState,
    pub timeout: u64,
    pub mount_root_path: String,
}

/// `create` is legal only when no guest exists yet.
pub open spec fn create_enabled(s: ContainerState) -> bool {
    s is NotExist
}

/// `start` is legal from a freshly created or a stopped guest.
pub open spec fn start_enabled(s: ContainerState) -> bool {
    s is Created || s is Stopped
}

/// `attach`, `execute_target` and `stop` are legal only while running.
pub open spec fn running_enabled(s: ContainerState) -> bool {
    s is Running
}

/// `destroy` is legal from Created or Stopped; it is refused while the
/// guest is still running, so that telemetry extraction (part of `stop`)
/// can never be skipped.
pub open spec fn destroy_enabled(s: ContainerState) -> bool {
    s is Created || s is Stopped
}

/// State after the external create operation reported `o`.
pub open spec fn create_transition(s: ContainerState, o: CommandOutcome) -> ContainerState {
    if o is Success {
        ContainerState::Created
    } else {
        s
    }
}

/// State after the external start operation reported `o`.
pub open spec fn start_transition(s: ContainerState, o: CommandOutcome) -> ContainerState {
    if o is Success {
        ContainerState::Running
    } else {
        s
    }
}

/// State after the external stop operation reported `o`.
pub open spec fn stop_transition(s: ContainerState, o: CommandOutcome) -> ContainerState {
    if o is Success {
        ContainerState::Stopped
    } else {
        s
    }
}

/// State after the external destroy operation reported `o`.
pub open spec fn destroy_transition(s: ContainerState, o: CommandOutcome) -> ContainerState {
    if o is Success {
        ContainerState::NotExist
    } else {
        s
    }
}

/// The run configuration of `a` and `b` is the same; only the state may
/// differ.
pub open spec fn same_guest_spec(a: Container, b: Container) -> bool {
    &&& a.container_name == b.container_name
    &&& a.distribution == b.distribution
    &&& a.release == b.release
    &&& a.arch == b.arch
    &&& a.timeout == b.timeout
    &&& a.mount_root_path == b.mount_root_path
}

/// Argument list of the external create operation.
pub open spec fn create_argv(
    name: Seq<char>,
    dist: Seq<char>,
    release: Seq<char>,
    arch: Seq<char>,
) -> Seq<Seq<char>> {
    seq![
        "lxc-create"@,
        "-t"@,
        "download"@,
        "-n"@,
        name,
        "--"@,
        "-d"@,
        dist,
        "-r"@,
        release,
        "-a"@,
        arch,
    ]
}

/// Argument list of the external start operation.
pub open spec fn start_argv(name: Seq<char>) -> Seq<Seq<char>> {
    seq!["lxc-start"@, "-n"@, name]
}

/// Argument list of the external stop operation.
pub open spec fn stop_argv(name: Seq<char>) -> Seq<Seq<char>> {
    seq!["lxc-stop"@, "-n"@, name]
}

/// Argument list of the external destroy operation.
pub open spec fn destroy_argv(name: Seq<char>) -> Seq<Seq<char>> {
    seq!["lxc-destroy"@, "-n"@, name]
}

/// Leading arguments of every attach operation.
pub open spec fn attach_prefix(name: Seq<char>) -> Seq<Seq<char>> {
    seq!["lxc-attach"@, "-n"@, name, "--"@]
}

/// Argument list of an attach operation carrying `command`, which is split
/// on single spaces exactly as the shell-style invocation expects.
pub open spec fn attach_argv(name: Seq<char>, command: Seq<char>) -> Seq<Seq<char>> {
    attach_prefix(name) + split_spec(command, ' ')
}

/// What `start_finished` asks of the driver next: run the in-guest
/// provisioning step, or abort the run because the guest is unusable.
pub enum StartFollowUp {
    Provision(CommandSpec),
    Fatal,
}

/// The two attach commands `execute_target` plans: copy the staged binary
/// into the guest's working directory, then run it there.
pub struct ExecutePlan {
    pub copy: CommandSpec,
    pub run: CommandSpec,
}

/// The two commands `stop` plans. The telemetry extraction comes first:
/// the external stop verb must only be issued after the extraction attempt,
/// however the extraction went.
pub struct StopPlan {
    pub extract: CommandSpec,
    pub stop_cmd: CommandSpec,
}

impl Container {
    /// A supervisor for a guest that does not exist yet.
    pub fn new(
        container_name: String,
        distribution: String,
        release: String,
        arch: String,
        timeout: u64,
        mount_root_path: String,
    ) -> (r: Self)
        ensures
            r.container_name == container_name,
            r.distribution == distribution,
            r.release == release,
            r.arch == arch,
            r.state == ContainerState::NotExist,
            r.timeout == timeout,
            r.mount_root_path == mount_root_path,
    {
        Self {
            container_name,
            distribution,
            release,
            arch,
            state: ContainerState::NotExist,
            timeout,
            mount_root_path,
        }
    }

    /// Plans the external create operation, exactly when no guest exists.
    pub fn create(&self) -> (r: Option<CommandSpec>)
        ensures
            r is Some <==> create_enabled(self.state),
            match r {
                Some(cmd) => cmd.program@ == "sudo"@ && cmd.timeout_secs == self.timeout
                    && cmd.argv() == create_argv(
                    self.container_name@,
                    self.distribution@,
                    self.release@,
                    self.arch@,
                ),
                None => true,
            },
    {
        match self.state {
            ContainerState::NotExist => {
                let mut args: Vec<String> = Vec::new();
                args.push(String::from_str("lxc-create"));
                args.push(String::from_str("-t"));
                args.push(String::from_str("download"));
                args.push(String::from_str("-n"));
                args.push(self.container_name.clone());
                args.push(String::from_str("--"));
                args.push(String::from_str("-d"));
                args.push(self.distribution.clone());
                args.push(String::from_str("-r"));
                args.push(self.release.clone());
                args.push(String::from_str("-a"));
                args.push(self.arch.clone());
                assert(str_views(args@) =~= create_argv(
                    self.container_name@,
                    self.distribution@,
                    self.release@,
                    self.arch@,
                ));
                Some(CommandSpec { program: String::from_str("sudo"), args, timeout_secs: self.timeout })
            },
            _ => None,
        }
    }

    /// Absorbs the outcome of the create operation. Any outcome other than
    /// success is fatal: every later step needs a guest to exist.
    pub fn create_finished(&mut self, outcome: CommandOutcome) -> (fatal: bool)
        requires
            create_enabled(old(self).state),
        ensures
            final(self).state == create_transition(old(self).state, outcome),
            same_guest_spec(*old(self), *final(self)),
            fatal == !(outcome is Success),
    {
        match outcome {
            CommandOutcome::Success => {
                self.state = ContainerState::Created;
                false
            },
            _ => true,
        }
    }

    /// Plans the external start operation, exactly from Created or Stopped.
    /// A start requested from any other state is a guarded no-op: nothing
    /// is planned and the state is untouched.
    pub fn start(&self) -> (r: Option<CommandSpec>)
        ensures
            r is Some <==> start_enabled(self.state),
            match r {
                Some(cmd) => cmd.program@ == "sudo"@ && cmd.timeout_secs == self.timeout
                    && cmd.argv() == start_argv(self.container_name@),
                None => true,
            },
    {
        match self.state {
            ContainerState::Created | ContainerState::Stopped => {
                let mut args: Vec<String> = Vec::new();
                args.push(String::from_str("lxc-start"));
                args.push(String::from_str("-n"));
                args.push(self.container_name.clone());
                assert(str_views(args@) =~= start_argv(self.container_name@));
                Some(CommandSpec { program: String::from_str("sudo"), args, timeout_secs: self.timeout })
            },
            _ => None,
        }
    }

    /// Absorbs the outcome of the start operation. On success the guest is
    /// Running and the in-guest provisioning command (best effort: its own
    /// outcome is only logged) is handed back; any other outcome is fatal.
    pub fn start_finished(&mut self, outcome: CommandOutcome) -> (r: StartFollowUp)
        requires
            start_enabled(old(self).state),
        ensures
            final(self).state == start_transition(old(self).state, outcome),
            same_guest_spec(*old(self), *final(self)),
            match r {
                StartFollowUp::Provision(cmd) => outcome is Success && cmd.program@ == "sudo"@
                    && cmd.timeout_secs == old(self).timeout
                    && cmd.argv() == attach_prefix(old(self).container_name@) + seq![
                    "sh"@,
                    old(self).mount_root_path@ + "/setup.sh"@,
                ],
                StartFollowUp::Fatal => !(outcome is Success),
            },
    {
        match outcome {
            CommandOutcome::Success => {
                self.state = ContainerState::Running;
                let mut args: Vec<String> = Vec::new();
                args.push(String::from_str("lxc-attach"));
                args.push(String::from_str("-n"));
                args.push(self.container_name.clone());
                args.push(String::from_str("--"));
                args.push(String::from_str("sh"));
                let mut script = self.mount_root_path.clone();
                script.append("/setup.sh");
                args.push(script);
                assert(str_views(args@) =~= attach_prefix(self.container_name@) + seq![
                    "sh"@,
                    self.mount_root_path@ + "/setup.sh"@,
                ]);
                StartFollowUp::Provision(CommandSpec { program: String::from_str("sudo"), args, timeout_secs: self.timeout })
            },
            _ => StartFollowUp::Fatal,
        }
    }

    /// Plans one attach operation carrying `command`, exactly while the
    /// guest is Running. The command text is split on single spaces.
    pub fn attach(&self, command: &str) -> (r: Option<CommandSpec>)
        ensures
            r is Some <==> running_enabled(self.state),
            match r {
                Some(cmd) => cmd.program@ == "sudo"@ && cmd.timeout_secs == self.timeout
                    && cmd.argv() == attach_argv(self.container_name@, command@),
                None => true,
            },
    {
        match self.state {
            ContainerState::Running => Some(self.attach_command(command)),
            _ => None,
        }
    }

    /// Decides how to react to the outcome of an attach operation: a
    /// timeout escalates to an immediate stop of the guest; every other
    /// outcome is left to logging. Attach never changes the state itself.
    pub fn attach_finished(&self, outcome: CommandOutcome) -> (escalate_stop: bool)
        ensures
            escalate_stop == (outcome is TimedOut),
    {
        match outcome {
            CommandOutcome::TimedOut => true,
            _ => false,
        }
    }

    /// Plans the execution of the staged target binary, exactly while the
    /// guest is Running: copy the binary into the guest's working
    /// directory, then run it there. Execution never changes the state.
    pub fn execute_target(&self) -> (r: Option<ExecutePlan>)
        ensures
            r is Some <==> running_enabled(self.state),
            match r {
                Some(plan) => {
                    &&& plan.copy.program@ == "sudo"@
                    &&& plan.copy.timeout_secs == self.timeout
                    &&& plan.run.timeout_secs == self.timeout
                    &&& plan.copy.argv() == attach_argv(
                        self.container_name@,
                        "cp "@ + self.mount_root_path@ + "/target.elf /root/target.elf"@,
                    )
                    &&& plan.run.program@ == "sudo"@
                    &&& plan.run.argv() == attach_prefix(self.container_name@) + seq![
                        "bash"@,
                        "-c"@,
                        "cd /root && ./target.elf"@,
                    ]
                },
                None => true,
            },
    {
        match self.state {
            ContainerState::Running => {
                let mut copy_text = String::from_str("cp ");
                copy_text.append(self.mount_root_path.as_str());
                copy_text.append("/target.elf /root/target.elf");
                let copy = self.attach_command(copy_text.as_str());
                let mut args: Vec<String> = Vec::new();
                args.push(String::from_str("lxc-attach"));
                args.push(String::from_str("-n"));
                args.push(self.container_name.clone());
                args.push(String::from_str("--"));
                args.push(String::from_str("bash"));
                args.push(String::from_str("-c"));
                args.push(String::from_str("cd /root && ./target.elf"));
                assert(str_views(args@) =~= attach_prefix(self.container_name@) + seq![
                    "bash"@,
                    "-c"@,
                    "cd /root && ./target.elf"@,
                ]);
                let run = CommandSpec { program: String::from_str("sudo"), args, timeout_secs: self.timeout };
                Some(ExecutePlan { copy, run })
            },
            _ => None,
        }
    }

    /// Plans the stop of the guest, exactly while it is Running. The plan
    /// puts the telemetry extraction (an attach that copies the in-guest
    /// log out to the staging path) strictly before the external stop verb;
    /// the extraction is best effort and the stop proceeds however it went.
    pub fn stop(&self) -> (r: Option<StopPlan>)
        ensures
            r is Some <==> running_enabled(self.state),
            match r {
                Some(plan) => {
                    &&& plan.extract.program@ == "sudo"@
                    &&& plan.extract.timeout_secs == self.timeout
                    &&& plan.stop_cmd.timeout_secs == self.timeout
                    &&& plan.extract.argv() == attach_argv(
                        self.container_name@,
                        "cp /var/log/syslog "@ + self.mount_root_path@ + "/syslog"@,
                    )
                    &&& plan.stop_cmd.program@ == "sudo"@
                    &&& plan.stop_cmd.argv() == stop_argv(self.container_name@)
                },
                None => true,
            },
    {
        match self.state {
            ContainerState::Running => {
                let mut extract_text = String::from_str("cp /var/log/syslog ");
                extract_text.append(self.mount_root_path.as_str());
                extract_text.append("/syslog");
                let extract = self.attach_command(extract_text.as_str());
                let mut args: Vec<String> = Vec::new();
                args.push(String::from_str("lxc-stop"));
                args.push(String::from_str("-n"));
                args.push(self.container_name.clone());
                assert(str_views(args@) =~= stop_argv(self.container_name@));
                let stop_cmd = CommandSpec { program: String::from_str("sudo"), args, timeout_secs: self.timeout };
                Some(StopPlan { extract, stop_cmd })
            },
            _ => None,
        }
    }

    /// Absorbs the outcome of the external stop operation. Failure (or a
    /// timeout, treated alike) is logged by the driver and leaves the state
    /// unchanged; teardown goes on regardless.
    pub fn stop_finished(&mut self, outcome: CommandOutcome)
        requires
            running_enabled(old(self).state),
        ensures
            final(self).state == stop_transition(old(self).state, outcome),
            same_guest_spec(*old(self), *final(self)),
    {
        match outcome {
            CommandOutcome::Success => {
                self.state = ContainerState::Stopped;
            },
            _ => {},
        }
    }

    /// Plans the external destroy operation, exactly from Created or
    /// Stopped. Destroy is refused while the guest is Running — callers
    /// must stop first, so telemetry extraction is never skipped — and
    /// refused when no guest exists.
    pub fn destroy(&self) -> (r: Option<CommandSpec>)
        ensures
            r is Some <==> destroy_enabled(self.state),
            match r {
                Some(cmd) => cmd.program@ == "sudo"@ && cmd.timeout_secs == self.timeout
                    && cmd.argv() == destroy_argv(self.container_name@),
                None => true,
            },
    {
        match self.state {
            ContainerState::Created | ContainerState::Stopped => {
                let mut args: Vec<String> = Vec::new();
                args.push(String::from_str("lxc-destroy"));
                args.push(String::from_str("-n"));
                args.push(self.container_name.clone());
                assert(str_views(args@) =~= destroy_argv(self.container_name@));
                Some(CommandSpec { program: String::from_str("sudo"), args, timeout_secs: self.timeout })
            },
            _ => None,
        }
    }

    /// Absorbs the outcome of the destroy operation. Failure is logged and
    /// non-fatal: the state then stays as it was.
    pub fn destroy_finished(&mut self, outcome: CommandOutcome)
        requires
            destroy_enabled(old(self).state),
        ensures
            final(self).state == destroy_transition(old(self).state, outcome),
            same_guest_spec(*old(self), *final(self)),
    {
        match outcome {
            CommandOutcome::Success => {
                self.state = ContainerState::NotExist;
            },
            _ => {},
        }
    }

    /// Path of the guest's configuration file under the runtime's library
    /// directory, where the bind-mount entry is appended.
    pub fn config_file_path(&self) -> (r: String)
        ensures
            r@ == "/var/lib/lxc/"@ + self.container_name@ + "/config"@,
    {
        let mut path = String::from_str("/var/lib/lxc/");
        path.append(self.container_name.as_str());
        path.append("/config");
        path
    }

    /// Builds the attach command for `command` without a state guard.
    fn attach_command(&self, command: &str) -> (r: CommandSpec)
        ensures
            r.program@ == "sudo"@,
            r.timeout_secs == self.timeout,
            r.argv() == attach_argv(self.container_name@, command@),
    {
        let mut args: Vec<String> = Vec::new();
        args.push(String::from_str("lxc-attach"));
        args.push(String::from_str("-n"));
        args.push(self.container_name.clone());
        args.push(String::from_str("--"));
        let mut rest = split_char(command, ' ');
        let ghost rest_pieces = rest@;
        args.append(&mut rest);
        assert(str_views(args@) =~= attach_prefix(self.container_name@) + str_views(rest_pieces));
        CommandSpec { program: String::from_str("sudo"), args, timeout_secs: self.timeout }
    }
}

/// The in-guest bind-mount configuration line for the staging directory:
/// the mount root loses a leading slash (the in-guest path is relative in
/// the runtime's configuration syntax).
pub open spec fn spec_mount_entry_line(mount_dir: Seq<char>, mount_root: Seq<char>) -> Seq<char> {
    let stripped = if mount_root.len() > 0 && mount_root[0] == '/' {
        mount_root.subrange(1, mount_root.len() as int)
    } else {
        mount_root
    };
    "lxc.mount.entry = "@ + mount_dir + " "@ + stripped + " none bind,create=dir 0 0"@
}

/// Builds the bind-mount configuration line injected between create and
/// start.
pub fn mount_entry_line(mount_dir: &str, mount_root: &str) -> (r: String)
    ensures
        r@ == spec_mount_entry_line(mount_dir@, mount_root@),
{
    let rootlen = mount_root.unicode_len();
    let mut line = String::from_str("lxc.mount.entry = ");
    line.append(mount_dir);
    line.append(" ");
    if rootlen > 0 && mount_root.get_char(0) == '/' {
        line.append(mount_root.substring_char(1, rootlen));
    } else {
        line.append(mount_root);
    }
    line.append(" none bind,create=dir 0 0");
    line
}

/// Starting transitions the state only once: from Created or Stopped a
/// successful start leaves the guest Running, and a second start is then
/// disabled — it plans no external invocation and the state remains
/// Running.
pub proof fn lemma_start_transitions_once(s: ContainerState)
    requires
        start_enabled(s),
    ensures
        start_transition(s, CommandOutcome::Success) == ContainerState::Running,
        !start_enabled(start_transition(s, CommandOutcome::Success)),
        start_transition(ContainerState::Running, CommandOutcome::Success)
            == ContainerState::Running,
{
}

/// Destroy is refused while the guest is Running: the verb is not enabled,
/// so no external invocation is planned and the state is unchanged.
pub proof fn lemma_destroy_refused_while_running()
    ensures
        !destroy_enabled(ContainerState::Running),
{
}

} // verus!
