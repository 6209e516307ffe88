//! Service managers: which one runs the mihomo service, and which command each
//! service action amounts to under it.
pub mod launchd;
pub mod systemd;

use vstd::prelude::*;

use self::systemd::{user_verb, Systemctl};
use crate::text::{chars_eq, chars_of};

verus! {

broadcast use vstd::string::group_string_axioms;

/// A program to run and its arguments.
pub struct ProgramCall {
    pub program: String,
    pub args: Vec<String>,
}

/// The service manager asked for in the configuration.
#[derive(Debug, Clone, Copy, PartialEq, Eq, Structural)]
pub enum ServiceManagerKind {
    Auto,
    Systemd,
    Launchd,
}

/// The service manager in use.
#[derive(Debug, Clone, Copy, PartialEq, Eq, Structural)]
pub enum SelectedServiceManager {
    Systemd,
    Launchd,
}

/// Errors in choosing a service manager.
#[derive(Debug, PartialEq, Eq)]
pub enum ServiceError {
    /// The configured name is none of `auto`, `systemd`, `launchd`.
    UnsupportedServiceManager(String),
    /// `auto` was asked for on a system that is neither Linux nor macOS.
    UnsupportedOs(String),
}

impl ServiceError {
    /// The message the command line shows for this error.
    pub fn message(&self) -> (m: String)
        ensures
            m@ == (match self {
                ServiceError::UnsupportedServiceManager(v) => "unsupported service manager: "@ + v@,
                ServiceError::UnsupportedOs(os) => "unsupported operating system for auto service manager: "@
                    + os@,
            }),
    {
        match self {
            ServiceError::UnsupportedServiceManager(v) => {
                let mut m = "unsupported service manager: ".to_string();
                m.append(v.as_str());
                m
            },
            ServiceError::UnsupportedOs(os) => {
                let mut m = "unsupported operating system for auto service manager: ".to_string();
                m.append(os.as_str());
                m
            },
        }
    }
}

/// What can be asked of a service manager.
#[derive(Debug, Clone, Copy, PartialEq, Eq, Structural)]
pub enum ServiceAction {
    Enable,
    Start,
    Stop,
    Restart,
    Status,
    Disable,
    DaemonReload,
    ResetFailed,
    Logs,
}

/// The launchd operations that depend on the state of the job (see `launchd`).
#[derive(Debug, Clone, Copy, PartialEq, Eq, Structural)]
pub enum LaunchdOperation {
    /// Bootstrap the job unless it is loaded.
    Bootstrap,
    /// Boot the job out if it is loaded.
    Bootout,
    /// Kickstart the job, or bootstrap it if it is not loaded.
    Kickstart,
    /// Print the job.
    Print,
}

/// How a service action is carried out.
pub enum ServiceCommand {
    /// Run this program.
    Run(ProgramCall),
    /// Carry out this launchd operation on the service.
    Launchd(LaunchdOperation),
}

pub open spec fn kind_of_name(value: Seq<char>) -> Option<ServiceManagerKind> {
    if value == "auto"@ {
        Some(ServiceManagerKind::Auto)
    } else if value == "systemd"@ {
        Some(ServiceManagerKind::Systemd)
    } else if value == "launchd"@ {
        Some(ServiceManagerKind::Launchd)
    } else {
        None
    }
}

/// The service manager chosen for `kind` on the operating system `os`.
pub open spec fn selection_spec(kind: ServiceManagerKind, os: Seq<char>) -> Option<
    SelectedServiceManager,
> {
    match kind {
        ServiceManagerKind::Systemd => Some(SelectedServiceManager::Systemd),
        ServiceManagerKind::Launchd => Some(SelectedServiceManager::Launchd),
        ServiceManagerKind::Auto => if os == "linux"@ {
            Some(SelectedServiceManager::Systemd)
        } else if os == "macos"@ {
            Some(SelectedServiceManager::Launchd)
        } else {
            None
        },
    }
}

/// Under systemd each action runs `systemctl --user` with the subcommand named after
/// it, on the service where it has one: enabling runs `enable`, starting `start`,
/// stopping `stop`, restarting `restart`, the status `status`, disabling
/// `disable`, reloading `daemon-reload` and resetting `reset-failed`.  No two
/// actions run the same invocation.
pub proof fn lemma_systemctl_action_verbs(service: Seq<char>)
    ensures
        systemctl_args(ServiceAction::Enable, service) == seq!["--user"@, "enable"@, service],
        systemctl_args(ServiceAction::Start, service) == seq!["--user"@, "start"@, service],
        systemctl_args(ServiceAction::Stop, service) == seq!["--user"@, "stop"@, service],
        systemctl_args(ServiceAction::Restart, service) == seq!["--user"@, "restart"@, service],
        systemctl_args(ServiceAction::Status, service) == seq!["--user"@, "status"@, service],
        systemctl_args(ServiceAction::Disable, service) == seq!["--user"@, "disable"@, service],
        systemctl_args(ServiceAction::DaemonReload, service) == seq!["--user"@, "daemon-reload"@],
        systemctl_args(ServiceAction::ResetFailed, service) == seq!["--user"@, "reset-failed"@],
        forall|a: ServiceAction, b: ServiceAction|
            a != ServiceAction::Logs && b != ServiceAction::Logs && a != b ==> #[trigger] systemctl_args(
                a,
                service,
            ) != #[trigger] systemctl_args(b, service),
{
    reveal_strlit("enable");
    reveal_strlit("start");
    reveal_strlit("stop");
    reveal_strlit("restart");
    reveal_strlit("status");
    reveal_strlit("disable");
    reveal_strlit("daemon-reload");
    reveal_strlit("reset-failed");
    assert("enable"@[0] != "status"@[0]);
    assert("restart"@[0] != "disable"@[0]);
    assert forall|a: ServiceAction, b: ServiceAction|
        a != ServiceAction::Logs && b != ServiceAction::Logs && a != b implies #[trigger] systemctl_args(
            a,
            service,
        ) != #[trigger] systemctl_args(b, service) by {
        lemma_verb_distinct(a, b);
        if systemctl_args(a, service) == systemctl_args(b, service) {
            assert(systemctl_args(a, service)[1] == systemctl_args(b, service)[1]);
        }
    }
}

proof fn lemma_verb_distinct(a: ServiceAction, b: ServiceAction)
    requires
        a != ServiceAction::Logs,
        b != ServiceAction::Logs,
        a != b,
    ensures
        systemctl_verb(a) != systemctl_verb(b),
        a == ServiceAction::DaemonReload ==> systemctl_verb(a) == "daemon-reload"@,
        a == ServiceAction::ResetFailed ==> systemctl_verb(a) == "reset-failed"@,
        b == ServiceAction::DaemonReload ==> systemctl_verb(b) == "daemon-reload"@,
        b == ServiceAction::ResetFailed ==> systemctl_verb(b) == "reset-failed"@,
{
    reveal_strlit("enable");
    reveal_strlit("start");
    reveal_strlit("stop");
    reveal_strlit("restart");
    reveal_strlit("status");
    reveal_strlit("disable");
    reveal_strlit("daemon-reload");
    reveal_strlit("reset-failed");
    let x = systemctl_verb(a);
    let y = systemctl_verb(b);
    if x.len() == y.len() {
        assert(x[0] != y[0]);
    }
}

fn str_is(s: &str, lit: &str) -> (r: bool)
    ensures
        r == (s@ == lit@),
{
    chars_eq(&chars_of(s), &chars_of(lit))
}

impl ServiceManagerKind {
    /// Parses `auto`, `systemd` or `launchd`.
    pub fn from_str(value: &str) -> (r: Result<Self, ServiceError>)
        ensures
            kind_of_name(value@) matches Some(k) ==> r == Ok::<Self, ServiceError>(k),
            kind_of_name(value@) is None ==> (r matches Err(
                ServiceError::UnsupportedServiceManager(v),
            ) && v@ == value@),
    {
        if str_is(value, "auto") {
            Ok(ServiceManagerKind::Auto)
        } else if str_is(value, "systemd") {
            Ok(ServiceManagerKind::Systemd)
        } else if str_is(value, "launchd") {
            Ok(ServiceManagerKind::Launchd)
        } else {
            Err(ServiceError::UnsupportedServiceManager(value.to_string()))
        }
    }
}

/// Chooses the service manager: an explicit choice stands on any system; `auto`
/// means systemd on Linux and launchd on macOS, and fails elsewhere.
pub fn select_service_manager(kind: ServiceManagerKind, os: &str) -> (r: Result<
    SelectedServiceManager,
    ServiceError,
>)
    ensures
        selection_spec(kind, os@) matches Some(s) ==> r == Ok::<
            SelectedServiceManager,
            ServiceError,
        >(s),
        selection_spec(kind, os@) is None ==> (r matches Err(ServiceError::UnsupportedOs(o))
            && o@ == os@),
{
    match kind {
        ServiceManagerKind::Systemd => Ok(SelectedServiceManager::Systemd),
        ServiceManagerKind::Launchd => Ok(SelectedServiceManager::Launchd),
        ServiceManagerKind::Auto => {
            if str_is(os, "linux") {
                Ok(SelectedServiceManager::Systemd)
            } else if str_is(os, "macos") {
                Ok(SelectedServiceManager::Launchd)
            } else {
                Err(ServiceError::UnsupportedOs(os.to_string()))
            }
        },
    }
}

/// The service manager that runs the mihomo service.
pub struct ServiceManager {
    selected: SelectedServiceManager,
}

/// The `systemctl` verb of an action that systemd carries out with one.
pub open spec fn systemctl_verb(action: ServiceAction) -> Seq<char> {
    match action {
        ServiceAction::Enable => "enable"@,
        ServiceAction::Start => "start"@,
        ServiceAction::Stop => "stop"@,
        ServiceAction::Restart => "restart"@,
        ServiceAction::Status => "status"@,
        ServiceAction::Disable => "disable"@,
        ServiceAction::DaemonReload => "daemon-reload"@,
        ServiceAction::ResetFailed => "reset-failed"@,
        ServiceAction::Logs => "logs"@,
    }
}

/// The arguments of the `systemctl` invocation of an action.
pub open spec fn systemctl_args(action: ServiceAction, service: Seq<char>) -> Seq<Seq<char>> {
    match action {
        ServiceAction::DaemonReload => seq!["--user"@, "daemon-reload"@],
        ServiceAction::ResetFailed => seq!["--user"@, "reset-failed"@],
        _ => user_verb(systemctl_verb(action), service),
    }
}

/// The launchd operation of an action: starting is bootstrapping and stopping is
/// booting out.
pub open spec fn launchd_operation(action: ServiceAction) -> Option<LaunchdOperation> {
    match action {
        ServiceAction::Enable => Some(LaunchdOperation::Bootstrap),
        ServiceAction::Start => Some(LaunchdOperation::Bootstrap),
        ServiceAction::Stop => Some(LaunchdOperation::Bootout),
        ServiceAction::Disable => Some(LaunchdOperation::Bootout),
        ServiceAction::Restart => Some(LaunchdOperation::Kickstart),
        ServiceAction::Status => Some(LaunchdOperation::Print),
        _ => None,
    }
}

impl ServiceManager {
    /// The service manager chosen for `kind` on the operating system `os`.
    pub fn new(kind: ServiceManagerKind, os: &str) -> (r: Result<Self, ServiceError>)
        ensures
            selection_spec(kind, os@) matches Some(s) ==> (r matches Ok(m) && m.selected() == s),
            selection_spec(kind, os@) is None ==> (r matches Err(ServiceError::UnsupportedOs(o))
                && o@ == os@),
    {
        let selected = select_service_manager(kind, os)?;
        Ok(ServiceManager { selected })
    }

    pub closed spec fn selected(&self) -> SelectedServiceManager {
        self.selected
    }

    /// The service manager in use.
    pub fn selection(&self) -> (s: SelectedServiceManager)
        ensures
            s == self.selected(),
    {
        self.selected
    }

    /// How `action` on `service` is carried out.  Under systemd every action but the
    /// logs is one `systemctl --user` call, and the logs are followed with
    /// `journalctl`.  Under launchd, starting and enabling bootstrap the job, stopping
    /// and disabling boot it out, restarting kickstarts it, status prints it; reloading
    /// and resetting have nothing to do (`true` is run), and the logs are streamed from
    /// the system log.
    pub fn command(&self, action: ServiceAction, service: &str) -> (c: ServiceCommand)
        ensures
            self.selected() == SelectedServiceManager::Systemd && action != ServiceAction::Logs
                ==> (c matches ServiceCommand::Run(call) && call.program@ == "systemctl"@
                && call.args.deep_view() == systemctl_args(action, service@)),
            self.selected() == SelectedServiceManager::Systemd && action == ServiceAction::Logs
                ==> (c matches ServiceCommand::Run(call) && call.program@ == "journalctl"@
                && call.args.deep_view() == seq![
                "--user"@,
                "-xeu"@,
                service@,
                "-n"@,
                "10"@,
                "-f"@,
            ]),
            self.selected() == SelectedServiceManager::Launchd && launchd_operation(action) is Some
                ==> c == ServiceCommand::Launchd(launchd_operation(action)->0),
            self.selected() == SelectedServiceManager::Launchd && (action
                == ServiceAction::DaemonReload || action == ServiceAction::ResetFailed) ==> (c matches ServiceCommand::Run(call)
                && call.program@ == "true"@ && call.args@.len() == 0),
            self.selected() == SelectedServiceManager::Launchd && action == ServiceAction::Logs
                ==> (c matches ServiceCommand::Run(call) && call.program@ == "log"@
                && call.args.deep_view() == launchd::log_stream_args()),
    {
        match self.selected {
            SelectedServiceManager::Systemd => {
                let mut s = Systemctl::new();
                match action {
                    ServiceAction::Enable => {
                        s.enable(service);
                    },
                    ServiceAction::Start => {
                        s.start(service);
                    },
                    ServiceAction::Stop => {
                        s.stop(service);
                    },
                    ServiceAction::Restart => {
                        s.restart(service);
                    },
                    ServiceAction::Status => {
                        s.status(service);
                    },
                    ServiceAction::Disable => {
                        s.disable(service);
                    },
                    ServiceAction::DaemonReload => {
                        s.daemon_reload();
                    },
                    ServiceAction::ResetFailed => {
                        s.reset_failed();
                    },
                    ServiceAction::Logs => {
                        return ServiceCommand::Run(systemd::journalctl_logs(service));
                    },
                }
                assert(s@ =~= systemctl_args(action, service@));
                ServiceCommand::Run(s.to_call())
            },
            SelectedServiceManager::Launchd => match action {
                ServiceAction::Enable => ServiceCommand::Launchd(LaunchdOperation::Bootstrap),
                ServiceAction::Start => ServiceCommand::Launchd(LaunchdOperation::Bootstrap),
                ServiceAction::Stop => ServiceCommand::Launchd(LaunchdOperation::Bootout),
                ServiceAction::Disable => ServiceCommand::Launchd(LaunchdOperation::Bootout),
                ServiceAction::Restart => ServiceCommand::Launchd(LaunchdOperation::Kickstart),
                ServiceAction::Status => ServiceCommand::Launchd(LaunchdOperation::Print),
                ServiceAction::DaemonReload => ServiceCommand::Run(
                    ProgramCall { program: "true".to_string(), args: Vec::new() },
                ),
                ServiceAction::ResetFailed => ServiceCommand::Run(
                    ProgramCall { program: "true".to_string(), args: Vec::new() },
                ),
                ServiceAction::Logs => ServiceCommand::Run(launchd::logs()),
            },
        }
    }
}

} // verus!
