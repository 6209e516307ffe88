//! The command line: the commands the tool understands, and which components an
//! update covers.  The program parses the arguments into these types.
use vstd::prelude::*;

verus! {

/// Where the tool's own configuration is read from unless told otherwise.
pub const DEFAULT_MIHORO_CONFIG: &'static str = "~/.config/mihoro.toml";

/// The parsed command line.
pub struct Args {
    /// Path to the tool's configuration file.
    pub mihoro_config: String,
    pub command: Option<Commands>,
}

/// The subcommands.
pub enum Commands {
    /// Download the mihomo binary and the remote configuration, and set up the service.
    Setup { overwrite: bool, arch: Option<String> },
    /// Update mihomo components (the configuration by default).
    Update { config: bool, core: bool, geodata: bool, all: bool, arch: Option<String> },
    /// Apply the configuration overrides and restart the service.
    Apply,
    /// Start the service.
    Start,
    /// Show the service status.
    Status,
    /// Stop the service.
    Stop,
    /// Restart the service.
    Restart,
    /// Follow the service logs.
    Log,
    /// Print shell commands that export or unset the proxy variables.
    Proxy { proxy: Option<ProxyCommands> },
    /// Remove the service and the downloaded configuration.
    Uninstall,
    /// Print shell completions.
    Completions { shell: Option<ClapShell> },
    /// Manage the auto-update cron job.
    Cron { cron: Option<CronCommands> },
    /// Upgrade the tool itself.
    Upgrade { yes: bool, check: bool, target: Option<String> },
}

/// The proxy subcommands.
#[derive(Debug, Clone, Copy, PartialEq, Eq, Structural)]
pub enum ProxyCommands {
    /// Export commands for this machine.
    Export,
    /// Export commands for other machines of the LAN.
    ExportLan,
    /// Unset commands.
    Unset,
}

/// The shells completions can be generated for.
#[derive(Debug, Clone, Copy, PartialEq, Eq, Structural)]
pub enum ClapShell {
    Bash,
    Fish,
    Zsh,
}

/// The cron subcommands.
#[derive(Debug, Clone, Copy, PartialEq, Eq, Structural)]
pub enum CronCommands {
    Enable,
    Disable,
    Status,
}

/// What `update` covers.
#[derive(Debug, Clone, Copy, PartialEq, Eq, Structural)]
pub enum UpdateSelection {
    /// Configuration, geodata and core, with one restart at the end.
    All,
    /// The mihomo binary.
    Core,
    /// The geodata files.
    Geodata,
    /// The remote configuration.
    Config,
}

/// The components an `update` covers: `--all` wins, then `--core`, then
/// `--geodata`; the configuration is updated when asked for or when no flag is given.
pub fn update_selection(config: bool, core: bool, geodata: bool, all: bool) -> (s: UpdateSelection)
    ensures
        all ==> s == UpdateSelection::All,
        !all && core ==> s == UpdateSelection::Core,
        !all && !core && geodata ==> s == UpdateSelection::Geodata,
        !all && !core && !geodata ==> s == UpdateSelection::Config,
{
    if all {
        UpdateSelection::All
    } else if core {
        UpdateSelection::Core
    } else if geodata {
        UpdateSelection::Geodata
    } else {
        UpdateSelection::Config
    }
}

} // verus!
