//! The tool's state: its configuration, the paths derived from it, and the
//! decisions taken by its commands before they touch the network or the disk.
use vstd::prelude::*;

use crate::cmd::{CronCommands, ProxyCommands};
use crate::service::launchd::{default_plist_path, service_stem, stem_spec};
use crate::service::{
    kind_of_name, selection_spec, ServiceError, ServiceManager, ServiceManagerKind,
    SelectedServiceManager, select_service_manager,
};
use crate::text::{chars_of, ends_with, ends_with_chars, join_path, path_join, string_from_chars};

verus! {

broadcast use vstd::string::group_string_axioms;

/// The download locations of the geodata files.
pub struct GeoxUrl {
    pub geoip: String,
    pub geosite: String,
    pub mmdb: String,
}

/// The settings that are written over the downloaded mihomo configuration.
pub struct MihomoConfig {
    pub port: u16,
    pub socks_port: u16,
    pub mixed_port: Option<u16>,
    pub allow_lan: Option<bool>,
    pub external_ui: Option<String>,
    pub geodata_mode: Option<bool>,
    pub geox_url: Option<GeoxUrl>,
}

/// The tool's configuration.
pub struct Config {
    pub remote_config_url: String,
    pub mihomo_binary_path: String,
    pub mihomo_config_root: String,
    pub user_systemd_root: String,
    pub service_name: String,
    pub service_manager: Option<String>,
    pub mihoro_user_agent: String,
    pub auto_update_interval: u16,
    /// The web dashboard to install, by its configuration value; `None` turns
    /// dashboard management off.
    pub ui: Option<String>,
    pub mihomo_config: MihomoConfig,
}

/// The tool's state: its configuration and the paths derived from it.
pub struct Mihoro {
    pub prefix: String,
    pub config: Config,
    pub mihomo_target_binary_path: String,
    pub mihomo_target_config_root: String,
    pub mihomo_target_config_path: String,
    pub mihomo_service_name: String,
    pub mihomo_target_service_path: String,
}

/// Outcome of a single setup stage.
pub enum StageStatus {
    Installed,
    Skipped(String),
    Failed(String),
}

/// What a `cron` subcommand asks for.
pub enum CronRequest {
    /// Install the entry with the configured interval.
    Enable(u16),
    /// Remove the entry.
    Disable,
    /// Show the entry and when this configuration file was last updated.
    Status(String),
    /// Nothing.
    Nothing,
}

/// What a `proxy` subcommand prints.
#[derive(Debug, Clone, Copy, PartialEq, Eq, Structural)]
pub enum ProxyRequest {
    /// Export commands for `127.0.0.1`.
    Export { http_port: u16, socks_port: u16 },
    /// Export commands for the machine's LAN address; `lan_disabled` asks for a
    /// warning that `allow_lan` is off.
    ExportLan { http_port: u16, socks_port: u16, lan_disabled: bool },
    /// Commands that unset the proxy variables.
    Unset,
    /// Nothing.
    Nothing,
}

/// A file to download.
pub struct Download {
    pub url: String,
    pub path: String,
}

/// What fetching the geodata amounts to.
pub enum GeodataPlan {
    /// No geodata locations are configured.
    NotConfigured,
    /// The files are already there.
    Present,
    /// Fetch these files.
    Fetch(Vec<Download>),
}

/// Whether the running service needs starting or enabling.
#[derive(Debug, Clone, Copy, PartialEq, Eq, Structural)]
pub enum StartPlan {
    /// The service runs and starts at login already.
    AlreadyRunning,
    /// Enable and/or start it.
    Bring { enable: bool, start: bool },
}

/// What installing the web dashboard amounts to.
pub enum UiPlan {
    /// Dashboard management is off.
    Disabled,
    /// No `external_ui` directory is configured.
    NoTarget,
    /// The dashboard is installed already; holds its configuration value.
    Present(String),
    /// Install the dashboard `ui` into `target_dir`.
    Install { ui: String, target_dir: String },
}

/// What preparing the binary amounts to.
pub enum BinaryDecision {
    /// Keep the installed binary; the reason is shown.
    Keep(String),
    /// Download the binary.
    Download,
}

// ---------------------------------------------------------------------------
// Specifications
// ---------------------------------------------------------------------------

pub open spec fn opt_view(o: Option<&str>) -> Option<Seq<char>> {
    match o {
        Some(s) => Some(s@),
        None => None,
    }
}

/// Tilde expansion: a leading `~` followed by `/` or by nothing is replaced by the
/// home directory, when one is known; anything else is left as it is.
pub open spec fn tilde_spec(input: Seq<char>, home: Option<Seq<char>>) -> Seq<char> {
    if input.len() > 0 && input[0] == '~' && (input.len() == 1 || input[1] == '/') {
        match home {
            Some(h) => h + input.skip(1),
            None => input,
        }
    } else {
        input
    }
}

/// A service name with the `.service` suffix that systemd expects.
pub open spec fn normalized_name_spec(name: Seq<char>) -> Seq<char> {
    if ends_with(name, ".service"@) {
        name
    } else {
        name + ".service"@
    }
}

/// The service manager the configuration selects on `os`, if any.
pub open spec fn configured_selection(service_manager: Option<Seq<char>>, os: Seq<char>) -> Option<
    SelectedServiceManager,
> {
    let name = match service_manager {
        Some(s) => s,
        None => "auto"@,
    };
    match kind_of_name(name) {
        Some(k) => selection_spec(k, os),
        None => None,
    }
}

/// Where the service definition is written: the launchd property list under
/// `~/Library/LaunchAgents` when launchd is selected, the unit file under the
/// systemd user directory otherwise.
pub open spec fn service_path_spec(
    user_systemd_root: Seq<char>,
    service_manager: Option<Seq<char>>,
    service_name: Seq<char>,
    home: Option<Seq<char>>,
    os: Seq<char>,
) -> Seq<char> {
    if configured_selection(service_manager, os) == Some(SelectedServiceManager::Launchd) {
        match home {
            Some(h) => path_join(
                path_join(path_join(h, "Library"@), "LaunchAgents"@),
                stem_spec(service_name) + ".plist"@,
            ),
            None => "~/Library/LaunchAgents/"@ + stem_spec(service_name) + ".plist"@,
        }
    } else {
        path_join(tilde_spec(user_systemd_root, home), service_name)
    }
}

/// The ports written into the proxy exports: `mixed_port`, where set, serves both
/// HTTP and SOCKS; otherwise `port` and `socks_port`.
pub open spec fn proxy_ports_spec(c: MihomoConfig) -> (u16, u16) {
    match c.mixed_port {
        Some(p) => (p, p),
        None => (c.port, c.socks_port),
    }
}

pub open spec fn download_view(d: Download) -> (Seq<char>, Seq<char>) {
    (d.url@, d.path@)
}

/// The geodata files to fetch.  In geodata mode the `.dat` files (each unless it
/// is present and the fetch is not forced); otherwise the MaxMind database.
pub open spec fn geodata_fetches(
    geox: GeoxUrl,
    geodata_mode: bool,
    config_root: Seq<char>,
    force: bool,
    geoip_exists: bool,
    geosite_exists: bool,
) -> Seq<(Seq<char>, Seq<char>)> {
    if geodata_mode {
        let geoip = if force || !geoip_exists {
            seq![(geox.geoip@, path_join(config_root, "geoip.dat"@))]
        } else {
            Seq::empty()
        };
        let geosite = if force || !geosite_exists {
            seq![(geox.geosite@, path_join(config_root, "geosite.dat"@))]
        } else {
            Seq::empty()
        };
        geoip + geosite
    } else {
        seq![(geox.mmdb@, path_join(config_root, "country.mmdb"@))]
    }
}

// ---------------------------------------------------------------------------
// Executable functions
// ---------------------------------------------------------------------------

/// `shellexpand::tilde_with_context` with the given home directory.
#[verifier::external_body]
fn expand_tilde(input: &str, home: Option<&str>) -> (r: String)
    ensures
        r@ == tilde_spec(input@, opt_view(home)),
{
    shellexpand::tilde_with_context(input, || home).into_owned()
}

/// Appends `.service` to a service name that lacks it.
pub fn normalize_service_name(service_name: &str) -> (name: String)
    ensures
        name@ == normalized_name_spec(service_name@),
{
    if ends_with_chars(&chars_of(service_name), &chars_of(".service")) {
        service_name.to_string()
    } else {
        let mut name = service_name.to_string();
        name.append(".service");
        name
    }
}

fn opt_as_str(o: &Option<String>) -> (r: Option<&str>)
    ensures
        match o {
            Some(s) => r matches Some(t) && t@ == s@,
            None => r is None,
        },
{
    match o {
        Some(s) => Some(s.as_str()),
        None => None,
    }
}

fn service_path(
    user_systemd_root: &str,
    service_manager: Option<&str>,
    service_name: &str,
    home: Option<&str>,
    os: &str,
) -> (p: String)
    ensures
        p@ == service_path_spec(
            user_systemd_root@,
            opt_view(service_manager),
            service_name@,
            opt_view(home),
            os@,
        ),
{
    let name = match service_manager {
        Some(s) => s,
        None => "auto",
    };
    let launchd = match ServiceManagerKind::from_str(name) {
        Ok(kind) => match select_service_manager(kind, os) {
            Ok(SelectedServiceManager::Launchd) => true,
            _ => false,
        },
        Err(_) => false,
    };
    if launchd {
        match home {
            Some(h) => default_plist_path(h, service_name),
            None => {
                let mut p = "~/Library/LaunchAgents/".to_string();
                p.append(service_stem(service_name));
                p.append(".plist");
                p
            },
        }
    } else {
        let root = expand_tilde(user_systemd_root, home);
        string_from_chars(&join_path(&chars_of(root.as_str()), &chars_of(service_name)))
    }
}

impl Mihoro {
    /// The state for a configuration: paths are tilde-expanded with `home`, the
    /// service name gets its `.service` suffix, and the service definition path
    /// follows the service manager selected on `os`.
    pub fn from_config(config: Config, home: Option<&str>, os: &str) -> (m: Mihoro)
        ensures
            m.prefix@ == "mihoro:"@,
            m.config == config,
            m.mihomo_target_binary_path@ == tilde_spec(
                config.mihomo_binary_path@,
                opt_view(home),
            ),
            m.mihomo_target_config_root@ == tilde_spec(
                config.mihomo_config_root@,
                opt_view(home),
            ),
            m.mihomo_target_config_path@ == tilde_spec(
                config.mihomo_config_root@ + "/config.yaml"@,
                opt_view(home),
            ),
            m.mihomo_service_name@ == normalized_name_spec(config.service_name@),
            m.mihomo_target_service_path@ == service_path_spec(
                config.user_systemd_root@,
                match config.service_manager {
                    Some(s) => Some(s@),
                    None => None,
                },
                normalized_name_spec(config.service_name@),
                opt_view(home),
                os@,
            ),
    {
        let service_name = normalize_service_name(config.service_name.as_str());
        let binary = expand_tilde(config.mihomo_binary_path.as_str(), home);
        let root = expand_tilde(config.mihomo_config_root.as_str(), home);
        let mut config_file = config.mihomo_config_root.clone();
        config_file.append("/config.yaml");
        let config_path = expand_tilde(config_file.as_str(), home);
        let service_path = service_path(
            config.user_systemd_root.as_str(),
            opt_as_str(&config.service_manager),
            service_name.as_str(),
            home,
            os,
        );
        Mihoro {
            prefix: "mihoro:".to_string(),
            config,
            mihomo_target_binary_path: binary,
            mihomo_target_config_root: root,
            mihomo_target_config_path: config_path,
            mihomo_service_name: service_name,
            mihomo_target_service_path: service_path,
        }
    }

    /// The service manager the configuration asks for (`auto` when unset), on `os`.
    pub fn service_manager(&self, os: &str) -> (r: Result<ServiceManager, ServiceError>)
        ensures
            configured_selection(
                match self.config.service_manager {
                    Some(s) => Some(s@),
                    None => None,
                },
                os@,
            ) matches Some(s) ==> (r matches Ok(m) && m.selected() == s),
            configured_selection(
                match self.config.service_manager {
                    Some(s) => Some(s@),
                    None => None,
                },
                os@,
            ) is None ==> r is Err,
    {
        let name = match &self.config.service_manager {
            Some(s) => s.as_str(),
            None => "auto",
        };
        let kind = ServiceManagerKind::from_str(name)?;
        ServiceManager::new(kind, os)
    }

    /// What a `cron` subcommand asks for: enabling uses the configured interval, the
    /// status reports on the downloaded mihomo configuration.
    pub fn cron_commands(&self, command: &Option<CronCommands>) -> (r: CronRequest)
        ensures
            match command {
                Some(CronCommands::Enable) => r == CronRequest::Enable(
                    self.config.auto_update_interval,
                ),
                Some(CronCommands::Disable) => r == CronRequest::Disable,
                Some(CronCommands::Status) => r matches CronRequest::Status(p) && p@
                    == self.mihomo_target_config_path@,
                None => r == CronRequest::Nothing,
            },
    {
        match command {
            Some(CronCommands::Enable) => CronRequest::Enable(self.config.auto_update_interval),
            Some(CronCommands::Disable) => CronRequest::Disable,
            Some(CronCommands::Status) => CronRequest::Status(
                self.mihomo_target_config_path.clone(),
            ),
            None => CronRequest::Nothing,
        }
    }

    /// The ports for the proxy exports: `mixed_port` takes precedence over `port`
    /// and `socks_port`.
    pub fn proxy_ports(&self) -> (r: (u16, u16))
        ensures
            r == proxy_ports_spec(self.config.mihomo_config),
    {
        match self.config.mihomo_config.mixed_port {
            Some(p) => (p, p),
            None => (self.config.mihomo_config.port, self.config.mihomo_config.socks_port),
        }
    }

    /// What a `proxy` subcommand prints.
    pub fn proxy_commands(&self, proxy: &Option<ProxyCommands>) -> (r: ProxyRequest)
        ensures
            match proxy {
                Some(ProxyCommands::Export) => r == ProxyRequest::Export {
                    http_port: proxy_ports_spec(self.config.mihomo_config).0,
                    socks_port: proxy_ports_spec(self.config.mihomo_config).1,
                },
                Some(ProxyCommands::ExportLan) => r == ProxyRequest::ExportLan {
                    http_port: proxy_ports_spec(self.config.mihomo_config).0,
                    socks_port: proxy_ports_spec(self.config.mihomo_config).1,
                    lan_disabled: !(self.config.mihomo_config.allow_lan == Some(true)),
                },
                Some(ProxyCommands::Unset) => r == ProxyRequest::Unset,
                None => r == ProxyRequest::Nothing,
            },
    {
        let (http_port, socks_port) = self.proxy_ports();
        match proxy {
            Some(ProxyCommands::Export) => ProxyRequest::Export { http_port, socks_port },
            Some(ProxyCommands::ExportLan) => {
                let lan_allowed = match self.config.mihomo_config.allow_lan {
                    Some(b) => b,
                    None => false,
                };
                ProxyRequest::ExportLan { http_port, socks_port, lan_disabled: !lan_allowed }
            },
            Some(ProxyCommands::Unset) => ProxyRequest::Unset,
            None => ProxyRequest::Nothing,
        }
    }

    /// Where the web dashboard goes: `external_ui` resolved against the mihomo
    /// configuration directory.
    pub fn external_ui_target_dir(&self) -> (r: Option<String>)
        ensures
            match self.config.mihomo_config.external_ui {
                Some(ui) => r matches Some(d) && d@ == path_join(
                    self.mihomo_target_config_root@,
                    ui@,
                ),
                None => r is None,
            },
    {
        match &self.config.mihomo_config.external_ui {
            Some(ui) => Some(
                string_from_chars(
                    &join_path(
                        &chars_of(self.mihomo_target_config_root.as_str()),
                        &chars_of(ui.as_str()),
                    ),
                ),
            ),
            None => None,
        }
    }

    /// Whether the binary needs downloading: an installed binary is kept unless
    /// the download is forced.
    pub fn binary_decision(&self, binary_exists: bool, force: bool) -> (d: BinaryDecision)
        ensures
            binary_exists && !force ==> (d matches BinaryDecision::Keep(reason) && reason@
                == "binary exists at "@ + self.mihomo_target_binary_path@),
            !(binary_exists && !force) ==> d is Download,
    {
        if binary_exists && !force {
            let mut reason = "binary exists at ".to_string();
            reason.append(self.mihomo_target_binary_path.as_str());
            BinaryDecision::Keep(reason)
        } else {
            BinaryDecision::Download
        }
    }

    /// The geodata files to fetch into the mihomo configuration directory.
    pub fn geodata_plan(
        &self,
        force: bool,
        geoip_exists: bool,
        geosite_exists: bool,
        mmdb_exists: bool,
    ) -> (p: GeodataPlan)
        ensures
            self.config.mihomo_config.geox_url is None ==> p is NotConfigured,
            self.config.mihomo_config.geox_url matches Some(geox) ==> {
                let mode = self.config.mihomo_config.geodata_mode == Some(true);
                let present = if mode {
                    !force && geoip_exists && geosite_exists
                } else {
                    !force && mmdb_exists
                };
                &&& present ==> p is Present
                &&& !present ==> (p matches GeodataPlan::Fetch(v) && v@.map_values(
                    |d: Download| download_view(d),
                ) == geodata_fetches(
                    geox,
                    mode,
                    self.mihomo_target_config_root@,
                    force,
                    geoip_exists,
                    geosite_exists,
                ))
            },
    {
        let geox = match &self.config.mihomo_config.geox_url {
            Some(g) => g,
            None => {
                return GeodataPlan::NotConfigured;
            },
        };
        let mode = match self.config.mihomo_config.geodata_mode {
            Some(b) => b,
            None => false,
        };
        let root = chars_of(self.mihomo_target_config_root.as_str());
        let mut v: Vec<Download> = Vec::new();
        if mode {
            if !force && geoip_exists && geosite_exists {
                return GeodataPlan::Present;
            }
            if force || !geoip_exists {
                v.push(
                    Download {
                        url: geox.geoip.clone(),
                        path: string_from_chars(&join_path(&root, &chars_of("geoip.dat"))),
                    },
                );
            }
            if force || !geosite_exists {
                v.push(
                    Download {
                        url: geox.geosite.clone(),
                        path: string_from_chars(&join_path(&root, &chars_of("geosite.dat"))),
                    },
                );
            }
        } else {
            if !force && mmdb_exists {
                return GeodataPlan::Present;
            }
            v.push(
                Download {
                    url: geox.mmdb.clone(),
                    path: string_from_chars(&join_path(&root, &chars_of("country.mmdb"))),
                },
            );
        }
        let ghost expected = geodata_fetches(
            *geox,
            mode,
            root@,
            force,
            geoip_exists,
            geosite_exists,
        );
        assert(v@.map_values(|d: Download| download_view(d)) =~= expected);
        GeodataPlan::Fetch(v)
    }

    /// The web dashboard step: nothing when management is off or no `external_ui`
    /// directory is set; otherwise the dashboard is installed into that directory
    /// unless it holds an `index.html` already and the install is not forced.
    pub fn ui_plan(&self, index_exists: bool, force: bool) -> (p: UiPlan)
        ensures
            self.config.ui is None ==> p is Disabled,
            self.config.ui matches Some(u) ==> match self.config.mihomo_config.external_ui {
                None => p is NoTarget,
                Some(e) => if !force && index_exists {
                    p matches UiPlan::Present(v) && v@ == u@
                } else {
                    p matches UiPlan::Install { ui, target_dir } && ui@ == u@ && target_dir@
                        == path_join(self.mihomo_target_config_root@, e@)
                },
            },
    {
        let ui = match &self.config.ui {
            Some(u) => u,
            None => {
                return UiPlan::Disabled;
            },
        };
        let target_dir = match self.external_ui_target_dir() {
            Some(d) => d,
            None => {
                return UiPlan::NoTarget;
            },
        };
        if !force && index_exists {
            UiPlan::Present(ui.clone())
        } else {
            UiPlan::Install { ui: ui.clone(), target_dir }
        }
    }

    /// Whether the service needs enabling and starting, given whether it runs and
    /// whether it starts at login.
    pub fn service_running_plan(is_active: bool, is_enabled: bool) -> (p: StartPlan)
        ensures
            is_active && is_enabled ==> p == StartPlan::AlreadyRunning,
            !(is_active && is_enabled) ==> p == (StartPlan::Bring {
                enable: !is_enabled,
                start: !is_active,
            }),
    {
        if is_active && is_enabled {
            StartPlan::AlreadyRunning
        } else {
            StartPlan::Bring { enable: !is_enabled, start: !is_active }
        }
    }

    /// The command that removes what uninstalling leaves behind: the binary and the
    /// configuration directory.
    pub fn uninstall_hint(&self) -> (cmd: String)
        ensures
            cmd@ == "rm -R "@ + self.mihomo_target_binary_path@ + " "@
                + self.mihomo_target_config_root@,
    {
        let mut cmd = "rm -R ".to_string();
        cmd.append(self.mihomo_target_binary_path.as_str());
        cmd.append(" ");
        cmd.append(self.mihomo_target_config_root.as_str());
        cmd
    }
}


/// Naming the service is consistent: the normalized name ends with `.service`,
/// normalizing again changes nothing, and the launchd label of the normalized
/// name is the name without any `.service` suffix.
pub proof fn lemma_normalized_name(name: Seq<char>)
    ensures
        ends_with(normalized_name_spec(name), ".service"@),
        normalized_name_spec(normalized_name_spec(name)) == normalized_name_spec(name),
        stem_spec(normalized_name_spec(name)) == stem_spec(name),
{
    let suffix = ".service"@;
    if !ends_with(name, suffix) {
        let n = name + suffix;
        assert(n.subrange(n.len() - suffix.len(), n.len() as int) =~= suffix);
        assert(n.subrange(0, n.len() - 8) =~= name) by {
            reveal_strlit(".service");
        }
    }
}

/// The geodata file names have different lengths and do not start with `/`, so
/// their paths under one directory differ.
proof fn lemma_geodata_paths_differ(root: Seq<char>)
    ensures
        path_join(root, "geoip.dat"@) != path_join(root, "geosite.dat"@),
        path_join(root, "geoip.dat"@) != path_join(root, "country.mmdb"@),
        path_join(root, "geosite.dat"@) != path_join(root, "country.mmdb"@),
{
    reveal_strlit("geoip.dat");
    reveal_strlit("geosite.dat");
    reveal_strlit("country.mmdb");
    assert(path_join(root, "geoip.dat"@).len() != path_join(root, "geosite.dat"@).len());
    assert(path_join(root, "geoip.dat"@).len() != path_join(root, "country.mmdb"@).len());
    assert(path_join(root, "geosite.dat"@).len() != path_join(root, "country.mmdb"@).len());
}

/// Each geodata file is fetched from its own location: a planned download to
/// `<root>/geoip.dat` comes from the `geoip` URL, one to `<root>/geosite.dat` from
/// the `geosite` URL, and one to `<root>/country.mmdb` from the `mmdb` URL.  In
/// geodata mode a `.dat` file is fetched exactly when the fetch is forced or the
/// file is missing, and a forced fetch gets both, `geoip.dat` first; otherwise the
/// MaxMind database alone is fetched.
pub proof fn lemma_geodata_urls_match_files(
    geox: GeoxUrl,
    geodata_mode: bool,
    root: Seq<char>,
    force: bool,
    geoip_exists: bool,
    geosite_exists: bool,
)
    ensures
        ({
            let f = geodata_fetches(geox, geodata_mode, root, force, geoip_exists, geosite_exists);
            &&& forall|k: int|
                0 <= k < f.len() && (#[trigger] f[k]).1 == path_join(root, "geoip.dat"@) ==> f[k].0
                    == geox.geoip@
            &&& forall|k: int|
                0 <= k < f.len() && (#[trigger] f[k]).1 == path_join(root, "geosite.dat"@) ==> f[k].0
                    == geox.geosite@
            &&& forall|k: int|
                0 <= k < f.len() && (#[trigger] f[k]).1 == path_join(root, "country.mmdb"@) ==> f[k].0
                    == geox.mmdb@
            &&& geodata_mode ==> ((exists|k: int|
                0 <= k < f.len() && (#[trigger] f[k]).1 == path_join(root, "geoip.dat"@)) <==> (force
                || !geoip_exists))
            &&& geodata_mode ==> ((exists|k: int|
                0 <= k < f.len() && (#[trigger] f[k]).1 == path_join(root, "geosite.dat"@)) <==> (
            force || !geosite_exists))
            &&& geodata_mode && force ==> f == seq![
                (geox.geoip@, path_join(root, "geoip.dat"@)),
                (geox.geosite@, path_join(root, "geosite.dat"@)),
            ]
            &&& !geodata_mode ==> f == seq![(geox.mmdb@, path_join(root, "country.mmdb"@))]
        }),
{
    lemma_geodata_paths_differ(root);
    let f = geodata_fetches(geox, geodata_mode, root, force, geoip_exists, geosite_exists);
    let pi = path_join(root, "geoip.dat"@);
    let ps = path_join(root, "geosite.dat"@);
    if geodata_mode {
        if force || !geoip_exists {
            assert(f[0].1 == pi);
        }
        if force || !geosite_exists {
            assert(f[f.len() - 1].1 == ps);
        }
        if force {
            assert(f =~= seq![(geox.geoip@, pi), (geox.geosite@, ps)]);
        }
    }
}

} // verus!
