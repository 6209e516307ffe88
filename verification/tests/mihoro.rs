use mihoro::cmd::{update_selection, CronCommands, ProxyCommands, UpdateSelection};
use mihoro::mihoro::{
    normalize_service_name, BinaryDecision, Config, CronRequest, GeodataPlan, GeoxUrl,
    MihomoConfig, Mihoro, ProxyRequest, StartPlan, UiPlan,
};
use mihoro::proxy::{proxy_export_cmd, proxy_unset_cmd};
use mihoro::service::launchd::build_plist;
use mihoro::service::systemd::render_service_string;
use mihoro::service::SelectedServiceManager;

fn mihomo_config() -> MihomoConfig {
    MihomoConfig {
        port: 7890,
        socks_port: 7891,
        mixed_port: None,
        allow_lan: None,
        external_ui: None,
        geodata_mode: None,
        geox_url: None,
    }
}

fn config(mihomo_config: MihomoConfig) -> Config {
    Config {
        remote_config_url: "http://example.com/config.yaml".to_string(),
        mihomo_binary_path: "/tmp/test/mihomo".to_string(),
        mihomo_config_root: "/tmp/test/mihomo".to_string(),
        user_systemd_root: "/tmp/test/systemd".to_string(),
        service_name: "mihomo".to_string(),
        service_manager: None,
        mihoro_user_agent: "mihoro".to_string(),
        auto_update_interval: 12,
        ui: None,
        mihomo_config,
    }
}

#[test]
fn test_create_mihomo_service_linux_contract() {
    let mihomo_binary_path = "/tmp/test/mihomo";
    let mihomo_config_root = "/tmp/test/mihomo-config";

    let content = render_service_string(mihomo_binary_path, mihomo_config_root);
    assert!(content.contains("Description=mihomo Daemon, Another Clash Kernel."));
    assert!(content.contains("After=network.target NetworkManager.service"));
    assert!(content.contains("Type=simple"));
    assert!(content.contains("Restart=always"));
    assert!(content.contains(&format!(
        "ExecStart={} -d {}",
        mihomo_binary_path, mihomo_config_root
    )));
    assert!(content.contains("WantedBy=default.target"));
}

#[test]
fn test_create_mihomo_launchd_service_contract() {
    let mihomo_binary_path = "/tmp/test/mihomo";
    let mihomo_config_root = "/tmp/test/mihomo-config";

    let content = build_plist("mihomo.service", mihomo_binary_path, mihomo_config_root);
    assert!(content.contains("<key>Label</key>"));
    assert!(content.contains("<string>mihomo</string>"));
    assert!(content.contains("<key>ProgramArguments</key>"));
    assert!(content.contains("<string>/bin/sh</string>"));
    assert!(content.contains("<string>-c</string>"));
    assert!(content.contains(&format!(
        "<string>{} -d {} 2>&1 | logger</string>",
        mihomo_binary_path, mihomo_config_root
    )));
    assert!(content.contains("<key>RunAtLoad</key>"));
    assert!(content.contains("<key>KeepAlive</key>"));
}

#[test]
fn test_normalize_service_name() {
    assert_eq!(normalize_service_name("mihomo"), "mihomo.service");
    assert_eq!(normalize_service_name("mihomo.service"), "mihomo.service");
}

#[test]
fn test_proxy_commands_uses_mixed_port_when_set() {
    let mut mc = mihomo_config();
    mc.port = 7891;
    mc.socks_port = 7892;
    mc.mixed_port = Some(7890);
    let mihoro = Mihoro::from_config(config(mc), Some("/home/me"), "linux");
    let cmd = mihoro.proxy_commands(&Some(ProxyCommands::Export));
    assert_eq!(cmd, ProxyRequest::Export { http_port: 7890, socks_port: 7890 });
}

#[test]
fn test_proxy_commands_fallback_to_port_when_mixed_port_none() {
    let mut mc = mihomo_config();
    mc.port = 7891;
    mc.socks_port = 7892;
    let mihoro = Mihoro::from_config(config(mc), Some("/home/me"), "linux");
    let cmd = mihoro.proxy_commands(&Some(ProxyCommands::Export));
    assert_eq!(cmd, ProxyRequest::Export { http_port: 7891, socks_port: 7892 });
}

#[test]
fn test_external_ui_target_dir_resolves_relative_path() {
    let mut mc = mihomo_config();
    mc.external_ui = Some("ui".to_string());
    let mihoro = Mihoro::from_config(config(mc), Some("/home/me"), "linux");
    assert_eq!(mihoro.external_ui_target_dir(), Some("/tmp/test/mihomo/ui".to_string()));
}

#[test]
fn from_config_derives_paths() {
    let mihoro = Mihoro::from_config(config(mihomo_config()), Some("/home/me"), "linux");
    assert_eq!(mihoro.prefix, "mihoro:");
    assert_eq!(mihoro.mihomo_target_binary_path, "/tmp/test/mihomo");
    assert_eq!(mihoro.mihomo_target_config_root, "/tmp/test/mihomo");
    assert_eq!(mihoro.mihomo_target_config_path, "/tmp/test/mihomo/config.yaml");
    assert_eq!(mihoro.mihomo_target_service_path, "/tmp/test/systemd/mihomo.service");
    assert_eq!(mihoro.mihomo_service_name, "mihomo.service");

    let mac = Mihoro::from_config(config(mihomo_config()), Some("/Users/me"), "macos");
    assert!(mac
        .mihomo_target_service_path
        .ends_with("/Library/LaunchAgents/mihomo.plist"));
    assert_eq!(
        mac.service_manager("macos").unwrap().selection(),
        SelectedServiceManager::Launchd
    );
}

#[test]
fn from_config_expands_tilde() {
    let mut c = config(mihomo_config());
    c.mihomo_binary_path = "~/.local/bin/mihomo".to_string();
    c.mihomo_config_root = "~/.config/mihomo".to_string();
    c.user_systemd_root = "~/.config/systemd/user".to_string();
    c.service_name = "clash.service".to_string();
    let m = Mihoro::from_config(c, Some("/home/me"), "linux");
    assert_eq!(m.mihomo_target_binary_path, "/home/me/.local/bin/mihomo");
    assert_eq!(m.mihomo_target_config_path, "/home/me/.config/mihomo/config.yaml");
    assert_eq!(m.mihomo_target_service_path, "/home/me/.config/systemd/user/clash.service");

    let mut c = config(mihomo_config());
    c.mihomo_binary_path = "~user/bin".to_string();
    let m = Mihoro::from_config(c, Some("/home/me"), "linux");
    assert_eq!(m.mihomo_target_binary_path, "~user/bin");

    let mut c = config(mihomo_config());
    c.mihomo_binary_path = "~/bin".to_string();
    let m = Mihoro::from_config(c, None, "linux");
    assert_eq!(m.mihomo_target_binary_path, "~/bin");
}

#[test]
fn service_manager_from_config() {
    let mut c = config(mihomo_config());
    c.service_manager = Some("launchd".to_string());
    let m = Mihoro::from_config(c, Some("/home/me"), "linux");
    assert_eq!(m.mihomo_target_service_path, "/home/me/Library/LaunchAgents/mihomo.plist");
    assert_eq!(m.service_manager("linux").unwrap().selection(), SelectedServiceManager::Launchd);

    let mut c = config(mihomo_config());
    c.service_manager = Some("upstart".to_string());
    let m = Mihoro::from_config(c, Some("/home/me"), "linux");
    assert!(m.service_manager("linux").is_err());
}

#[test]
fn cron_requests() {
    let m = Mihoro::from_config(config(mihomo_config()), None, "linux");
    assert!(matches!(m.cron_commands(&Some(CronCommands::Enable)), CronRequest::Enable(12)));
    assert!(matches!(m.cron_commands(&Some(CronCommands::Disable)), CronRequest::Disable));
    match m.cron_commands(&Some(CronCommands::Status)) {
        CronRequest::Status(p) => assert_eq!(p, "/tmp/test/mihomo/config.yaml"),
        _ => panic!("expected a status request"),
    }
    assert!(matches!(m.cron_commands(&None), CronRequest::Nothing));
}

#[test]
fn proxy_lan_and_unset() {
    let mut mc = mihomo_config();
    mc.allow_lan = Some(true);
    let m = Mihoro::from_config(config(mc), None, "linux");
    assert_eq!(
        m.proxy_commands(&Some(ProxyCommands::ExportLan)),
        ProxyRequest::ExportLan { http_port: 7890, socks_port: 7891, lan_disabled: false }
    );
    let m = Mihoro::from_config(config(mihomo_config()), None, "linux");
    assert_eq!(
        m.proxy_commands(&Some(ProxyCommands::ExportLan)),
        ProxyRequest::ExportLan { http_port: 7890, socks_port: 7891, lan_disabled: true }
    );
    assert_eq!(m.proxy_commands(&Some(ProxyCommands::Unset)), ProxyRequest::Unset);
    assert_eq!(m.proxy_commands(&None), ProxyRequest::Nothing);
    assert_eq!(
        proxy_export_cmd("127.0.0.1", 7890, 7891),
        "export https_proxy=http://127.0.0.1:7890 http_proxy=http://127.0.0.1:7890 all_proxy=socks5://127.0.0.1:7891"
    );
    assert_eq!(proxy_unset_cmd(), "unset https_proxy http_proxy all_proxy");
}

fn geox() -> GeoxUrl {
    GeoxUrl {
        geoip: "http://g/geoip.dat".to_string(),
        geosite: "http://g/geosite.dat".to_string(),
        mmdb: "http://g/country.mmdb".to_string(),
    }
}

fn fetched(p: GeodataPlan) -> Vec<(String, String)> {
    match p {
        GeodataPlan::Fetch(v) => v.into_iter().map(|d| (d.url, d.path)).collect(),
        _ => panic!("expected downloads"),
    }
}

#[test]
fn geodata_plans() {
    let m = Mihoro::from_config(config(mihomo_config()), None, "linux");
    assert!(matches!(m.geodata_plan(true, false, false, false), GeodataPlan::NotConfigured));

    let mut mc = mihomo_config();
    mc.geox_url = Some(geox());
    let m = Mihoro::from_config(config(mc), None, "linux");
    assert!(matches!(m.geodata_plan(false, true, true, true), GeodataPlan::Present));
    assert_eq!(
        fetched(m.geodata_plan(true, true, true, true)),
        vec![("http://g/country.mmdb".to_string(), "/tmp/test/mihomo/country.mmdb".to_string())]
    );

    let mut mc = mihomo_config();
    mc.geox_url = Some(geox());
    mc.geodata_mode = Some(true);
    let m = Mihoro::from_config(config(mc), None, "linux");
    assert!(matches!(m.geodata_plan(false, true, true, false), GeodataPlan::Present));
    assert_eq!(
        fetched(m.geodata_plan(false, true, false, false)),
        vec![("http://g/geosite.dat".to_string(), "/tmp/test/mihomo/geosite.dat".to_string())]
    );
    assert_eq!(fetched(m.geodata_plan(true, true, true, true)).len(), 2);
}

#[test]
fn binary_start_and_uninstall_decisions() {
    let m = Mihoro::from_config(config(mihomo_config()), None, "linux");
    match m.binary_decision(true, false) {
        BinaryDecision::Keep(r) => assert_eq!(r, "binary exists at /tmp/test/mihomo"),
        BinaryDecision::Download => panic!("expected to keep the binary"),
    }
    assert!(matches!(m.binary_decision(true, true), BinaryDecision::Download));
    assert!(matches!(m.binary_decision(false, false), BinaryDecision::Download));
    assert_eq!(Mihoro::service_running_plan(true, true), StartPlan::AlreadyRunning);
    assert_eq!(
        Mihoro::service_running_plan(true, false),
        StartPlan::Bring { enable: true, start: false }
    );
    assert_eq!(
        Mihoro::service_running_plan(false, true),
        StartPlan::Bring { enable: false, start: true }
    );
    assert_eq!(m.uninstall_hint(), "rm -R /tmp/test/mihomo /tmp/test/mihomo");
}

#[test]
fn update_selection_precedence() {
    assert_eq!(update_selection(true, true, true, true), UpdateSelection::All);
    assert_eq!(update_selection(true, true, true, false), UpdateSelection::Core);
    assert_eq!(update_selection(true, false, true, false), UpdateSelection::Geodata);
    assert_eq!(update_selection(true, false, false, false), UpdateSelection::Config);
    assert_eq!(update_selection(false, false, false, false), UpdateSelection::Config);
}

#[test]
fn ui_plans() {
    let plain = Mihoro::from_config(config(mihomo_config()), Some("/home/me"), "linux");
    assert!(matches!(plain.ui_plan(false, false), UiPlan::Disabled));

    let mut c = config(mihomo_config());
    c.ui = Some("metacubexd".to_string());
    let no_dir = Mihoro::from_config(c, Some("/home/me"), "linux");
    assert!(matches!(no_dir.ui_plan(false, true), UiPlan::NoTarget));

    let mut mc = mihomo_config();
    mc.external_ui = Some("ui".to_string());
    let mut c = config(mc);
    c.ui = Some("metacubexd".to_string());
    let m = Mihoro::from_config(c, Some("/home/me"), "linux");
    match m.ui_plan(true, false) {
        UiPlan::Present(ui) => assert_eq!(ui, "metacubexd"),
        _ => panic!("expected the installed dashboard to be kept"),
    }
    match m.ui_plan(true, true) {
        UiPlan::Install { ui, target_dir } => {
            assert_eq!(ui, "metacubexd");
            assert_eq!(target_dir, "/tmp/test/mihomo/ui");
        }
        _ => panic!("expected a forced install"),
    }
    match m.ui_plan(false, false) {
        UiPlan::Install { target_dir, .. } => assert_eq!(target_dir, "/tmp/test/mihomo/ui"),
        _ => panic!("expected an install"),
    }
}
