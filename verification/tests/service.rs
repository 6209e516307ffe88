use mihoro::service::launchd::{
    bootout_fallback_result, bootout_next, bootstrap_result, build_plist, default_plist_path, domain_target,
    logs, service_label, service_stem, service_target, uid_from_env, uid_from_id_output,
    BootoutNext, LaunchdError,
};
use mihoro::service::systemd::{journalctl_logs, render_service_string, Systemctl};
use mihoro::service::{
    select_service_manager, LaunchdOperation, SelectedServiceManager, ServiceAction,
    ServiceCommand, ServiceError, ServiceManager, ServiceManagerKind,
};

#[test]
fn test_service_stem_and_label() {
    assert_eq!(service_stem("mihomo.service"), "mihomo");
    assert_eq!(service_stem("mihomo"), "mihomo");
    assert_eq!(service_label("mihomo.service"), "mihomo");
}

#[test]
fn test_build_plist_contains_required_keys() {
    let plist = build_plist(
        "mihomo.service",
        "/tmp/test/mihomo",
        "/tmp/test/mihomo-config",
    );
    assert!(plist.contains("<key>Label</key>"));
    assert!(plist.contains("<string>mihomo</string>"));
    assert!(plist.contains("<key>ProgramArguments</key>"));
    assert!(plist.contains("<string>/bin/sh</string>"));
    assert!(plist.contains("<string>-c</string>"));
    assert!(plist.contains(
        "<string>/tmp/test/mihomo -d /tmp/test/mihomo-config 2>&1 | logger</string>"
    ));
    assert!(plist.contains("<key>RunAtLoad</key>"));
    assert!(plist.contains("<key>KeepAlive</key>"));
}

#[test]
fn test_parse_service_manager_kind() {
    assert_eq!(
        ServiceManagerKind::from_str("auto").unwrap(),
        ServiceManagerKind::Auto
    );
    assert_eq!(
        ServiceManagerKind::from_str("systemd").unwrap(),
        ServiceManagerKind::Systemd
    );
    assert_eq!(
        ServiceManagerKind::from_str("launchd").unwrap(),
        ServiceManagerKind::Launchd
    );
    assert!(ServiceManagerKind::from_str("invalid").is_err());
}

#[test]
fn test_select_explicit_launchd_succeeds() {
    let result = ServiceManager::new(ServiceManagerKind::Launchd, "linux");
    assert!(result.is_ok());
}

#[test]
fn test_select_auto_linux() {
    let selected = select_service_manager(ServiceManagerKind::Auto, "linux").unwrap();
    assert_eq!(selected, SelectedServiceManager::Systemd);
}

#[test]
fn test_select_auto_macos() {
    let selected = select_service_manager(ServiceManagerKind::Auto, "macos").unwrap();
    assert_eq!(selected, SelectedServiceManager::Launchd);
}

#[test]
fn test_start_command_contract() {
    let mut systemctl = Systemctl::new();
    systemctl.start("mihomo.service");
    let (program, args) = systemctl.command_parts();
    assert_eq!(program, "systemctl");
    assert_eq!(args, &["--user", "start", "mihomo.service"]);
}

#[test]
fn test_status_command_contract() {
    let mut systemctl = Systemctl::new();
    systemctl.status("mihomo.service");
    let (program, args) = systemctl.command_parts();
    assert_eq!(program, "systemctl");
    assert_eq!(args, &["--user", "status", "mihomo.service"]);
}

#[test]
fn test_restart_command_contract() {
    let mut systemctl = Systemctl::new();
    systemctl.restart("mihomo.service");
    let (program, args) = systemctl.command_parts();
    assert_eq!(program, "systemctl");
    assert_eq!(args, &["--user", "restart", "mihomo.service"]);
}

#[test]
fn test_uninstall_related_commands_contract() {
    let mut systemctl = Systemctl::new();
    systemctl
        .stop("mihomo.service")
        .disable("mihomo.service")
        .daemon_reload()
        .reset_failed();
    let (program, args) = systemctl.command_parts();
    assert_eq!(program, "systemctl");
    assert_eq!(
        args,
        &[
            "--user",
            "stop",
            "mihomo.service",
            "--user",
            "disable",
            "mihomo.service",
            "--user",
            "daemon-reload",
            "--user",
            "reset-failed",
        ]
    );
}

#[test]
fn service_manager_errors() {
    assert_eq!(
        ServiceManagerKind::from_str("Systemd"),
        Err(ServiceError::UnsupportedServiceManager("Systemd".to_string()))
    );
    assert_eq!(
        select_service_manager(ServiceManagerKind::Auto, "windows"),
        Err(ServiceError::UnsupportedOs("windows".to_string()))
    );
    assert_eq!(
        select_service_manager(ServiceManagerKind::Systemd, "freebsd"),
        Ok(SelectedServiceManager::Systemd)
    );
    assert_eq!(
        ServiceError::UnsupportedServiceManager("x".to_string()).message(),
        "unsupported service manager: x"
    );
    assert_eq!(
        ServiceError::UnsupportedOs("windows".to_string()).message(),
        "unsupported operating system for auto service manager: windows"
    );
    assert!(ServiceManager::new(ServiceManagerKind::Auto, "windows").is_err());
}

fn run_args(c: ServiceCommand) -> (String, Vec<String>) {
    match c {
        ServiceCommand::Run(call) => (call.program, call.args),
        ServiceCommand::Launchd(_) => panic!("expected a program"),
    }
}

#[test]
fn systemd_commands() {
    let m = ServiceManager::new(ServiceManagerKind::Systemd, "linux").unwrap();
    assert_eq!(m.selection(), SelectedServiceManager::Systemd);
    let (p, a) = run_args(m.command(ServiceAction::Enable, "mihomo.service"));
    assert_eq!(p, "systemctl");
    assert_eq!(a, ["--user", "enable", "mihomo.service"]);
    let (_, a) = run_args(m.command(ServiceAction::DaemonReload, "mihomo.service"));
    assert_eq!(a, ["--user", "daemon-reload"]);
    let (p, a) = run_args(m.command(ServiceAction::Logs, "mihomo.service"));
    assert_eq!(p, "journalctl");
    assert_eq!(a, ["--user", "-xeu", "mihomo.service", "-n", "10", "-f"]);
    let j = journalctl_logs("x");
    assert_eq!(j.program, "journalctl");
}

#[test]
fn launchd_commands() {
    let m = ServiceManager::new(ServiceManagerKind::Auto, "macos").unwrap();
    assert!(matches!(
        m.command(ServiceAction::Start, "mihomo.service"),
        ServiceCommand::Launchd(LaunchdOperation::Bootstrap)
    ));
    assert!(matches!(
        m.command(ServiceAction::Stop, "mihomo.service"),
        ServiceCommand::Launchd(LaunchdOperation::Bootout)
    ));
    assert!(matches!(
        m.command(ServiceAction::Restart, "mihomo.service"),
        ServiceCommand::Launchd(LaunchdOperation::Kickstart)
    ));
    assert!(matches!(
        m.command(ServiceAction::Status, "mihomo.service"),
        ServiceCommand::Launchd(LaunchdOperation::Print)
    ));
    let (p, a) = run_args(m.command(ServiceAction::ResetFailed, "mihomo.service"));
    assert_eq!(p, "true");
    assert!(a.is_empty());
    let (p, a) = run_args(m.command(ServiceAction::Logs, "mihomo.service"));
    assert_eq!(p, "log");
    assert_eq!(a, logs().args);
    assert_eq!(a[0], "stream");
}

#[test]
fn unit_file_exact() {
    let unit = render_service_string("/bin/m", "/etc/m");
    assert!(unit.starts_with("[Unit]\nDescription=mihomo Daemon, Another Clash Kernel.\n"));
    assert!(unit.contains("\nExecStart=/bin/m -d /etc/m\n"));
    assert!(unit.ends_with("[Install]\nWantedBy=default.target"));
}

#[test]
fn launchd_targets_and_paths() {
    assert_eq!(domain_target("501"), "gui/501");
    assert_eq!(service_target("501", "mihomo.service"), "gui/501/mihomo");
    assert_eq!(
        default_plist_path("/Users/me", "mihomo.service"),
        "/Users/me/Library/LaunchAgents/mihomo.plist"
    );
    assert_eq!(
        default_plist_path("/Users/me/", "clash"),
        "/Users/me/Library/LaunchAgents/clash.plist"
    );
    assert_eq!(service_stem("a.service.service"), "a.service");
    assert_eq!(service_stem(".service"), "");
}

#[test]
fn launchd_uid_resolution() {
    assert_eq!(uid_from_env(Some("501")), Some("501".to_string()));
    assert_eq!(uid_from_env(Some("")), None);
    assert_eq!(uid_from_env(None), None);
    assert_eq!(uid_from_id_output(true, " 501\n"), Ok("501".to_string()));
    assert_eq!(uid_from_id_output(true, " \n"), Err(LaunchdError::EmptyUid));
    assert_eq!(uid_from_id_output(false, "501"), Err(LaunchdError::UidLookupFailed));
    assert_eq!(
        LaunchdError::EmptyUid.message(),
        "received empty uid from `id -u`"
    );
}

#[test]
fn launchd_bootstrap_and_bootout_outcomes() {
    assert_eq!(bootstrap_result(true, "whatever"), Ok(()));
    assert_eq!(
        bootstrap_result(false, " Bootstrap failed: 5 \n"),
        Err(LaunchdError::BootstrapFailed("Bootstrap failed: 5".to_string()))
    );
    assert_eq!(bootout_fallback_result("x", true, "y"), Ok(()));
    assert_eq!(bootout_fallback_result("Could not find service", false, "y"), Ok(()));
    assert_eq!(bootout_fallback_result("x", false, "Service is NOT LOADED"), Ok(()));
    assert_eq!(bootout_fallback_result("No such process", false, "y"), Ok(()));
    let err = bootout_fallback_result("x", false, " boom ");
    assert_eq!(err, Err(LaunchdError::BootoutFailed("boom".to_string())));
    assert_eq!(err.unwrap_err().message(), "launchctl bootout failed: boom");
}

#[test]
fn launchd_bootout_steps() {
    assert_eq!(bootout_next(false, None, None), BootoutNext::NothingToDo);
    assert_eq!(bootout_next(true, None, None), BootoutNext::BootoutTarget);
    assert_eq!(bootout_next(true, Some((true, "")), None), BootoutNext::Finished);
    assert_eq!(bootout_next(true, Some((false, "err")), None), BootoutNext::BootoutDomain);
    assert_eq!(bootout_next(true, Some((false, "err")), Some((true, ""))), BootoutNext::Finished);
    assert_eq!(
        bootout_next(true, Some((false, "Could not find service")), Some((false, "x"))),
        BootoutNext::Finished
    );
    assert_eq!(
        bootout_next(true, Some((false, "a")), Some((false, " Input/output error \n"))),
        BootoutNext::Failed(LaunchdError::BootoutFailed("Input/output error".to_string()))
    );
}
