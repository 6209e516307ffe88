//! systemd user services: the `systemctl --user` argument builder and the unit file.
use vstd::prelude::*;

use super::ProgramCall;

use crate::text::{contains, ends_with};

verus! {

broadcast use vstd::string::group_string_axioms;

/// Builds the arguments of a `systemctl` invocation; every subcommand is issued
/// with `--user`.  Running it is up to the caller.
pub struct Systemctl {
    args: Vec<String>,
}

impl View for Systemctl {
    type V = Seq<Seq<char>>;

    closed spec fn view(&self) -> Seq<Seq<char>> {
        self.args.deep_view()
    }
}

/// The three arguments `--user <verb> <service>`.
pub open spec fn user_verb(verb: Seq<char>, service: Seq<char>) -> Seq<Seq<char>> {
    seq!["--user"@, verb, service]
}

impl Systemctl {
    /// A `systemctl` invocation without arguments.
    pub fn new() -> (s: Self)
        ensures
            s@ == Seq::<Seq<char>>::empty(),
    {
        let s = Systemctl { args: Vec::new() };
        assert(s@ =~= Seq::<Seq<char>>::empty());
        s
    }

    fn push_arg(&mut self, a: &str)
        ensures
            final(self)@ == old(self)@.push(a@),
    {
        let ghost before = self@;
        let s = a.to_string();
        assert(s.deep_view() == s@);
        self.args.push(s);
        assert(self@ =~= before.push(a@));
    }

    fn push_verb(&mut self, verb: &str, service: &str)
        ensures
            final(self)@ == old(self)@ + user_verb(verb@, service@),
    {
        self.push_arg("--user");
        self.push_arg(verb);
        self.push_arg(service);
        assert(final(self)@ =~= old(self)@ + user_verb(verb@, service@));
    }

    /// Appends `--user enable <service>`.
    pub fn enable(&mut self, service: &str) -> (r: &mut Self)
        ensures
            *final(self) == *final(r),
            r@ == old(self)@ + user_verb("enable"@, service@),
    {
        self.push_verb("enable", service);
        self
    }

    /// Appends `--user start <service>`.
    pub fn start(&mut self, service: &str) -> (r: &mut Self)
        ensures
            *final(self) == *final(r),
            r@ == old(self)@ + user_verb("start"@, service@),
    {
        self.push_verb("start", service);
        self
    }

    /// Appends `--user stop <service>`.
    pub fn stop(&mut self, service: &str) -> (r: &mut Self)
        ensures
            *final(self) == *final(r),
            r@ == old(self)@ + user_verb("stop"@, service@),
    {
        self.push_verb("stop", service);
        self
    }

    /// Appends `--user restart <service>`.
    pub fn restart(&mut self, service: &str) -> (r: &mut Self)
        ensures
            *final(self) == *final(r),
            r@ == old(self)@ + user_verb("restart"@, service@),
    {
        self.push_verb("restart", service);
        self
    }

    /// Appends `--user status <service>`.
    pub fn status(&mut self, service: &str) -> (r: &mut Self)
        ensures
            *final(self) == *final(r),
            r@ == old(self)@ + user_verb("status"@, service@),
    {
        self.push_verb("status", service);
        self
    }

    /// Appends `--user disable <service>`.
    pub fn disable(&mut self, service: &str) -> (r: &mut Self)
        ensures
            *final(self) == *final(r),
            r@ == old(self)@ + user_verb("disable"@, service@),
    {
        self.push_verb("disable", service);
        self
    }

    /// Appends `--user daemon-reload`.
    pub fn daemon_reload(&mut self) -> (r: &mut Self)
        ensures
            *final(self) == *final(r),
            r@ == old(self)@ + seq!["--user"@, "daemon-reload"@],
    {
        self.push_arg("--user");
        self.push_arg("daemon-reload");
        assert(self@ =~= old(self)@ + seq!["--user"@, "daemon-reload"@]);
        self
    }

    /// Appends `--user reset-failed`.
    pub fn reset_failed(&mut self) -> (r: &mut Self)
        ensures
            *final(self) == *final(r),
            r@ == old(self)@ + seq!["--user"@, "reset-failed"@],
    {
        self.push_arg("--user");
        self.push_arg("reset-failed");
        assert(self@ =~= old(self)@ + seq!["--user"@, "reset-failed"@]);
        self
    }

    /// The program and the arguments gathered so far.
    pub fn command_parts(&self) -> (r: (&str, &[String]))
        ensures
            r.0@ == "systemctl"@,
            r.1.deep_view() == self@,
    {
        ("systemctl", self.args.as_slice())
    }

    /// The invocation as a program and its arguments.
    pub fn to_call(&self) -> (c: ProgramCall)
        ensures
            c.program@ == "systemctl"@,
            c.args.deep_view() == self@,
    {
        ProgramCall { program: "systemctl".to_string(), args: self.args.clone() }
    }
}

/// The unit file of the mihomo user service, started as `<binary_path> -d <config_root>`.
pub open spec fn service_unit_spec(binary_path: Seq<char>, config_root: Seq<char>) -> Seq<char> {
    "[Unit]\nDescription=mihomo Daemon, Another Clash Kernel.\nAfter=network.target NetworkManager.service systemd-networkd.service iwd.service\n\n[Service]\nType=simple\nLimitNPROC=4096\nLimitNOFILE=65536\nRestart=always\nExecStartPre=/usr/bin/sleep 1s\nExecStart="@
        + binary_path + " -d "@ + config_root
        + "\nExecReload=/bin/kill -HUP $MAINPID\n\n[Install]\nWantedBy=default.target"@
}

/// Renders the systemd unit file for the mihomo service.
pub fn render_service_string(binary_path: &str, config_root: &str) -> (unit: String)
    ensures
        unit@ == service_unit_spec(binary_path@, config_root@),
{
    let mut s = "[Unit]\nDescription=mihomo Daemon, Another Clash Kernel.\nAfter=network.target NetworkManager.service systemd-networkd.service iwd.service\n\n[Service]\nType=simple\nLimitNPROC=4096\nLimitNOFILE=65536\nRestart=always\nExecStartPre=/usr/bin/sleep 1s\nExecStart=".to_string();
    s.append(binary_path);
    s.append(" -d ");
    s.append(config_root);
    s.append("\nExecReload=/bin/kill -HUP $MAINPID\n\n[Install]\nWantedBy=default.target");
    s
}

/// `journalctl --user -xeu <service> -n 10 -f`: follow the last lines of the service log.
pub fn journalctl_logs(service: &str) -> (c: ProgramCall)
    ensures
        c.program@ == "journalctl"@,
        c.args.deep_view() == seq!["--user"@, "-xeu"@, service@, "-n"@, "10"@, "-f"@],
{
    let mut args: Vec<String> = Vec::new();
    args.push("--user".to_string());
    args.push("-xeu".to_string());
    args.push(service.to_string());
    args.push("-n".to_string());
    args.push("10".to_string());
    args.push("-f".to_string());
    let c = ProgramCall { program: "journalctl".to_string(), args };
    assert(c.args.deep_view() =~= seq!["--user"@, "-xeu"@, service@, "-n"@, "10"@, "-f"@]);
    c
}

/// No section header can start in this text: it holds no `[`.
pub open spec fn no_section_header(s: Seq<char>) -> bool {
    forall|j: int| 0 <= j < s.len() ==> s[j] != '['
}

proof fn lemma_unit_literals()
    ensures
        "[Unit]\nDescription=mihomo Daemon, Another Clash Kernel.\nAfter=network.target NetworkManager.service systemd-networkd.service iwd.service\n\n[Service]\nType=simple\nLimitNPROC=4096\nLimitNOFILE=65536\nRestart=always\nExecStartPre=/usr/bin/sleep 1s\nExecStart="@
            == "[Unit]\n"@ + "Description=mihomo Daemon, Another Clash Kernel.\nAfter=network.target NetworkManager.service systemd-networkd.service iwd.service"@
            + "\n\n[Service]\n"@ + "Type=simple\nLimitNPROC=4096\nLimitNOFILE=65536\nRestart=always\nExecStartPre=/usr/bin/sleep 1s\n"@
            + "ExecStart="@,
        no_section_header(
            "Description=mihomo Daemon, Another Clash Kernel.\nAfter=network.target NetworkManager.service systemd-networkd.service iwd.service"@,
        ),
        no_section_header(
            "Type=simple\nLimitNPROC=4096\nLimitNOFILE=65536\nRestart=always\nExecStartPre=/usr/bin/sleep 1s\n"@,
        ),
        contains(
            "Type=simple\nLimitNPROC=4096\nLimitNOFILE=65536\nRestart=always\nExecStartPre=/usr/bin/sleep 1s\n"@,
            "Type=simple\n"@,
        ),
        contains(
            "Type=simple\nLimitNPROC=4096\nLimitNOFILE=65536\nRestart=always\nExecStartPre=/usr/bin/sleep 1s\n"@,
            "\nRestart=always\n"@,
        ),
        "\nExecReload=/bin/kill -HUP $MAINPID\n\n[Install]\nWantedBy=default.target"@.len() > 0,
        "\nExecReload=/bin/kill -HUP $MAINPID\n\n[Install]\nWantedBy=default.target"@[0] == '\n',
        ends_with(
            "\nExecReload=/bin/kill -HUP $MAINPID\n\n[Install]\nWantedBy=default.target"@,
            "\n\n[Install]\nWantedBy=default.target"@,
        ),
{
    reveal_strlit(
        "[Unit]\nDescription=mihomo Daemon, Another Clash Kernel.\nAfter=network.target NetworkManager.service systemd-networkd.service iwd.service\n\n[Service]\nType=simple\nLimitNPROC=4096\nLimitNOFILE=65536\nRestart=always\nExecStartPre=/usr/bin/sleep 1s\nExecStart=",
    );
    reveal_strlit("[Unit]\n");
    reveal_strlit(
        "Description=mihomo Daemon, Another Clash Kernel.\nAfter=network.target NetworkManager.service systemd-networkd.service iwd.service",
    );
    reveal_strlit("\n\n[Service]\n");
    reveal_strlit(
        "Type=simple\nLimitNPROC=4096\nLimitNOFILE=65536\nRestart=always\nExecStartPre=/usr/bin/sleep 1s\n",
    );
    reveal_strlit("ExecStart=");
    reveal_strlit("Type=simple\n");
    reveal_strlit("\nRestart=always\n");
    reveal_strlit("\nExecReload=/bin/kill -HUP $MAINPID\n\n[Install]\nWantedBy=default.target");
    reveal_strlit("\n\n[Install]\nWantedBy=default.target");
    let pre = "Type=simple\nLimitNPROC=4096\nLimitNOFILE=65536\nRestart=always\nExecStartPre=/usr/bin/sleep 1s\n"@;
    let i0: int = 0;
    let i1: int = 45;
    assert(pre.subrange(i0, i0 + "Type=simple\n"@.len()) =~= "Type=simple\n"@);
    assert(pre.subrange(i1, i1 + "\nRestart=always\n"@.len()) =~= "\nRestart=always\n"@);
    let post = "\nExecReload=/bin/kill -HUP $MAINPID\n\n[Install]\nWantedBy=default.target"@;
    let inst = "\n\n[Install]\nWantedBy=default.target"@;
    assert(post.subrange(post.len() - inst.len(), post.len() as int) =~= inst);
    assert("[Unit]\nDescription=mihomo Daemon, Another Clash Kernel.\nAfter=network.target NetworkManager.service systemd-networkd.service iwd.service\n\n[Service]\nType=simple\nLimitNPROC=4096\nLimitNOFILE=65536\nRestart=always\nExecStartPre=/usr/bin/sleep 1s\nExecStart="@
        =~= "[Unit]\n"@ + "Description=mihomo Daemon, Another Clash Kernel.\nAfter=network.target NetworkManager.service systemd-networkd.service iwd.service"@
        + "\n\n[Service]\n"@ + pre + "ExecStart="@);
}

/// The unit file has a `[Unit]` section, then a `[Service]` section whose
/// settings include `Type=simple` and `Restart=always` and which starts the daemon
/// with `ExecStart=<binary_path> -d <config_root>` on a line of its own, and ends
/// with the `[Install]` section that has the service started with the user session.
pub proof fn lemma_unit_runs_the_daemon(binary_path: Seq<char>, config_root: Seq<char>)
    ensures
        exists|unit_section: Seq<char>, settings: Seq<char>, rest: Seq<char>|
            {
                &&& service_unit_spec(binary_path, config_root) == "[Unit]\n"@ + unit_section
                    + "\n\n[Service]\n"@ + settings + "ExecStart="@ + binary_path + " -d "@
                    + config_root + rest
                &&& no_section_header(unit_section)
                &&& no_section_header(settings)
                &&& contains(settings, "Type=simple\n"@)
                &&& contains(settings, "\nRestart=always\n"@)
                &&& rest.len() > 0 && rest[0] == '\n'
                &&& ends_with(rest, "\n\n[Install]\nWantedBy=default.target"@)
            },
{
    lemma_unit_literals();
    let u = "Description=mihomo Daemon, Another Clash Kernel.\nAfter=network.target NetworkManager.service systemd-networkd.service iwd.service"@;
    let p = "Type=simple\nLimitNPROC=4096\nLimitNOFILE=65536\nRestart=always\nExecStartPre=/usr/bin/sleep 1s\n"@;
    let r = "\nExecReload=/bin/kill -HUP $MAINPID\n\n[Install]\nWantedBy=default.target"@;
    assert(service_unit_spec(binary_path, config_root) =~= "[Unit]\n"@ + u + "\n\n[Service]\n"@ + p
        + "ExecStart="@ + binary_path + " -d "@ + config_root + r);
    assert(r.len() > 0);
}

} // verus!
