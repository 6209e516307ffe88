//! launchd user agents on macOS: job labels, the property list, `launchctl`
//! targets, and the decisions taken on the outcome of `launchctl` calls.
use vstd::prelude::*;

use super::ProgramCall;

use crate::text::{
    chars_of, contains, ends_with, ends_with_chars, join_path, lemma_contains_self,
    lemma_contains_within, lowercase, output_mentions, path_join, string_from_chars, trim,
    trim_chars,
};

verus! {

broadcast use vstd::string::group_string_axioms;

/// Errors of the launchd logic.
#[derive(Debug, PartialEq, Eq)]
pub enum LaunchdError {
    /// `id -u` did not succeed.
    UidLookupFailed,
    /// `id -u` printed nothing.
    EmptyUid,
    /// `launchctl bootstrap` failed; holds its trimmed error output.
    BootstrapFailed(String),
    /// Both forms of `launchctl bootout` failed; holds the trimmed error output of the second.
    BootoutFailed(String),
}

impl LaunchdError {
    /// The message the command line shows for this error.
    pub fn message(&self) -> (m: String)
        ensures
            m@ == (match self {
                LaunchdError::UidLookupFailed => "failed to resolve uid for launchctl domain target"@,
                LaunchdError::EmptyUid => "received empty uid from `id -u`"@,
                LaunchdError::BootstrapFailed(e) => "launchctl bootstrap failed: "@ + e@,
                LaunchdError::BootoutFailed(e) => "launchctl bootout failed: "@ + e@,
            }),
    {
        match self {
            LaunchdError::UidLookupFailed => "failed to resolve uid for launchctl domain target".to_string(),
            LaunchdError::EmptyUid => "received empty uid from `id -u`".to_string(),
            LaunchdError::BootstrapFailed(e) => {
                let mut m = "launchctl bootstrap failed: ".to_string();
                m.append(e.as_str());
                m
            },
            LaunchdError::BootoutFailed(e) => {
                let mut m = "launchctl bootout failed: ".to_string();
                m.append(e.as_str());
                m
            },
        }
    }
}

/// The service name without its `.service` suffix.
pub open spec fn stem_spec(service: Seq<char>) -> Seq<char> {
    if ends_with(service, ".service"@) {
        service.subrange(0, service.len() - 8)
    } else {
        service
    }
}

/// The property list of the launchd job that runs mihomo through `sh -c`, with its
/// output sent to the system log.
pub open spec fn plist_spec(label: Seq<char>, binary_path: Seq<char>, config_root: Seq<char>) -> Seq<
    char,
> {
    "<?xml version=\"1.0\" encoding=\"UTF-8\"?>\n<!DOCTYPE plist PUBLIC \"-//Apple//DTD PLIST 1.0//EN\" \"http://www.apple.com/DTDs/PropertyList-1.0.dtd\">\n<plist version=\"1.0\">\n<dict>\n  <key>Label</key>\n  <string>"@
        + label
        + "</string>\n  <key>ProgramArguments</key>\n  <array>\n    <string>/bin/sh</string>\n    <string>-c</string>\n    <string>"@
        + binary_path + " -d "@ + config_root
        + " 2>&1 | logger</string>\n  </array>\n  <key>RunAtLoad</key>\n  <true/>\n  <key>KeepAlive</key>\n  <true/>\n  <key>WorkingDirectory</key>\n  <string>"@
        + config_root + "</string>\n</dict>\n</plist>\n"@
}

proof fn lemma_plist_literals()
    ensures
        "<?xml version=\"1.0\" encoding=\"UTF-8\"?>\n<!DOCTYPE plist PUBLIC \"-//Apple//DTD PLIST 1.0//EN\" \"http://www.apple.com/DTDs/PropertyList-1.0.dtd\">\n<plist version=\"1.0\">\n<dict>\n  <key>Label</key>\n  <string>"@ == "<?xml version=\"1.0\" encoding=\"UTF-8\"?>\n<!DOCTYPE plist PUBLIC \"-//Apple//DTD PLIST 1.0//EN\" \"http://www.apple.com/DTDs/PropertyList-1.0.dtd\">\n<plist version=\"1.0\">\n<dict>\n  "@ + "<key>Label</key>\n  <string>"@,
        "</string>\n  <key>ProgramArguments</key>\n  <array>\n    <string>/bin/sh</string>\n    <string>-c</string>\n    <string>"@ == "</string>"@ + "\n  <key>ProgramArguments</key>\n  <array>\n    <string>/bin/sh</string>\n    <string>-c</string>\n    "@ + "<string>"@,
        " 2>&1 | logger</string>\n  </array>\n  <key>RunAtLoad</key>\n  <true/>\n  <key>KeepAlive</key>\n  <true/>\n  <key>WorkingDirectory</key>\n  <string>"@ == " 2>&1 | logger</string>"@ + "\n  </array>\n  <key>RunAtLoad</key>\n  <true/>\n  <key>KeepAlive</key>\n  <true/>\n  <key>WorkingDirectory</key>\n  <string>"@,
        contains("\n  </array>\n  <key>RunAtLoad</key>\n  <true/>\n  <key>KeepAlive</key>\n  <true/>\n  <key>WorkingDirectory</key>\n  <string>"@, "<key>RunAtLoad</key>\n  <true/>"@),
        contains("\n  </array>\n  <key>RunAtLoad</key>\n  <true/>\n  <key>KeepAlive</key>\n  <true/>\n  <key>WorkingDirectory</key>\n  <string>"@, "<key>KeepAlive</key>\n  <true/>"@),
{
    reveal_strlit("<?xml version=\"1.0\" encoding=\"UTF-8\"?>\n<!DOCTYPE plist PUBLIC \"-//Apple//DTD PLIST 1.0//EN\" \"http://www.apple.com/DTDs/PropertyList-1.0.dtd\">\n<plist version=\"1.0\">\n<dict>\n  <key>Label</key>\n  <string>");
    reveal_strlit("<?xml version=\"1.0\" encoding=\"UTF-8\"?>\n<!DOCTYPE plist PUBLIC \"-//Apple//DTD PLIST 1.0//EN\" \"http://www.apple.com/DTDs/PropertyList-1.0.dtd\">\n<plist version=\"1.0\">\n<dict>\n  ");
    reveal_strlit("<key>Label</key>\n  <string>");
    reveal_strlit("</string>\n  <key>ProgramArguments</key>\n  <array>\n    <string>/bin/sh</string>\n    <string>-c</string>\n    <string>");
    reveal_strlit("</string>");
    reveal_strlit("\n  <key>ProgramArguments</key>\n  <array>\n    <string>/bin/sh</string>\n    <string>-c</string>\n    ");
    reveal_strlit("<string>");
    reveal_strlit(" 2>&1 | logger</string>\n  </array>\n  <key>RunAtLoad</key>\n  <true/>\n  <key>KeepAlive</key>\n  <true/>\n  <key>WorkingDirectory</key>\n  <string>");
    reveal_strlit(" 2>&1 | logger</string>");
    reveal_strlit("\n  </array>\n  <key>RunAtLoad</key>\n  <true/>\n  <key>KeepAlive</key>\n  <true/>\n  <key>WorkingDirectory</key>\n  <string>");
    reveal_strlit("<key>RunAtLoad</key>\n  <true/>");
    reveal_strlit("<key>KeepAlive</key>\n  <true/>");
    assert("<?xml version=\"1.0\" encoding=\"UTF-8\"?>\n<!DOCTYPE plist PUBLIC \"-//Apple//DTD PLIST 1.0//EN\" \"http://www.apple.com/DTDs/PropertyList-1.0.dtd\">\n<plist version=\"1.0\">\n<dict>\n  <key>Label</key>\n  <string>"@ =~= "<?xml version=\"1.0\" encoding=\"UTF-8\"?>\n<!DOCTYPE plist PUBLIC \"-//Apple//DTD PLIST 1.0//EN\" \"http://www.apple.com/DTDs/PropertyList-1.0.dtd\">\n<plist version=\"1.0\">\n<dict>\n  "@ + "<key>Label</key>\n  <string>"@);
    assert("</string>\n  <key>ProgramArguments</key>\n  <array>\n    <string>/bin/sh</string>\n    <string>-c</string>\n    <string>"@ =~= "</string>"@ + "\n  <key>ProgramArguments</key>\n  <array>\n    <string>/bin/sh</string>\n    <string>-c</string>\n    "@ + "<string>"@);
    assert(" 2>&1 | logger</string>\n  </array>\n  <key>RunAtLoad</key>\n  <true/>\n  <key>KeepAlive</key>\n  <true/>\n  <key>WorkingDirectory</key>\n  <string>"@ =~= " 2>&1 | logger</string>"@ + "\n  </array>\n  <key>RunAtLoad</key>\n  <true/>\n  <key>KeepAlive</key>\n  <true/>\n  <key>WorkingDirectory</key>\n  <string>"@);
    let ira: int = 14;
    let ika: int = 47;
    assert("\n  </array>\n  <key>RunAtLoad</key>\n  <true/>\n  <key>KeepAlive</key>\n  <true/>\n  <key>WorkingDirectory</key>\n  <string>"@.subrange(ira, ira + "<key>RunAtLoad</key>\n  <true/>"@.len()) =~= "<key>RunAtLoad</key>\n  <true/>"@);
    assert("\n  </array>\n  <key>RunAtLoad</key>\n  <true/>\n  <key>KeepAlive</key>\n  <true/>\n  <key>WorkingDirectory</key>\n  <string>"@.subrange(ika, ika + "<key>KeepAlive</key>\n  <true/>"@.len()) =~= "<key>KeepAlive</key>\n  <true/>"@);
}

/// The launchd job runs mihomo through `sh -c` as `<binary> -d <config_root>` with
/// its output sent to `logger`, is labelled with the service name without
/// `.service`, is started when loaded and is kept alive: launchd starts it again
/// whenever it exits.
pub proof fn lemma_plist_keeps_job_alive(service: Seq<char>, binary_path: Seq<char>, config_root: Seq<char>)
    ensures
        contains(plist_spec(stem_spec(service), binary_path, config_root), "<key>RunAtLoad</key>\n  <true/>"@),
        contains(plist_spec(stem_spec(service), binary_path, config_root), "<key>KeepAlive</key>\n  <true/>"@),
        contains(
            plist_spec(stem_spec(service), binary_path, config_root),
            "<key>Label</key>\n  <string>"@ + stem_spec(service) + "</string>"@,
        ),
        contains(
            plist_spec(stem_spec(service), binary_path, config_root),
            "<string>"@ + binary_path + " -d "@ + config_root + " 2>&1 | logger</string>"@,
        ),
{
    lemma_plist_literals();
    let label = stem_spec(service);
    let pl = plist_spec(label, binary_path, config_root);
    let h0 = "<?xml version=\"1.0\" encoding=\"UTF-8\"?>\n<!DOCTYPE plist PUBLIC \"-//Apple//DTD PLIST 1.0//EN\" \"http://www.apple.com/DTDs/PropertyList-1.0.dtd\">\n<plist version=\"1.0\">\n<dict>\n  "@;
    let m1a = "\n  <key>ProgramArguments</key>\n  <array>\n    <string>/bin/sh</string>\n    <string>-c</string>\n    "@;
    let m2a = "\n  </array>\n  <key>RunAtLoad</key>\n  <true/>\n  <key>KeepAlive</key>\n  <true/>\n  <key>WorkingDirectory</key>\n  <string>"@;
    let nl = "<key>Label</key>\n  <string>"@ + label + "</string>"@;
    let np = "<string>"@ + binary_path + " -d "@ + config_root + " 2>&1 | logger</string>"@;
    lemma_contains_self(nl);
    lemma_contains_self(np);
    assert(pl =~= h0 + nl + (m1a + "<string>"@ + binary_path + " -d "@ + config_root + " 2>&1 | logger</string>\n  </array>\n  <key>RunAtLoad</key>\n  <true/>\n  <key>KeepAlive</key>\n  <true/>\n  <key>WorkingDirectory</key>\n  <string>"@ + config_root + "</string>\n</dict>\n</plist>\n"@));
    lemma_contains_within(h0, nl, m1a + "<string>"@ + binary_path + " -d "@ + config_root + " 2>&1 | logger</string>\n  </array>\n  <key>RunAtLoad</key>\n  <true/>\n  <key>KeepAlive</key>\n  <true/>\n  <key>WorkingDirectory</key>\n  <string>"@ + config_root + "</string>\n</dict>\n</plist>\n"@, nl);
    assert(pl =~= ("<?xml version=\"1.0\" encoding=\"UTF-8\"?>\n<!DOCTYPE plist PUBLIC \"-//Apple//DTD PLIST 1.0//EN\" \"http://www.apple.com/DTDs/PropertyList-1.0.dtd\">\n<plist version=\"1.0\">\n<dict>\n  <key>Label</key>\n  <string>"@ + label + "</string>"@ + m1a) + np + (m2a + config_root + "</string>\n</dict>\n</plist>\n"@));
    lemma_contains_within("<?xml version=\"1.0\" encoding=\"UTF-8\"?>\n<!DOCTYPE plist PUBLIC \"-//Apple//DTD PLIST 1.0//EN\" \"http://www.apple.com/DTDs/PropertyList-1.0.dtd\">\n<plist version=\"1.0\">\n<dict>\n  <key>Label</key>\n  <string>"@ + label + "</string>"@ + m1a, np, m2a + config_root + "</string>\n</dict>\n</plist>\n"@, np);
    let before = "<?xml version=\"1.0\" encoding=\"UTF-8\"?>\n<!DOCTYPE plist PUBLIC \"-//Apple//DTD PLIST 1.0//EN\" \"http://www.apple.com/DTDs/PropertyList-1.0.dtd\">\n<plist version=\"1.0\">\n<dict>\n  <key>Label</key>\n  <string>"@ + label + "</string>\n  <key>ProgramArguments</key>\n  <array>\n    <string>/bin/sh</string>\n    <string>-c</string>\n    <string>"@ + binary_path + " -d "@ + config_root + " 2>&1 | logger</string>"@;
    assert(pl =~= before + m2a + (config_root + "</string>\n</dict>\n</plist>\n"@));
    lemma_contains_within(before, m2a, config_root + "</string>\n</dict>\n</plist>\n"@, "<key>RunAtLoad</key>\n  <true/>"@);
    lemma_contains_within(before, m2a, config_root + "</string>\n</dict>\n</plist>\n"@, "<key>KeepAlive</key>\n  <true/>"@);
}

/// The arguments of `log stream` that select mihomo's lines in the system log.
pub open spec fn log_stream_args() -> Seq<Seq<char>> {
    seq![
        "stream"@,
        "--style"@,
        "syslog"@,
        "--predicate"@,
        "process == \"logger\" AND composedMessage CONTAINS \"time=\" AND composedMessage CONTAINS \"msg=\""@,
    ]
}

/// The error output of `launchctl bootout` says the job is not there.
pub open spec fn reports_missing_job(stderr: Seq<char>) -> bool {
    ||| contains(lowercase(stderr), lowercase("could not find service"@))
    ||| contains(lowercase(stderr), lowercase("not loaded"@))
    ||| contains(lowercase(stderr), lowercase("no such process"@))
}

/// The service name without its `.service` suffix.
pub fn service_stem(service: &str) -> (stem: &str)
    ensures
        stem@ == stem_spec(service@),
{
    let chars = chars_of(service);
    if ends_with_chars(&chars, &chars_of(".service")) {
        proof {
            reveal_strlit(".service");
        }
        service.substring_char(0, chars.len() - 8)
    } else {
        service
    }
}

/// The launchd job label of a service: its name without `.service`.
pub fn service_label(service: &str) -> (label: String)
    ensures
        label@ == stem_spec(service@),
{
    service_stem(service).to_string()
}

/// The property list of the launchd job for `service`.
pub fn build_plist(service: &str, mihomo_binary_path: &str, mihomo_config_root: &str) -> (plist:
    String)
    ensures
        plist@ == plist_spec(stem_spec(service@), mihomo_binary_path@, mihomo_config_root@),
{
    let label = service_label(service);
    let mut s = "<?xml version=\"1.0\" encoding=\"UTF-8\"?>\n<!DOCTYPE plist PUBLIC \"-//Apple//DTD PLIST 1.0//EN\" \"http://www.apple.com/DTDs/PropertyList-1.0.dtd\">\n<plist version=\"1.0\">\n<dict>\n  <key>Label</key>\n  <string>".to_string();
    s.append(label.as_str());
    s.append(
        "</string>\n  <key>ProgramArguments</key>\n  <array>\n    <string>/bin/sh</string>\n    <string>-c</string>\n    <string>",
    );
    s.append(mihomo_binary_path);
    s.append(" -d ");
    s.append(mihomo_config_root);
    s.append(
        " 2>&1 | logger</string>\n  </array>\n  <key>RunAtLoad</key>\n  <true/>\n  <key>KeepAlive</key>\n  <true/>\n  <key>WorkingDirectory</key>\n  <string>",
    );
    s.append(mihomo_config_root);
    s.append("</string>\n</dict>\n</plist>\n");
    s
}

/// `<home>/Library/LaunchAgents/<label>.plist`.
pub fn default_plist_path(home: &str, service: &str) -> (path: String)
    ensures
        path@ == path_join(
            path_join(path_join(home@, "Library"@), "LaunchAgents"@),
            stem_spec(service@) + ".plist"@,
        ),
{
    let p = join_path(&chars_of(home), &chars_of("Library"));
    let p = join_path(&p, &chars_of("LaunchAgents"));
    let mut file = chars_of(service_stem(service));
    crate::text::push_all(&mut file, &chars_of(".plist"));
    let p = join_path(&p, &file);
    string_from_chars(&p)
}

/// The user id from the `UID` environment variable, when it is set and not empty.
pub fn uid_from_env(uid: Option<&str>) -> (r: Option<String>)
    ensures
        match uid {
            Some(u) if u@.len() > 0 => r matches Some(s) && s@ == u@,
            _ => r is None,
        },
{
    match uid {
        Some(u) => {
            if u.unicode_len() > 0 {
                Some(u.to_string())
            } else {
                None
            }
        },
        None => None,
    }
}

/// The user id from the outcome of `id -u`: its output, trimmed.
pub fn uid_from_id_output(success: bool, stdout: &str) -> (r: Result<String, LaunchdError>)
    ensures
        !success ==> r == Err::<String, LaunchdError>(LaunchdError::UidLookupFailed),
        success && trim(stdout@).len() == 0 ==> r == Err::<String, LaunchdError>(
            LaunchdError::EmptyUid,
        ),
        success && trim(stdout@).len() > 0 ==> (r matches Ok(u) && u@ == trim(stdout@)),
{
    if !success {
        return Err(LaunchdError::UidLookupFailed);
    }
    let uid = trim_chars(&chars_of(stdout));
    if uid.len() == 0 {
        return Err(LaunchdError::EmptyUid);
    }
    Ok(string_from_chars(&uid))
}

/// The launchd domain of the user's GUI session, `gui/<uid>`.
pub fn domain_target(uid: &str) -> (d: String)
    ensures
        d@ == "gui/"@ + uid@,
{
    let mut d = "gui/".to_string();
    d.append(uid);
    d
}

/// The launchd target of the service, `gui/<uid>/<label>`.
pub fn service_target(uid: &str, service: &str) -> (t: String)
    ensures
        t@ == "gui/"@ + uid@ + "/"@ + stem_spec(service@),
{
    let mut t = domain_target(uid);
    t.append("/");
    t.append(service_stem(service));
    t
}

/// The outcome of `launchctl bootstrap`: success, or the failure with its error output.
pub fn bootstrap_result(success: bool, stderr: &str) -> (r: Result<(), LaunchdError>)
    ensures
        success ==> r is Ok,
        !success ==> (r matches Err(LaunchdError::BootstrapFailed(e)) && e@ == trim(stderr@)),
{
    if success {
        Ok(())
    } else {
        Err(LaunchdError::BootstrapFailed(string_from_chars(&trim_chars(&chars_of(stderr)))))
    }
}

fn reports_missing(stderr: &str) -> (r: bool)
    ensures
        r == reports_missing_job(stderr@),
{
    output_mentions(stderr, "could not find service") || output_mentions(stderr, "not loaded")
        || output_mentions(stderr, "no such process")
}

/// After `launchctl bootout <target>` failed, the outcome of the fallback
/// `launchctl bootout <domain> <plist>`: success if the fallback succeeded or if
/// either error output says the job is not there (the fallback's status is then
/// reported), and the fallback's error otherwise.
pub fn bootout_fallback_result(target_stderr: &str, fallback_success: bool, fallback_stderr: &str) -> (r:
    Result<(), LaunchdError>)
    ensures
        fallback_success || reports_missing_job(target_stderr@) || reports_missing_job(
            fallback_stderr@,
        ) ==> r is Ok,
        !(fallback_success || reports_missing_job(target_stderr@) || reports_missing_job(
            fallback_stderr@,
        )) ==> (r matches Err(LaunchdError::BootoutFailed(e)) && e@ == trim(fallback_stderr@)),
{
    if fallback_success {
        return Ok(());
    }
    if reports_missing(target_stderr) || reports_missing(fallback_stderr) {
        return Ok(());
    }
    Err(LaunchdError::BootoutFailed(string_from_chars(&trim_chars(&chars_of(fallback_stderr)))))
}

/// The next step of stopping a launchd job with `launchctl bootout`.
#[derive(Debug, PartialEq, Eq)]
pub enum BootoutNext {
    /// The job is not loaded: nothing to do.
    NothingToDo,
    /// Run `launchctl bootout <target>`.
    BootoutTarget,
    /// Run the fallback `launchctl bootout <domain> <plist>`.
    BootoutDomain,
    /// Done; the status of the last `launchctl` run is the outcome.
    Finished,
    /// Both forms failed.
    Failed(LaunchdError),
}

/// Decides the next step of stopping a job from what is known so far: whether it is
/// loaded, and the outcome (success and error output) of the `launchctl bootout`
/// runs made so far, the target form first and then the domain form.
pub fn bootout_next(loaded: bool, target: Option<(bool, &str)>, fallback: Option<(bool, &str)>) -> (n:
    BootoutNext)
    ensures
        !loaded ==> n == BootoutNext::NothingToDo,
        loaded ==> match target {
            None => n == BootoutNext::BootoutTarget,
            Some((ok, te)) => if ok {
                n == BootoutNext::Finished
            } else {
                match fallback {
                    None => n == BootoutNext::BootoutDomain,
                    Some((fok, fe)) => if fok || reports_missing_job(te@) || reports_missing_job(
                        fe@,
                    ) {
                        n == BootoutNext::Finished
                    } else {
                        n matches BootoutNext::Failed(LaunchdError::BootoutFailed(e)) && e@ == trim(
                            fe@,
                        )
                    },
                }
            },
        },
{
    if !loaded {
        return BootoutNext::NothingToDo;
    }
    match target {
        None => BootoutNext::BootoutTarget,
        Some((ok, te)) => {
            if ok {
                BootoutNext::Finished
            } else {
                match fallback {
                    None => BootoutNext::BootoutDomain,
                    Some((fok, fe)) => match bootout_fallback_result(te, fok, fe) {
                        Ok(()) => BootoutNext::Finished,
                        Err(e) => BootoutNext::Failed(e),
                    },
                }
            }
        },
    }
}

/// `log stream` over the system log lines that mihomo writes through `logger`.
pub fn logs() -> (c: ProgramCall)
    ensures
        c.program@ == "log"@,
        c.args.deep_view() == log_stream_args(),
{
    let mut args: Vec<String> = Vec::new();
    args.push("stream".to_string());
    args.push("--style".to_string());
    args.push("syslog".to_string());
    args.push("--predicate".to_string());
    args.push(
        "process == \"logger\" AND composedMessage CONTAINS \"time=\" AND composedMessage CONTAINS \"msg=\"".to_string(),
    );
    let c = ProgramCall { program: "log".to_string(), args };
    assert(c.args.deep_view() =~= log_stream_args());
    c
}

} // verus!
