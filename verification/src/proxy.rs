//! Shell commands that point the proxy variables at mihomo.
use vstd::prelude::*;

use crate::text::{
    chars_of, contains, decimal, lemma_contains_self, lemma_contains_within, push_all, push_decimal,
    string_from_chars,
};

verus! {

broadcast use vstd::string::group_string_axioms;

/// `export` of `https_proxy` and `http_proxy` (HTTP on `http_port`) and `all_proxy`
/// (SOCKS5 on `socks_port`), all on `host`.
pub open spec fn proxy_export_spec(host: Seq<char>, http_port: u16, socks_port: u16) -> Seq<char> {
    "export https_proxy=http://"@ + host + ":"@ + decimal(http_port as nat) + " http_proxy=http://"@
        + host + ":"@ + decimal(http_port as nat) + " all_proxy=socks5://"@ + host + ":"@
        + decimal(socks_port as nat)
}

/// The shell command that exports the proxy variables for `hostname`.
pub fn proxy_export_cmd(hostname: &str, http_port: u16, socks_port: u16) -> (cmd: String)
    ensures
        cmd@ == proxy_export_spec(hostname@, http_port, socks_port),
{
    let host = chars_of(hostname);
    let mut c = chars_of("export https_proxy=http://");
    push_all(&mut c, &host);
    c.push(':');
    push_decimal(&mut c, http_port as u64);
    push_all(&mut c, &chars_of(" http_proxy=http://"));
    push_all(&mut c, &host);
    c.push(':');
    push_decimal(&mut c, http_port as u64);
    push_all(&mut c, &chars_of(" all_proxy=socks5://"));
    push_all(&mut c, &host);
    c.push(':');
    push_decimal(&mut c, socks_port as u64);
    assert(c@ =~= proxy_export_spec(hostname@, http_port, socks_port)) by {
        reveal_strlit(":");
    }
    string_from_chars(&c)
}

/// The shell command that unsets the proxy variables.
pub fn proxy_unset_cmd() -> (cmd: String)
    ensures
        cmd@ == "unset https_proxy http_proxy all_proxy"@,
{
    "unset https_proxy http_proxy all_proxy".to_string()
}

/// `<name>=<scheme>://<host>:<port>`, one proxy variable pointed at `host`.
pub open spec fn proxy_assignment(name: Seq<char>, scheme: Seq<char>, host: Seq<char>, port: u16) -> Seq<
    char,
> {
    name + "="@ + scheme + "://"@ + host + ":"@ + decimal(port as nat)
}

proof fn lemma_export_literals()
    ensures
        "export https_proxy=http://"@ == "export "@ + ("https_proxy"@ + "="@ + "http"@ + "://"@),
        " http_proxy=http://"@ == " "@ + ("http_proxy"@ + "="@ + "http"@ + "://"@),
        " all_proxy=socks5://"@ == " "@ + ("all_proxy"@ + "="@ + "socks5"@ + "://"@),
{
    reveal_strlit("export https_proxy=http://");
    reveal_strlit(" http_proxy=http://");
    reveal_strlit(" all_proxy=socks5://");
    reveal_strlit("export ");
    reveal_strlit(" ");
    reveal_strlit("https_proxy");
    reveal_strlit("http_proxy");
    reveal_strlit("all_proxy");
    reveal_strlit("=");
    reveal_strlit("http");
    reveal_strlit("socks5");
    reveal_strlit("://");
    assert("export https_proxy=http://"@ =~= "export "@ + ("https_proxy"@ + "="@ + "http"@ + "://"@));
    assert(" http_proxy=http://"@ =~= " "@ + ("http_proxy"@ + "="@ + "http"@ + "://"@));
    assert(" all_proxy=socks5://"@ =~= " "@ + ("all_proxy"@ + "="@ + "socks5"@ + "://"@));
}

proof fn lemma_contains_parts(e: Seq<char>, a1: Seq<char>, s: Seq<char>, a2: Seq<char>, a3: Seq<char>)
    ensures
        contains(e + a1 + s + a2 + s + a3, a1),
        contains(e + a1 + s + a2 + s + a3, a2),
        contains(e + a1 + s + a2 + s + a3, a3),
{
    let out = e + a1 + s + a2 + s + a3;
    lemma_contains_self(a1);
    lemma_contains_self(a2);
    lemma_contains_self(a3);
    assert(out =~= e + a1 + (s + a2 + s + a3));
    lemma_contains_within(e, a1, s + a2 + s + a3, a1);
    assert(out =~= e + a1 + s + a2 + (s + a3));
    lemma_contains_within(e + a1 + s, a2, s + a3, a2);
    assert(out =~= e + a1 + s + a2 + s + a3 + Seq::<char>::empty());
    lemma_contains_within(e + a1 + s + a2 + s, a3, Seq::<char>::empty(), a3);
}

/// The export command is one `export` of three variables, each pointed at the
/// given host: `https_proxy` and `http_proxy` over HTTP on the HTTP port, and
/// `all_proxy` over SOCKS5 on the SOCKS port.
pub proof fn lemma_export_names_host(host: Seq<char>, http_port: u16, socks_port: u16)
    ensures
        proxy_export_spec(host, http_port, socks_port) == "export "@ + proxy_assignment(
            "https_proxy"@,
            "http"@,
            host,
            http_port,
        ) + " "@ + proxy_assignment("http_proxy"@, "http"@, host, http_port) + " "@
            + proxy_assignment("all_proxy"@, "socks5"@, host, socks_port),
        contains(
            proxy_export_spec(host, http_port, socks_port),
            proxy_assignment("https_proxy"@, "http"@, host, http_port),
        ),
        contains(
            proxy_export_spec(host, http_port, socks_port),
            proxy_assignment("http_proxy"@, "http"@, host, http_port),
        ),
        contains(
            proxy_export_spec(host, http_port, socks_port),
            proxy_assignment("all_proxy"@, "socks5"@, host, socks_port),
        ),
{
    lemma_export_literals();
    let e = "export "@;
    let sp1 = " "@;
    let hp = decimal(http_port as nat);
    let sp = decimal(socks_port as nat);
    let x1 = "https_proxy"@ + "="@ + "http"@ + "://"@;
    let x2 = "http_proxy"@ + "="@ + "http"@ + "://"@;
    let x3 = "all_proxy"@ + "="@ + "socks5"@ + "://"@;
    let a1 = x1 + host + ":"@ + hp;
    let a2 = x2 + host + ":"@ + hp;
    let a3 = x3 + host + ":"@ + sp;
    let out = proxy_export_spec(host, http_port, socks_port);
    assert(out == (e + x1) + host + ":"@ + hp + (sp1 + x2) + host + ":"@ + hp + (sp1 + x3) + host
        + ":"@ + sp);
    assert(out =~= e + a1 + sp1 + a2 + sp1 + a3);
    assert(proxy_assignment("https_proxy"@, "http"@, host, http_port) == a1);
    assert(proxy_assignment("http_proxy"@, "http"@, host, http_port) == a2);
    assert(proxy_assignment("all_proxy"@, "socks5"@, host, socks_port) == a3);
    lemma_contains_parts(e, a1, sp1, a2, a3);
}

} // verus!
