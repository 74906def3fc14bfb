//! Decisions of the installers: reading the agent's `config.toml`, telling a
//! loopback server URL apart, and the URLs and task names they use.

use vstd::prelude::*;
use crate::text::{
    ascii_lower, before_char, before_char_v, chars, eq_v, find_char, find_char_v, lemma_find_char,
    lower_v, split_once, split_once_v, starts_with, starts_with_v, strip_both, strip_both_v,
    strip_end, strip_end_v, strip_start, strip_start_v, copy_range, to_string, trim, trim_v, CharClass,
    eq_ignore_case, eq_ignore_case_v,
};

verus! {

/// The value of `key` on one line of a `key = value` file, as the installer reads it:
/// the line is trimmed and stripped of leading byte-order marks, split at the first
/// `=`, the name must equal `key` after trimming, and the value is cut at the first
/// `#`, trimmed, stripped of surrounding `"` and then `'`, of trailing `/`, and trimmed
/// again. An empty value counts as absent.
pub open spec fn config_line_value(line: Seq<char>, key: Seq<char>) -> Option<Seq<char>> {
    let l = strip_start(trim(line), CharClass::Is('\u{feff}'));
    match split_once(l, '=') {
        None => None,
        Some((name, value)) => {
            if trim(name) != key {
                None
            } else {
                let v = trim(
                    strip_end(
                        strip_both(
                            strip_both(trim(before_char(value, '#')), CharClass::Is('"')),
                            CharClass::Is('\''),
                        ),
                        CharClass::Is('/'),
                    ),
                );
                if v.len() == 0 {
                    None
                } else {
                    Some(v)
                }
            }
        },
    }
}

/// The first line (split at `\n`) whose value for `key` is present.
pub open spec fn config_value_spec(text: Seq<char>, key: Seq<char>) -> Option<Seq<char>>
    decreases text.len(),
{
    let r = find_char(text, '\n');
    let line = if r < 0 {
        text
    } else {
        text.take(r)
    };
    match config_line_value(line, key) {
        Some(v) => Some(v),
        None => {
            if r < 0 {
                None
            } else {
                proof {
                    lemma_find_char(text, '\n');
                }
                config_value_spec(text.skip(r + 1), key)
            }
        },
    }
}

fn config_line_value_v(line: &Vec<char>, key: &Vec<char>) -> (r: Option<Vec<char>>)
    ensures
        match r {
            Some(v) => config_line_value(line@, key@) == Some(v@),
            None => config_line_value(line@, key@) is None,
        },
{
    let t = trim_v(line);
    let l = strip_start_v(&t, CharClass::Is('\u{feff}'));
    match split_once_v(&l, '=') {
        None => None,
        Some((name, value)) => {
            let tn = trim_v(&name);
            if !eq_v(&tn, key) {
                return None;
            }
            let v0 = before_char_v(&value, '#');
            let v1 = trim_v(&v0);
            let v2 = strip_both_v(&v1, CharClass::Is('"'));
            let v3 = strip_both_v(&v2, CharClass::Is('\''));
            let v4 = strip_end_v(&v3, CharClass::Is('/'));
            let v5 = trim_v(&v4);
            if v5.len() == 0 {
                None
            } else {
                Some(v5)
            }
        },
    }
}

/// Reads one value from the agent's `config.toml` text.
pub fn config_value(text: &str, key: &str) -> (r: Option<String>)
    ensures
        match r {
            Some(v) => config_value_spec(text@, key@) == Some(v@),
            None => config_value_spec(text@, key@) is None,
        },
{
    let k = chars(key);
    let mut rest = chars(text);
    loop
        invariant
            config_value_spec(text@, key@) == config_value_spec(rest@, k@),
            k@ == key@,
        decreases rest@.len(),
    {
        let n = rest.len();
        let r = find_char_v(&rest, '\n');
        proof {
            lemma_find_char(rest@, '\n');
        }
        let line = match r {
            Some(i) => copy_range(&rest, 0, i),
            None => copy_range(&rest, 0, rest.len()),
        };
        assert(rest@.subrange(0, rest@.len() as int) =~= rest@);
        match config_line_value_v(&line, &k) {
            Some(v) => {
                return Some(to_string(&v));
            },
            None => {
                match r {
                    None => {
                        return None;
                    },
                    Some(i) => {
                        rest = copy_range(&rest, i + 1, n);
                    },
                }
            },
        }
    }
}

pub open spec fn loopback_prefixes() -> Seq<Seq<char>> {
    seq![
        "http://127.0.0.1"@,
        "https://127.0.0.1"@,
        "http://localhost"@,
        "https://localhost"@,
        "http://[::1]"@,
        "https://[::1]"@,
    ]
}

/// A URL names this machine: after trimming, dropping trailing `/` and lowering ASCII
/// case it is one of the loopback origins, or one of them followed by `:` and more.
pub open spec fn is_loopback_spec(value: Seq<char>) -> bool {
    let lower = ascii_lower(strip_end(trim(value), CharClass::Is('/')));
    exists|i: int|
        0 <= i < loopback_prefixes().len() && (lower == #[trigger] loopback_prefixes()[i]
            || starts_with(lower, loopback_prefixes()[i].push(':')))
}

fn loopback_prefix(i: usize) -> (r: &'static str)
    requires
        i < 6,
    ensures
        r@ == loopback_prefixes()[i as int],
{
    if i == 0 {
        "http://127.0.0.1"
    } else if i == 1 {
        "https://127.0.0.1"
    } else if i == 2 {
        "http://localhost"
    } else if i == 3 {
        "https://localhost"
    } else if i == 4 {
        "http://[::1]"
    } else {
        "https://[::1]"
    }
}

pub fn is_loopback_url(value: &str) -> (r: bool)
    ensures
        r == is_loopback_spec(value@),
{
    let v = chars(value);
    let t = trim_v(&v);
    let s = strip_end_v(&t, CharClass::Is('/'));
    let lower = lower_v(&s);
    let mut i: usize = 0;
    while i < 6
        invariant
            i <= 6,
            lower@ == ascii_lower(strip_end(trim(value@), CharClass::Is('/'))),
            forall|j: int|
                0 <= j < i ==> !(lower@ == #[trigger] loopback_prefixes()[j] || starts_with(
                    lower@,
                    loopback_prefixes()[j].push(':'),
                )),
        decreases 6 - i,
    {
        let p = chars(loopback_prefix(i));
        let mut pc = p.clone();
        pc.push(':');
        if eq_v(&lower, &p) || starts_with_v(&lower, &pc) {
            return true;
        }
        i = i + 1;
    }
    false
}

pub const DEFAULT_SERVER_IP: &'static str = "192.0.2.10";
/// The server's port when none is configured (8080, the port the deployment guide gives).
pub const DEFAULT_PORT: u16 = 8080;

/// `http://{ip}` on the default port 80, `http://{ip}:{port}` otherwise.
pub open spec fn url_with_port(host: Seq<char>, port: u16) -> Seq<char> {
    if port == 80 {
        "http://"@ + host
    } else {
        "http://"@ + host + ":"@ + crate::text::nat_digits(port as nat)
    }
}

fn url_with_port_v(host: &str, port: u16) -> (r: String)
    ensures
        r@ == url_with_port(host@, port),
{
    let mut u = chars("http://");
    crate::text::extend_str(&mut u, host);
    if port != 80 {
        crate::text::extend_str(&mut u, ":");
        let d = crate::text::fmt_u64(port as u64);
        crate::text::extend(&mut u, &d);
    }
    to_string(&u)
}

/// The server's URL on the LAN.
pub fn default_server_url() -> (r: String)
    ensures
        r@ == url_with_port(DEFAULT_SERVER_IP@, DEFAULT_PORT),
{
    url_with_port_v(DEFAULT_SERVER_IP, DEFAULT_PORT)
}

/// The server's URL on the server machine itself.
pub fn localhost_server_url() -> (r: String)
    ensures
        r@ == url_with_port("127.0.0.1"@, DEFAULT_PORT),
{
    url_with_port_v("127.0.0.1", DEFAULT_PORT)
}

/// The dashboard's URL on the server machine itself.
pub fn localhost_dashboard_url() -> (r: String)
    ensures
        r@ == url_with_port("localhost"@, DEFAULT_PORT),
{
    url_with_port_v("localhost", DEFAULT_PORT)
}

/// The address the server listens on: every interface, default port.
pub fn listen_address() -> (r: String)
    ensures
        r@ == "0.0.0.0:"@ + crate::text::nat_digits(DEFAULT_PORT as nat),
{
    let mut a = chars("0.0.0.0:");
    let d = crate::text::fmt_u64(DEFAULT_PORT as u64);
    crate::text::extend(&mut a, &d);
    to_string(&a)
}

// ---------------------------------------------------------------------------
// Roles and the agent's server
// ---------------------------------------------------------------------------

/// What a setup run installs: a client PC, or an IT PC.
#[derive(Clone, Copy, PartialEq, Eq, Structural)]
pub enum Role {
    Client,
    Ti,
}

impl Role {
    pub open spec fn title_spec(self) -> Seq<char> {
        match self {
            Role::Client => "Belarc Cliente Setup"@,
            Role::Ti => "Belarc TI Setup"@,
        }
    }

    /// The window title of the setup.
    pub fn title(self) -> (r: &'static str)
        ensures
            r@ == self.title_spec(),
    {
        match self {
            Role::Client => "Belarc Cliente Setup",
            Role::Ti => "Belarc TI Setup",
        }
    }
}

/// The server the agent reports to: on the server machine, the local address
/// (without a trailing `/`); elsewhere the one given.
pub fn agent_server_url(server_url: &str, local_server: bool) -> (r: String)
    ensures
        r@ == if local_server {
            strip_end(url_with_port("127.0.0.1"@, DEFAULT_PORT), CharClass::Is('/'))
        } else {
            server_url@
        },
{
    if local_server {
        let l = localhost_server_url();
        to_string(&strip_end_v(&chars(l.as_str()), CharClass::Is('/')))
    } else {
        server_url.to_string()
    }
}

/// What setup does on a PC whose agent is already configured.
pub enum ExistingAgent {
    /// Keep the configuration; the shortcuts use the server given.
    Keep,
    /// This is the server: the agent keeps its loopback address, shown here, and the
    /// shortcuts use the server given.
    KeepLocal(String),
    /// The PC belongs to another server and none runs here: change nothing.
    Refuse(String),
    /// The configuration has no server: back it up and reinstall the agent, with the
    /// token it holds (a new one where it holds none).
    Rebuild(Option<String>),
}

pub open spec fn refuse_text(configured: Seq<char>, server_url: Seq<char>) -> Seq<char> {
    "este PC já está configurado para "@ + configured + ", diferente do servidor informado "@ + server_url
        + ", e não foi detectado um servidor local ativo. Nenhuma configuração foi alterada. Use --server-url "@
        + configured + " ou valide o ambiente antes de trocar de servidor."@
}

pub open spec fn existing_agent_ok(text: Seq<char>, server_url: Seq<char>, local_server: bool, r: ExistingAgent) -> bool {
    match config_value_spec(text, "server_url"@) {
        Some(configured) => if eq_ignore_case(configured, server_url) {
            r is Keep
        } else if local_server && is_loopback_spec(configured) {
            r matches ExistingAgent::KeepLocal(c) && c@ == configured
        } else {
            r matches ExistingAgent::Refuse(m) && m@ == refuse_text(configured, server_url)
        },
        None => r matches ExistingAgent::Rebuild(t) && match config_value_spec(text, "agent_token"@) {
            Some(tok) => if trim(tok).len() > 0 {
                t matches Some(x) && x@ == tok
            } else {
                t is None
            },
            None => t is None,
        },
    }
}

/// Decides what setup does with an agent configuration already on the PC: the same
/// server (any letter case) is kept; another one is kept only on the server machine
/// when it is a loopback address; otherwise setup refuses to change anything.
pub fn existing_agent_decision(config_text: &str, server_url: &str, local_server: bool) -> (r: ExistingAgent)
    ensures
        existing_agent_ok(config_text@, server_url@, local_server, r),
{
    match config_value(config_text, "server_url") {
        Some(configured) => {
            if eq_ignore_case_v(&chars(configured.as_str()), &chars(server_url)) {
                ExistingAgent::Keep
            } else if local_server && is_loopback_url(configured.as_str()) {
                ExistingAgent::KeepLocal(configured)
            } else {
                let mut m = chars("este PC já está configurado para ");
                crate::text::extend_str(&mut m, configured.as_str());
                crate::text::extend_str(&mut m, ", diferente do servidor informado ");
                crate::text::extend_str(&mut m, server_url);
                crate::text::extend_str(
                    &mut m,
                    ", e não foi detectado um servidor local ativo. Nenhuma configuração foi alterada. Use --server-url ",
                );
                crate::text::extend_str(&mut m, configured.as_str());
                crate::text::extend_str(&mut m, " ou valide o ambiente antes de trocar de servidor.");
                assert(m@ =~= refuse_text(configured@, server_url@));
                ExistingAgent::Refuse(to_string(&m))
            }
        },
        None => {
            let token = match config_value(config_text, "agent_token") {
                Some(t) => {
                    if trim_v(&chars(t.as_str())).len() > 0 {
                        Some(t)
                    } else {
                        None
                    }
                },
                None => None,
            };
            ExistingAgent::Rebuild(token)
        },
    }
}

// ---------------------------------------------------------------------------
// Running as administrator from a local disk
// ---------------------------------------------------------------------------

/// The installer's file name where the running one cannot be found.
pub fn exe_name_default() -> (r: &'static str)
    ensures
        r@ == "BelarcPC.exe"@,
{
    "BelarcPC.exe"
}

/// What the installer must do before it runs.
pub enum ReadyAction {
    /// It runs from a network share: copy it to the local disk and run the copy.
    CopyToLocal,
    /// It lacks administrator rights: run again elevated.
    Elevate,
    /// Run.
    Ready,
}

/// The installer runs as administrator from a local disk: first the copy off a
/// share (`\\`), then the elevation.
pub fn ensure_ready_exe(exe_path: &str, is_admin: bool) -> (r: ReadyAction)
    ensures
        starts_with(exe_path@, "\\\\"@) ==> r is CopyToLocal,
        !starts_with(exe_path@, "\\\\"@) && !is_admin ==> r is Elevate,
        !starts_with(exe_path@, "\\\\"@) && is_admin ==> r is Ready,
{
    if starts_with_v(&chars(exe_path), &chars("\\\\")) {
        ReadyAction::CopyToLocal
    } else if !is_admin {
        ReadyAction::Elevate
    } else {
        ReadyAction::Ready
    }
}

/// An argument of the elevated run: quoted (with `'` doubled) where `quote_all` or
/// where it holds a space.
pub open spec fn elevation_arg(a: Seq<char>, quote_all: bool) -> Seq<char> {
    if quote_all || a.contains(' ') {
        "'"@ + crate::commands::ps_escape(a) + "'"@
    } else {
        a
    }
}

pub open spec fn elevation_args(args: Seq<Seq<char>>, quote_all: bool) -> Seq<char>
    decreases args.len(),
{
    if args.len() == 0 {
        Seq::empty()
    } else if args.len() == 1 {
        elevation_arg(args[0], quote_all)
    } else {
        elevation_args(args.drop_last(), quote_all) + ","@ + elevation_arg(args.last(), quote_all)
    }
}

/// The PowerShell command that runs the installer again as administrator, with the
/// same arguments, and waits for it.
pub open spec fn elevation_script(exe: Seq<char>, args: Seq<Seq<char>>, quote_all: bool) -> Seq<char> {
    if args.len() == 0 {
        "Start-Process -FilePath '"@ + crate::commands::ps_escape(exe) + "' -Verb RunAs -Wait"@
    } else {
        "Start-Process -FilePath '"@ + crate::commands::ps_escape(exe) + "' -ArgumentList "@ + elevation_args(args, quote_all)
            + " -Verb RunAs -Wait"@
    }
}

pub fn request_elevation_script(exe: &str, args: &[String], quote_all: bool) -> (r: String)
    ensures
        r@ == elevation_script(exe@, crate::compliance::views(args@), quote_all),
{
    let ghost av = crate::compliance::views(args@);
    let mut t = chars("Start-Process -FilePath '");
    crate::text::extend_str(&mut t, crate::commands::ps_escape_v(exe).as_str());
    if args.len() == 0 {
        crate::text::extend_str(&mut t, "' -Verb RunAs -Wait");
        assert(t@ =~= elevation_script(exe@, av, quote_all));
        return to_string(&t);
    }
    crate::text::extend_str(&mut t, "' -ArgumentList ");
    let ghost t0 = t@;
    let mut i: usize = 0;
    assert(av.take(0) =~= Seq::<Seq<char>>::empty());
    assert(t@ =~= t0 + elevation_args(av.take(0), quote_all));
    while i < args.len()
        invariant
            i <= args@.len(),
            av == crate::compliance::views(args@),
            t@ == t0 + elevation_args(av.take(i as int), quote_all),
        decreases args@.len() - i,
    {
        assert(av.take(i + 1).drop_last() =~= av.take(i as int));
        assert(av.take(i + 1).last() == args@[i as int]@);
        let a = args[i].as_str();
        let ghost before = t@;
        if i > 0 {
            crate::text::extend_str(&mut t, ",");
        } else {
            assert(av.take(1)[0] == av[0]);
        }
        let spaced = crate::text::contains_v(&chars(a), &chars(" "));
        proof {
            reveal_strlit(" ");
            if a@.contains(' ') {
                let k = choose|k: int| 0 <= k < a@.len() && a@[k] == ' ';
                assert(a@.subrange(k, k + 1) =~= " "@);
                assert(crate::text::occurs_at(a@, " "@, k));
            }
            if crate::text::contains(a@, " "@) {
                let k = choose|k: int| crate::text::occurs_at(a@, " "@, k);
                assert(a@.subrange(k, k + 1)[0] == a@[k]);
                assert(a@[k] == ' ');
            }
        }
        assert(spaced == a@.contains(' '));
        if quote_all || spaced {
            crate::text::extend_str(&mut t, "'");
            crate::text::extend_str(&mut t, crate::commands::ps_escape_v(a).as_str());
            crate::text::extend_str(&mut t, "'");
        } else {
            crate::text::extend_str(&mut t, a);
        }
        assert(t@ =~= t0 + elevation_args(av.take(i + 1), quote_all));
        i = i + 1;
    }
    assert(av.take(args@.len() as int) =~= av);
    crate::text::extend_str(&mut t, " -Verb RunAs -Wait");
    assert(t@ =~= elevation_script(exe@, av, quote_all));
    to_string(&t)
}

} // verus!
