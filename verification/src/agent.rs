//! The agent's decisions: which collectors a tier runs, how PowerShell's output is
//! decoded, what is sent to the server, and which results changed since the last
//! upload.

use vstd::prelude::*;
use crate::admin::ostr;
use crate::compliance::views;
use crate::ext::{from_utf16_lossy, from_utf8_lossy, utf16_lossy, utf8_lossy};
use crate::json::{get_str, get_u64, json_str, json_u64, str_or, str_or_v, Json};
use crate::models::{find_collector, find_collector_exec, CollectionTier, CollectorResult, UtcTime};
use crate::text::{chars, extend_str, str_eq, to_string};
use crate::winpath::{win_join, win_join_v};

verus! {

/// Why a collector produced no result.
pub enum CollectorError {
    NotFound(String),
    Execution(String),
    Json(String),
}

impl CollectorError {
    pub open spec fn message_spec(&self) -> Seq<char> {
        match self {
            CollectorError::NotFound(m) => "collector script not found: "@ + m@,
            CollectorError::Execution(m) => "execution failed: "@ + m@,
            CollectorError::Json(m) => "json parse failed: "@ + m@,
        }
    }

    /// The error's text.
    pub fn message(&self) -> (r: String)
        ensures
            r@ == self.message_spec(),
    {
        let (head, m) = match self {
            CollectorError::NotFound(m) => ("collector script not found: ", m),
            CollectorError::Execution(m) => ("execution failed: ", m),
            CollectorError::Json(m) => ("json parse failed: ", m),
        };
        let mut t = chars(head);
        extend_str(&mut t, m.as_str());
        to_string(&t)
    }
}

// ---------------------------------------------------------------------------
// Decoding PowerShell's output
// ---------------------------------------------------------------------------

/// The 16-bit units of byte pairs, little-endian (a trailing odd byte is dropped).
pub open spec fn le_units(b: Seq<u8>) -> Seq<u16> {
    Seq::new(b.len() / 2, |i: int| (b[2 * i] + 256 * b[2 * i + 1]) as u16)
}

/// The 16-bit units of byte pairs, big-endian (a trailing odd byte is dropped).
pub open spec fn be_units(b: Seq<u8>) -> Seq<u16> {
    Seq::new(b.len() / 2, |i: int| (256 * b[2 * i] + b[2 * i + 1]) as u16)
}

/// How many byte pairs are a non-zero byte followed by a zero byte.
pub open spec fn ascii_pairs(b: Seq<u8>, n: nat) -> nat
    decreases n,
{
    if n == 0 {
        0
    } else {
        let i = (n - 1) as int;
        ascii_pairs(b, (n - 1) as nat) + if b[2 * i + 1] == 0 && b[2 * i] != 0 {
            1nat
        } else {
            0nat
        }
    }
}

/// UTF-16 with its byte-order mark, or little-endian UTF-16 where more than an eighth
/// of the pairs look like ASCII in it, else UTF-8; invalid input becomes U+FFFD.
pub open spec fn decode_spec(b: Seq<u8>) -> Seq<char> {
    if b.len() == 0 {
        Seq::empty()
    } else if b.len() >= 2 && b[0] == 0xFF && b[1] == 0xFE {
        utf16_lossy(le_units(b.skip(2)))
    } else if b.len() >= 2 && b[0] == 0xFE && b[1] == 0xFF {
        utf16_lossy(be_units(b.skip(2)))
    } else if b.len() >= 4 && b.len() % 2 == 0 && ascii_pairs(b, b.len() / 2) > b.len() / 8 {
        utf16_lossy(le_units(b))
    } else {
        utf8_lossy(b)
    }
}

fn units(bytes: &[u8], from: usize, little: bool) -> (r: Vec<u16>)
    requires
        from <= bytes@.len(),
    ensures
        r@ == if little {
            le_units(bytes@.skip(from as int))
        } else {
            be_units(bytes@.skip(from as int))
        },
{
    let ghost b = bytes@.skip(from as int);
    let n = (bytes.len() - from) / 2;
    let mut r: Vec<u16> = Vec::new();
    let mut i: usize = 0;
    while i < n
        invariant
            n == (bytes@.len() - from) / 2,
            bytes@.len() <= usize::MAX,
            b == bytes@.skip(from as int),
            b.len() == bytes@.len() - from,
            i <= n,
            r@.len() == i,
            forall|k: int| 0 <= k < i ==> r@[k] == if little {
                le_units(b)[k]
            } else {
                be_units(b)[k]
            },
        decreases n - i,
    {
        assert(i + i + 1 < bytes@.len() - from) by (nonlinear_arith)
            requires
                i < n,
                n == (bytes@.len() - from) / 2,
                from <= bytes@.len(),
        ;
        let j = i + i;
        let x = bytes[from + j];
        let y = bytes[from + j + 1];
        assert(b[2 * i] == x);
        assert(b[2 * i + 1] == y);
        let u: u16 = if little {
            (x as u16) + (y as u16) * 256
        } else {
            (x as u16) * 256 + (y as u16)
        };
        r.push(u);
        i = i + 1;
    }
    assert(r@ =~= if little {
        le_units(b)
    } else {
        be_units(b)
    });
    r
}

/// Decodes little-endian UTF-16 bytes.
pub fn utf16_le_to_string(bytes: &[u8]) -> (r: String)
    ensures
        r@ == utf16_lossy(le_units(bytes@)),
{
    let u = units(bytes, 0, true);
    assert(bytes@.skip(0) =~= bytes@);
    from_utf16_lossy(u.as_slice())
}

/// Decodes big-endian UTF-16 bytes.
pub fn utf16_be_to_string(bytes: &[u8]) -> (r: String)
    ensures
        r@ == utf16_lossy(be_units(bytes@)),
{
    let u = units(bytes, 0, false);
    assert(bytes@.skip(0) =~= bytes@);
    from_utf16_lossy(u.as_slice())
}

/// How many of the byte pairs, counted from the front, look like an ASCII character
/// in little-endian UTF-16: a non-zero byte followed by a zero byte.
pub open spec fn ascii_like_pairs(b: Seq<u8>) -> nat
    decreases b.len(),
{
    if b.len() < 2 {
        0
    } else {
        (if b[1] == 0 && b[0] != 0 {
            1nat
        } else {
            0nat
        }) + ascii_like_pairs(b.skip(2))
    }
}

proof fn lemma_like_pairs_push(s: Seq<u8>, x: u8, y: u8)
    requires
        s.len() % 2 == 0,
    ensures
        ascii_like_pairs(s + seq![x, y]) == ascii_like_pairs(s) + if y == 0 && x != 0 {
            1nat
        } else {
            0nat
        },
    decreases s.len(),
{
    let t = s + seq![x, y];
    if s.len() == 0 {
        assert(t =~= seq![x, y]);
        assert(t.skip(2).len() == 0);
        assert(ascii_like_pairs(t.skip(2)) == 0);
        assert(t[0] == x && t[1] == y);
    } else {
        assert(s.len() >= 2);
        assert(t.skip(2) =~= s.skip(2) + seq![x, y]);
        assert(t[0] == s[0] && t[1] == s[1]);
        lemma_like_pairs_push(s.skip(2), x, y);
    }
}

proof fn lemma_pairs_agree(b: Seq<u8>, n: nat)
    requires
        2 * n <= b.len(),
    ensures
        ascii_pairs(b, n) == ascii_like_pairs(b.take(2 * n as int)),
    decreases n,
{
    if n == 0 {
        assert(b.take(0).len() == 0);
    } else {
        let m = (n - 1) as nat;
        lemma_pairs_agree(b, m);
        let i = m as int;
        assert(b.take(2 * n as int) =~= b.take(2 * i) + seq![b[2 * i], b[2 * i + 1]]);
        lemma_like_pairs_push(b.take(2 * i), b[2 * i], b[2 * i + 1]);
    }
}

/// Output without a byte-order mark, of even length and at least 4 bytes, is read as
/// little-endian UTF-16 exactly when more than an eighth of its byte pairs look like
/// ASCII in it (a non-zero byte then a zero byte), and as UTF-8 otherwise.
pub proof fn law_bomless_utf16_detected(b: Seq<u8>)
    requires
        b.len() >= 4,
        b.len() % 2 == 0,
        !(b[0] == 0xFF && b[1] == 0xFE),
        !(b[0] == 0xFE && b[1] == 0xFF),
    ensures
        ascii_like_pairs(b) > b.len() / 8 ==> decode_spec(b) == utf16_lossy(le_units(b)),
        ascii_like_pairs(b) <= b.len() / 8 ==> decode_spec(b) == utf8_lossy(b),
{
    lemma_pairs_agree(b, (b.len() / 2) as nat);
    assert(b.take(2 * (b.len() / 2) as int) =~= b);
}

/// A byte-order mark decides the decoding: `FF FE` starts little-endian UTF-16 and
/// `FE FF` big-endian UTF-16, each read from the bytes after the mark; no bytes read
/// as no text.
pub proof fn law_bom_selects_utf16(b: Seq<u8>)
    ensures
        b.len() == 0 ==> decode_spec(b).len() == 0,
        b.len() >= 2 && b[0] == 0xFF && b[1] == 0xFE ==> decode_spec(b) == utf16_lossy(le_units(b.skip(2))),
        b.len() >= 2 && b[0] == 0xFE && b[1] == 0xFF ==> decode_spec(b) == utf16_lossy(be_units(b.skip(2))),
{
}

/// Decodes what PowerShell wrote to a captured stream.
pub fn decode_powershell_stdout(bytes: &[u8]) -> (r: String)
    ensures
        r@ == decode_spec(bytes@),
{
    if bytes.len() == 0 {
        return String::new();
    }
    if bytes.len() >= 2 && bytes[0] == 0xFF && bytes[1] == 0xFE {
        let u = units(bytes, 2, true);
        return from_utf16_lossy(u.as_slice());
    }
    if bytes.len() >= 2 && bytes[0] == 0xFE && bytes[1] == 0xFF {
        let u = units(bytes, 2, false);
        return from_utf16_lossy(u.as_slice());
    }
    if bytes.len() >= 4 && bytes.len() % 2 == 0 {
        let n = bytes.len() / 2;
        let mut count: usize = 0;
        let mut i: usize = 0;
        while i < n
            invariant
                n == bytes@.len() / 2,
                bytes@.len() <= usize::MAX,
                i <= n,
                count == ascii_pairs(bytes@, i as nat),
                count <= i,
            decreases n - i,
        {
            assert(i + i + 1 < bytes@.len()) by (nonlinear_arith)
                requires
                    i < n,
                    n == bytes@.len() / 2,
            ;
            let j = i + i;
            if bytes[j + 1] == 0 && bytes[j] != 0 {
                count = count + 1;
            }
            i = i + 1;
        }
        if count > bytes.len() / 8 {
            return utf16_le_to_string(bytes);
        }
    }
    from_utf8_lossy(bytes)
}

// ---------------------------------------------------------------------------
// Running one collector
// ---------------------------------------------------------------------------

/// The version every collector result carries.
pub const COLLECTOR_VERSION: &'static str = "1.0.0";

/// The temporary file a collector's JSON is written to (in the temporary folder):
/// named after the collector and a fresh identifier.
pub fn collector_out_name(name: &str) -> (r: String)
    ensures
        exists|id: Seq<char>| id.len() == 36 && r@ == "belarc-"@ + name@ + "-"@ + id + ".json"@,
{
    let id = crate::models::new_id();
    let mut v = chars("belarc-");
    extend_str(&mut v, name);
    extend_str(&mut v, "-");
    extend_str(&mut v, id.as_str());
    extend_str(&mut v, ".json");
    to_string(&v)
}

/// The PowerShell command that runs a collector script and writes its output,
/// trimmed, to `out_file` in UTF-8 (PowerShell's own output may be UTF-16).
pub open spec fn collector_command_spec(script: Seq<char>, out_file: Seq<char>) -> Seq<char> {
    "$OutputEncoding = [Console]::OutputEncoding = [System.Text.UTF8Encoding]::new($false); $out = & '"@
        + crate::commands::ps_escape(script) + "' | Out-String; [System.IO.File]::WriteAllText('"@
        + crate::commands::ps_escape(out_file) + "', $out.Trim(), [System.Text.UTF8Encoding]::new($false))"@
}

/// The command that runs a collector: hidden from the profile and from prompts.
pub fn collector_step(script_path: &str, out_file: &str) -> (r: crate::commands::Step)
    ensures
        crate::commands::step_view(r) == ("powershell"@, seq![
            "-NoProfile"@, "-NonInteractive"@, "-ExecutionPolicy"@, "Bypass"@, "-Command"@,
            collector_command_spec(script_path@, out_file@),
        ]),
        r.check is Launch,
{
    let mut c = chars("$OutputEncoding = [Console]::OutputEncoding = [System.Text.UTF8Encoding]::new($false); $out = & '");
    extend_str(&mut c, crate::commands::ps_escape_v(script_path).as_str());
    extend_str(&mut c, "' | Out-String; [System.IO.File]::WriteAllText('");
    extend_str(&mut c, crate::commands::ps_escape_v(out_file).as_str());
    extend_str(&mut c, "', $out.Trim(), [System.Text.UTF8Encoding]::new($false))");
    let cmd = to_string(&c);
    let mut args: Vec<String> = Vec::new();
    args.push("-NoProfile".to_string());
    args.push("-NonInteractive".to_string());
    args.push("-ExecutionPolicy".to_string());
    args.push("Bypass".to_string());
    args.push("-Command".to_string());
    args.push(cmd);
    let r = crate::commands::Step {
        program: "powershell".to_string(),
        args,
        label: "powershell".to_string(),
        check: crate::commands::Check::Launch,
    };
    assert(views(r.args@) =~= seq![
        "-NoProfile"@, "-NonInteractive"@, "-ExecutionPolicy"@, "Bypass"@, "-Command"@,
        collector_command_spec(script_path@, out_file@),
    ]);
    r
}

/// The result of a collector whose script failed: no data (an empty object, with its
/// hash), and the script's error output as the error.
pub open spec fn failed_result_ok(r: CollectorResult, name: Seq<char>, stderr: Seq<u8>, duration_ms: u64) -> bool {
    &&& r.name@ == name && r.version@ == COLLECTOR_VERSION@
    &&& r.data matches Json::Object(f) && f@.len() == 0
    &&& r.hash@ == crate::models::json_hash(r.data)
    &&& r.duration_ms == duration_ms
    &&& r.error matches Some(e) && e@ == decode_spec(stderr)
}

/// What running a collector's command gave: an error where it could not be started;
/// a failed result where the script failed; else nothing yet, and its output is read.
pub fn collector_run_outcome(
    name: &str,
    run: &Result<crate::commands::CmdOutput, String>,
    duration_ms: u64,
) -> (r: Result<Option<CollectorResult>, CollectorError>)
    ensures
        match run {
            Err(e) => r matches Err(CollectorError::Execution(m)) && m@ == e@,
            Ok(o) => if o.success {
                r matches Ok(None)
            } else {
                r matches Ok(Some(c)) && failed_result_ok(c, name@, o.stderr@, duration_ms)
            },
        },
{
    match run {
        Err(e) => Err(CollectorError::Execution(e.clone())),
        Ok(o) => {
            if o.success {
                Ok(None)
            } else {
                let data = Json::Object(Vec::new());
                let hash = crate::models::hash_json(&data);
                Ok(
                    Some(
                        CollectorResult {
                            name: name.to_string(),
                            version: COLLECTOR_VERSION.to_string(),
                            data,
                            hash,
                            duration_ms,
                            error: Some(decode_powershell_stdout(o.stderr.as_slice())),
                        },
                    ),
                )
            }
        },
    }
}

/// The collector's output: the file it wrote (`file_text`, where it could be read),
/// else its decoded standard output.
pub fn collector_output_text(file_text: Option<String>, stdout: &[u8]) -> (r: String)
    ensures
        r@ == match file_text {
            Some(t) => t@,
            None => decode_spec(stdout@),
        },
{
    match file_text {
        Some(t) => t,
        None => decode_powershell_stdout(stdout),
    }
}

/// The result of a collector from its output `text` and what parsing it (trimmed)
/// as JSON gave (`Err`: the parser's message): the data with its hash, or an error
/// that quotes the first 200 characters of the output.
pub fn collector_parsed(name: &str, parsed: Result<Json, String>, text: &str, duration_ms: u64) -> (r: Result<
    CollectorResult,
    CollectorError,
>)
    ensures
        match parsed {
            Err(e) => r matches Err(CollectorError::Json(m)) && m@ == e@ + ": "@ + (if text@.len() <= 200 {
                text@
            } else {
                text@.take(200)
            }),
            Ok(d) => r matches Ok(c) && c.name@ == name@ && c.version@ == COLLECTOR_VERSION@ && c.data == d && c.hash@
                == crate::models::json_hash(d) && c.duration_ms == duration_ms && c.error is None,
        },
{
    match parsed {
        Err(e) => {
            let t = chars(text);
            let n = if t.len() <= 200 {
                t.len()
            } else {
                200
            };
            let head = crate::text::copy_range(&t, 0, n);
            let mut m = chars(e.as_str());
            extend_str(&mut m, ": ");
            crate::text::extend(&mut m, &head);
            assert(n == t@.len() ==> head@ =~= t@);
            assert(n < t@.len() ==> head@ =~= t@.take(200));
            Err(CollectorError::Json(to_string(&m)))
        },
        Ok(data) => {
            let hash = crate::models::hash_json(&data);
            Ok(
                CollectorResult {
                    name: name.to_string(),
                    version: COLLECTOR_VERSION.to_string(),
                    data,
                    hash,
                    duration_ms,
                    error: None,
                },
            )
        },
    }
}

// ---------------------------------------------------------------------------
// Tiers
// ---------------------------------------------------------------------------

pub open spec fn t1_collectors() -> Seq<Seq<char>> {
    seq![
        "identity"@, "os"@, "hardware"@, "peripherals"@, "network"@, "remote_access"@, "logins"@,
        "event_logs"@, "software"@, "licensing"@, "certificates"@, "security"@, "email"@,
        "permissions"@, "compliance"@, "runtime"@, "performance"@, "repair_status"@,
    ]
}

pub open spec fn t2_collectors() -> Seq<Seq<char>> {
    seq![
        "identity"@, "os"@, "hardware"@, "network"@, "remote_access"@, "logins"@, "event_logs"@,
        "software"@, "licensing"@, "certificates"@, "security"@, "email"@, "peripherals"@,
        "permissions"@, "compliance"@, "runtime"@, "performance"@, "repair_status"@,
    ]
}

pub open spec fn t3_collectors() -> Seq<Seq<char>> {
    seq![
        "identity"@, "os"@, "hardware"@, "network"@, "remote_access"@, "logins"@, "event_logs"@,
        "software"@, "licensing"@, "certificates"@, "security"@, "email"@, "peripherals"@,
        "permissions"@, "compliance"@, "runtime"@, "performance"@,
    ]
}

/// The collectors a tier runs, in order (`identity` alone for an unknown tier).
pub open spec fn tier_collectors(tier: Seq<char>) -> Seq<Seq<char>> {
    if tier == "t1"@ {
        t1_collectors()
    } else if tier == "t2"@ {
        t2_collectors()
    } else if tier == "t3"@ {
        t3_collectors()
    } else {
        seq!["identity"@]
    }
}

pub open spec fn strs_view(v: Seq<&str>) -> Seq<Seq<char>> {
    v.map_values(|s: &str| s@)
}

pub fn collectors_for_tier(tier: &str) -> (r: Vec<&'static str>)
    ensures
        strs_view(r@) == tier_collectors(tier@),
{
    let r: Vec<&'static str> = if str_eq(tier, "t1") {
        vec![
            "identity", "os", "hardware", "peripherals", "network", "remote_access", "logins",
            "event_logs", "software", "licensing", "certificates", "security", "email",
            "permissions", "compliance", "runtime", "performance", "repair_status",
        ]
    } else if str_eq(tier, "t2") {
        vec![
            "identity", "os", "hardware", "network", "remote_access", "logins", "event_logs",
            "software", "licensing", "certificates", "security", "email", "peripherals",
            "permissions", "compliance", "runtime", "performance", "repair_status",
        ]
    } else if str_eq(tier, "t3") {
        vec![
            "identity", "os", "hardware", "network", "remote_access", "logins", "event_logs",
            "software", "licensing", "certificates", "security", "email", "peripherals",
            "permissions", "compliance", "runtime", "performance",
        ]
    } else {
        vec!["identity"]
    };
    assert(strs_view(r@) =~= tier_collectors(tier@));
    r
}

/// The tier of an inventory upload (T1 for an unknown name).
pub open spec fn tier_of_spec(tier: Seq<char>) -> CollectionTier {
    if tier == "t2"@ {
        CollectionTier::T2
    } else if tier == "t3"@ {
        CollectionTier::T3
    } else {
        CollectionTier::T1
    }
}

pub fn tier_of(tier: &str) -> (r: CollectionTier)
    ensures
        r == tier_of_spec(tier@),
{
    if str_eq(tier, "t2") {
        CollectionTier::T2
    } else if str_eq(tier, "t3") {
        CollectionTier::T3
    } else {
        CollectionTier::T1
    }
}

// ---------------------------------------------------------------------------
// What is sent to the server
// ---------------------------------------------------------------------------

/// The agent's configuration (`config.toml`).
pub struct AgentConfig {
    pub server_url: String,
    pub agent_token: String,
    pub heartbeat_interval_seconds: u64,
    pub t1_interval_seconds: u64,
    pub t2_interval_seconds: u64,
}

impl AgentConfig {
    /// The configuration without a file: the server and token from the environment
    /// when set (else the local server and no token), a heartbeat every 3 minutes,
    /// T1 every 6 hours and T2 every day.
    pub fn defaults(env_server_url: Option<String>, env_token: Option<String>) -> (r: AgentConfig)
        ensures
            r.server_url@ == match env_server_url {
                Some(u) => u@,
                None => "http://127.0.0.1"@,
            },
            r.agent_token@ == match env_token {
                Some(t) => t@,
                None => Seq::empty(),
            },
            r.heartbeat_interval_seconds == 180,
            r.t1_interval_seconds == 21600,
            r.t2_interval_seconds == 86400,
    {
        AgentConfig {
            server_url: match env_server_url {
                Some(u) => u,
                None => "http://127.0.0.1".to_owned(),
            },
            agent_token: match env_token {
                Some(t) => t,
                None => String::new(),
            },
            heartbeat_interval_seconds: 180,
            t1_interval_seconds: 6 * 3600,
            t2_interval_seconds: 24 * 3600,
        }
    }

    /// A configuration read from the file, completed from the environment: the token
    /// where the file has none, and the server URL where the environment sets one.
    pub fn with_env(self, env_server_url: Option<String>, env_token: Option<String>) -> (r: AgentConfig)
        ensures
            r.server_url@ == match env_server_url {
                Some(u) => u@,
                None => self.server_url@,
            },
            r.agent_token@ == if self.agent_token@.len() == 0 {
                match env_token {
                    Some(t) => t@,
                    None => Seq::empty(),
                }
            } else {
                self.agent_token@
            },
            r.heartbeat_interval_seconds == self.heartbeat_interval_seconds,
            r.t1_interval_seconds == self.t1_interval_seconds,
            r.t2_interval_seconds == self.t2_interval_seconds,
    {
        let mut cfg = self;
        if cfg.agent_token.as_str().unicode_len() == 0 {
            cfg.agent_token = match env_token {
                Some(t) => t,
                None => String::new(),
            };
        }
        if let Some(u) = env_server_url {
            cfg.server_url = u;
        }
        cfg
    }
}

/// A short-lived session of the ticket portal for this PC.
pub struct DevicePortalSession {
    pub token: String,
    pub portal_path: String,
}

/// Where the agent opens the portal for a session: the portal page on the server,
/// with a version that keeps an old cached shell away, and the session in the
/// fragment (never sent to the server).
pub fn portal_url(base: &str, session: &DevicePortalSession) -> (r: String)
    ensures
        r@ == base@ + session.portal_path@ + "?v=portal-autenticado-v2#access_token="@ + session.token@,
{
    let mut v = chars(base);
    extend_str(&mut v, session.portal_path.as_str());
    extend_str(&mut v, "?v=portal-autenticado-v2#access_token=");
    extend_str(&mut v, session.token.as_str());
    to_string(&v)
}

/// Where a queued upload is sent again: heartbeats and inventories to their
/// endpoints; any other kind is left in the queue.
pub fn pending_endpoint(base: &str, payload_type: &str) -> (r: Option<String>)
    ensures
        payload_type@ == "heartbeat"@ ==> (r matches Some(u) && u@ == base@ + "/api/heartbeat"@),
        payload_type@ == "inventory"@ ==> (r matches Some(u) && u@ == base@ + "/api/inventory"@),
        payload_type@ != "heartbeat"@ && payload_type@ != "inventory"@ ==> r is None,
{
    let mut v = chars(base);
    proof {
        reveal_strlit("heartbeat");
        reveal_strlit("inventory");
        assert("heartbeat"@[0] != "inventory"@[0]);
    }
    if str_eq(payload_type, "heartbeat") {
        extend_str(&mut v, "/api/heartbeat");
        Some(to_string(&v))
    } else if str_eq(payload_type, "inventory") {
        extend_str(&mut v, "/api/inventory");
        Some(to_string(&v))
    } else {
        None
    }
}

/// The agent's data folder: `BelarcInventory` under `%PROGRAMDATA%` (`programdata`:
/// its value, where set), else under `C:\ProgramData`.
pub fn agent_data_dir(programdata: Option<&str>) -> (r: String)
    ensures
        r@ == win_join(
            match programdata {
                Some(p) => p@,
                None => "C:\\ProgramData"@,
            },
            "BelarcInventory"@,
        ),
{
    let base = match programdata {
        Some(p) => p,
        None => "C:\\ProgramData",
    };
    to_string(&win_join_v(&chars(base), &chars("BelarcInventory")))
}

/// The agent's `config.toml`, in its data folder.
pub fn agent_config_path(programdata: Option<&str>) -> (r: String)
    ensures
        r@ == win_join(
            win_join(
                match programdata {
                    Some(p) => p@,
                    None => "C:\\ProgramData"@,
                },
                "BelarcInventory"@,
            ),
            "config.toml"@,
        ),
{
    let d = agent_data_dir(programdata);
    to_string(&win_join_v(&chars(d.as_str()), &chars("config.toml")))
}

/// The server's base URL: the configured one without trailing `/`.
pub open spec fn base_url_spec(url: Seq<char>) -> Seq<char>
    decreases url.len(),
{
    if url.len() > 0 && url.last() == '/' {
        base_url_spec(url.drop_last())
    } else {
        url
    }
}

pub fn base_url(server_url: &str) -> (r: String)
    ensures
        r@ == base_url_spec(server_url@),
{
    let v = chars(server_url);
    let mut n = v.len();
    assert(v@.take(n as int) =~= v@);
    while n > 0 && v[n - 1] == '/'
        invariant
            n <= v@.len(),
            base_url_spec(v@) == base_url_spec(v@.take(n as int)),
        decreases n,
    {
        assert(v@.take(n as int).drop_last() =~= v@.take(n - 1));
        n = n - 1;
    }
    to_string(&crate::text::copy_range(&v, 0, n))
}

pub struct HeartbeatPayload {
    pub agent_token: String,
    pub hostname: String,
    pub serial: Option<String>,
    pub uuid: Option<String>,
    pub mac_primary: Option<String>,
    pub logged_user: Option<String>,
    pub ip_address: Option<String>,
    pub uptime_seconds: u64,
    pub last_boot: Option<UtcTime>,
}

pub struct RegisterPayload {
    pub agent_token: String,
    pub hostname: String,
    pub serial: Option<String>,
    pub machine_uuid: Option<String>,
    pub mac_primary: Option<String>,
}

pub struct InventoryPayload {
    pub agent_token: String,
    pub hostname: String,
    pub tier: CollectionTier,
    pub collectors: Vec<CollectorResult>,
    pub collected_at: UtcTime,
}

fn string_of(v: &Json, key: &str) -> (r: Option<String>)
    ensures
        ostr(r) == get_str(*v, key@),
{
    match json_str(v, key) {
        Some(s) => Some(s.to_owned()),
        None => None,
    }
}

/// A heartbeat from the `identity` collector (the token is the client's to add).
pub fn build_heartbeat_from_identity(identity: &CollectorResult) -> (r: HeartbeatPayload)
    ensures
        r.agent_token@.len() == 0,
        r.hostname@ == str_or(identity.data, "hostname"@, "unknown"@),
        ostr(r.serial) == get_str(identity.data, "serial"@),
        ostr(r.uuid) == get_str(identity.data, "machine_uuid"@),
        ostr(r.mac_primary) == get_str(identity.data, "mac_primary"@),
        ostr(r.logged_user) == get_str(identity.data, "logged_user"@),
        ostr(r.ip_address) == get_str(identity.data, "ip_primary"@),
        r.uptime_seconds == match get_u64(identity.data, "uptime_seconds"@) {
            Some(n) => n,
            None => 0,
        },
        r.last_boot is None,
{
    let d = &identity.data;
    HeartbeatPayload {
        agent_token: String::new(),
        hostname: to_string(&str_or_v(d, "hostname", "unknown")),
        serial: string_of(d, "serial"),
        uuid: string_of(d, "machine_uuid"),
        mac_primary: string_of(d, "mac_primary"),
        logged_user: string_of(d, "logged_user"),
        ip_address: string_of(d, "ip_primary"),
        uptime_seconds: match json_u64(d, "uptime_seconds") {
            Some(n) => n,
            None => 0,
        },
        last_boot: None,
    }
}

/// A registration from the `identity` collector and the agent's token.
pub fn build_register_from_identity(identity: &CollectorResult, token: &str) -> (r: RegisterPayload)
    ensures
        r.agent_token@ == token@,
        r.hostname@ == str_or(identity.data, "hostname"@, "unknown"@),
        ostr(r.serial) == get_str(identity.data, "serial"@),
        ostr(r.machine_uuid) == get_str(identity.data, "machine_uuid"@),
        ostr(r.mac_primary) == get_str(identity.data, "mac_primary"@),
{
    let d = &identity.data;
    RegisterPayload {
        agent_token: token.to_owned(),
        hostname: to_string(&str_or_v(d, "hostname", "unknown")),
        serial: string_of(d, "serial"),
        machine_uuid: string_of(d, "machine_uuid"),
        mac_primary: string_of(d, "mac_primary"),
    }
}

/// A result is sent when it failed, or when its hash differs from the one last
/// uploaded (`cached`, none where unknown or unreadable).
pub open spec fn changed(r: CollectorResult, cached: Option<Seq<char>>) -> bool {
    r.error is Some || match cached {
        Some(h) => h != r.hash@,
        None => true,
    }
}

pub open spec fn filter_changed_spec(rs: Seq<CollectorResult>, cached: Seq<Option<Seq<char>>>) -> Seq<CollectorResult>
    decreases rs.len(),
{
    if rs.len() == 0 {
        Seq::empty()
    } else {
        let n = (rs.len() - 1) as int;
        let prev = filter_changed_spec(rs.drop_last(), cached);
        if changed(rs[n], cached[n]) {
            prev.push(rs[n])
        } else {
            prev
        }
    }
}

pub open spec fn opt_views(v: Seq<Option<String>>) -> Seq<Option<Seq<char>>> {
    v.map_values(|o: Option<String>| ostr(o))
}

/// Delta sync: results whose hashes are the ones last uploaded, and that did not
/// fail, are not uploaded again.
pub proof fn law_synced_results_are_not_sent_again(rs: Seq<CollectorResult>, cached: Seq<Option<Seq<char>>>)
    requires
        cached.len() == rs.len(),
        forall|i: int| 0 <= i < rs.len() ==> (#[trigger] rs[i]).error is None && cached[i] == Some(rs[i].hash@),
    ensures
        filter_changed_spec(rs, cached).len() == 0,
    decreases rs.len(),
{
    if rs.len() > 0 {
        let n = rs.len() - 1;
        let p = rs.drop_last();
        assert forall|i: int| 0 <= i < p.len() implies (#[trigger] p[i]).error is None && cached.drop_last()[i] == Some(
            p[i].hash@,
        ) by {
            assert(p[i] == rs[i]);
        }
        law_synced_results_are_not_sent_again(p, cached.drop_last());
        assert(rs[n].error is None && cached[n] == Some(rs[n].hash@));
        lemma_filter_prefix(p, cached, cached.drop_last());
    }
}

/// Filtering only reads the hashes of the results it is given.
proof fn lemma_filter_prefix(rs: Seq<CollectorResult>, c1: Seq<Option<Seq<char>>>, c2: Seq<Option<Seq<char>>>)
    requires
        rs.len() <= c1.len(),
        rs.len() <= c2.len(),
        forall|i: int| 0 <= i < rs.len() ==> c1[i] == c2[i],
    ensures
        filter_changed_spec(rs, c1) == filter_changed_spec(rs, c2),
    decreases rs.len(),
{
    if rs.len() > 0 {
        lemma_filter_prefix(rs.drop_last(), c1, c2);
    }
}

/// The results to upload; `cached[i]` is the hash last uploaded for `results[i]`.
pub fn filter_changed(results: Vec<CollectorResult>, cached: &[Option<String>]) -> (r: Vec<CollectorResult>)
    requires
        cached@.len() == results@.len(),
    ensures
        r@ == filter_changed_spec(results@, opt_views(cached@)),
{
    let ghost rs = results@;
    let ghost cv = opt_views(cached@);
    let mut out: Vec<CollectorResult> = Vec::new();
    let mut rest = results;
    let n = rest.len();
    let mut i: usize = 0;
    assert(rs.take(0) =~= Seq::<CollectorResult>::empty());
    while i < n
        invariant
            n == rs.len(),
            cached@.len() == n,
            cv == opt_views(cached@),
            i <= n,
            rest@ == rs.skip(i as int),
            out@ == filter_changed_spec(rs.take(i as int), cv),
        decreases n - i,
    {
        let r = rest.remove(0);
        assert(rs.skip(i as int)[0] == rs[i as int]);
        assert(rs.skip(i as int).drop_first() =~= rs.skip(i + 1));
        assert(rs.take(i + 1).drop_last() =~= rs.take(i as int));
        assert(rs.take(i + 1)[i as int] == rs[i as int]);
        assert(cv[i as int] == ostr(cached@[i as int]));
        let keep = if r.error.is_some() {
            true
        } else {
            match &cached[i] {
                Some(h) => !str_eq(h.as_str(), r.hash.as_str()),
                None => true,
            }
        };
        if keep {
            out.push(r);
        }
        i = i + 1;
    }
    assert(rs.take(n as int) =~= rs);
    out
}

/// The inventory upload of a tier's changed results, with the hostname of the
/// `identity` result among them (`unknown` without one); none when nothing changed.
pub fn inventory_payload(changed: Vec<CollectorResult>, tier: &str, collected_at: UtcTime) -> (r: Option<InventoryPayload>)
    ensures
        changed@.len() == 0 ==> r is None,
        changed@.len() > 0 ==> (r matches Some(p) && p.agent_token@.len() == 0
            && p.hostname@ == match find_collector(changed@, "identity"@) {
                Some(c) => str_or(c.data, "hostname"@, "unknown"@),
                None => "unknown"@,
            } && p.tier == tier_of_spec(tier@) && p.collectors@ == changed@ && p.collected_at == collected_at),
{
    if changed.len() == 0 {
        return None;
    }
    let hostname = match find_collector_exec(changed.as_slice(), "identity") {
        Some(c) => to_string(&str_or_v(&c.data, "hostname", "unknown")),
        None => "unknown".to_owned(),
    };
    Some(InventoryPayload {
        agent_token: String::new(),
        hostname,
        tier: tier_of(tier),
        collectors: changed,
        collected_at,
    })
}

} // verus!
