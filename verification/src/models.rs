//! Records exchanged between the agent, the server and the rules.

use vstd::prelude::*;
use crate::json::{Decimal, Json};
use crate::text::{chars, eq_v, extend, to_string};

verus! {

/// A UTC instant: seconds since the Unix epoch and the nanoseconds within that second.
#[derive(Clone, Copy, PartialEq, Eq, Structural)]
pub struct UtcTime {
    pub secs: i64,
    pub nanos: u32,
}

impl UtcTime {
    /// `self` is strictly later than `other`.
    pub open spec fn later(self, other: UtcTime) -> bool {
        self.secs > other.secs || (self.secs == other.secs && self.nanos > other.nanos)
    }

    pub fn is_later(&self, other: &UtcTime) -> (r: bool)
        ensures
            r == self.later(*other),
    {
        self.secs > other.secs || (self.secs == other.secs && self.nanos > other.nanos)
    }
}

#[derive(Clone, Copy, PartialEq, Eq, Structural)]
pub enum CollectionTier {
    T0,
    T1,
    T2,
    T3,
}

#[derive(Clone, Copy, PartialEq, Eq, Structural)]
pub enum MachineStatus {
    Online,
    Offline,
}

#[derive(Clone, Copy, PartialEq, Eq, Structural)]
pub enum AlertSeverity {
    Info,
    Warning,
    Critical,
}

impl AlertSeverity {
    /// The variant's name, as `{:?}` writes it.
    pub open spec fn debug_name(self) -> Seq<char> {
        match self {
            AlertSeverity::Info => "Info"@,
            AlertSeverity::Warning => "Warning"@,
            AlertSeverity::Critical => "Critical"@,
        }
    }

    pub fn debug_str(&self) -> (r: &'static str)
        ensures
            r@ == self.debug_name(),
    {
        match self {
            AlertSeverity::Info => "Info",
            AlertSeverity::Warning => "Warning",
            AlertSeverity::Critical => "Critical",
        }
    }
}

impl MachineStatus {
    /// The variant's name, as `{:?}` writes it.
    pub open spec fn debug_name(self) -> Seq<char> {
        match self {
            MachineStatus::Online => "Online"@,
            MachineStatus::Offline => "Offline"@,
        }
    }

    pub fn debug_str(&self) -> (r: &'static str)
        ensures
            r@ == self.debug_name(),
    {
        match self {
            MachineStatus::Online => "Online",
            MachineStatus::Offline => "Offline",
        }
    }
}

/// The output of one collector script.
pub struct CollectorResult {
    pub name: String,
    pub version: String,
    pub data: Json,
    pub hash: String,
    pub duration_ms: u64,
    pub error: Option<String>,
}

pub struct MachineSummary {
    pub id: String,
    pub hostname: String,
    pub serial: Option<String>,
    pub status: MachineStatus,
    pub logged_user: Option<String>,
    pub ip_address: Option<String>,
    pub uptime_seconds: Option<u64>,
    pub last_seen: UtcTime,
    pub first_seen: UtcTime,
    pub health_score: Option<u8>,
}

pub struct AlertRecord {
    pub id: String,
    pub machine_id: String,
    pub hostname: String,
    pub severity: AlertSeverity,
    pub category: String,
    pub message: String,
    pub created_at: UtcTime,
    pub resolved: bool,
}

pub struct IncidentRecord {
    pub id: String,
    pub machine_id: String,
    pub category: String,
    pub severity: AlertSeverity,
    pub title: String,
    pub message: String,
    pub metric_value: Option<Decimal>,
    pub threshold: Option<Decimal>,
    pub recommendation: Option<String>,
    pub source_collector: String,
    pub observed_at: UtcTime,
    pub first_seen: UtcTime,
    pub last_seen: UtcTime,
    pub occurrence_count: u32,
}

pub struct ServerConfig {
    pub blacklist_software: Vec<String>,
    pub acl_paths: Vec<String>,
    pub offline_threshold_minutes: u64,
    pub heartbeat_interval_seconds: u64,
}

pub struct BankingAppConfig {
    pub id: String,
    pub label: String,
}

pub struct ErpBranchConfig {
    pub id: String,
    pub label: String,
    pub install_path: String,
    pub temp_paths: Vec<String>,
    pub process_patterns: Vec<String>,
    pub product_patterns: Vec<String>,
}

pub struct UiLabels {
    pub erp_user: String,
    pub erp_access_reference: String,
    pub erp_offline_warning: String,
    pub freeze_prone_description: String,
    pub critical_apps_summary: String,
}

/// The company profile that personalises rules and texts.
pub struct CompanyProfile {
    pub company_name: String,
    pub project_tagline: String,
    pub erp_name: String,
    pub erp_server_ip: String,
    pub inventory_server_ip: String,
    pub antivirus_name: String,
    pub banking_app: BankingAppConfig,
    pub erp_branches: Vec<ErpBranchConfig>,
    pub ui: UiLabels,
}

/// Index of the first collector called `name`, or -1
/// (`collectors.iter().find(|c| c.name == name)`).
pub open spec fn find_collector_index(cs: Seq<CollectorResult>, name: Seq<char>) -> int
    decreases cs.len(),
{
    if cs.len() == 0 {
        -1
    } else if cs[0].name@ == name {
        0
    } else {
        let r = find_collector_index(cs.drop_first(), name);
        if r < 0 {
            -1
        } else {
            r + 1
        }
    }
}

/// The first collector called `name`.
pub open spec fn find_collector(cs: Seq<CollectorResult>, name: Seq<char>) -> Option<
    CollectorResult,
> {
    let i = find_collector_index(cs, name);
    if i < 0 {
        None
    } else {
        Some(cs[i])
    }
}

pub proof fn lemma_find_collector_at(cs: Seq<CollectorResult>, name: Seq<char>, i: int)
    requires
        0 <= i <= cs.len(),
        forall|j: int| 0 <= j < i ==> cs[j].name@ != name,
        i == cs.len() || cs[i].name@ == name,
    ensures
        find_collector_index(cs, name) == if i == cs.len() {
            -1
        } else {
            i
        },
    decreases i,
{
    if i > 0 {
        let t = cs.drop_first();
        assert forall|j: int| 0 <= j < i - 1 implies t[j].name@ != name by {
            assert(t[j] == cs[j + 1]);
        }
        if i - 1 < t.len() {
            assert(t[i - 1] == cs[i]);
        }
        lemma_find_collector_at(t, name, i - 1);
    }
}

pub fn find_collector_exec<'a>(cs: &'a [CollectorResult], name: &str) -> (r: Option<
    &'a CollectorResult,
>)
    ensures
        match r {
            Some(c) => find_collector(cs@, name@) == Some(*c),
            None => find_collector(cs@, name@) is None,
        },
{
    let n = chars(name);
    let mut i: usize = 0;
    while i < cs.len()
        invariant
            i <= cs@.len(),
            n@ == name@,
            forall|j: int| 0 <= j < i ==> cs@[j].name@ != name@,
        decreases cs@.len() - i,
    {
        let cn = chars(cs[i].name.as_str());
        if eq_v(&cn, &n) {
            proof {
                lemma_find_collector_at(cs@, name@, i as int);
            }
            return Some(&cs[i]);
        }
        i = i + 1;
    }
    proof {
        lemma_find_collector_at(cs@, name@, i as int);
    }
    None
}

/// Where the company profile is looked for, in order: the file named by
/// `BELARC_COMPANY_PROFILE` (`custom`), `config\company-profile.json` and
/// `company-profile.json` beside the program (`exe_dir`: its folder, where known),
/// and `config/company-profile.json` under the working folder.
pub open spec fn profile_candidates_spec(custom: Option<Seq<char>>, exe_dir: Option<Seq<char>>) -> Seq<Seq<char>> {
    let a = match custom {
        Some(c) => seq![c],
        None => Seq::empty(),
    };
    let b = match exe_dir {
        Some(d) => seq![
            crate::winpath::win_join(crate::winpath::win_join(d, "config"@), "company-profile.json"@),
            crate::winpath::win_join(d, "company-profile.json"@),
        ],
        None => Seq::empty(),
    };
    a + b + seq!["config/company-profile.json"@]
}

pub fn profile_candidates(custom: Option<&str>, exe_dir: Option<&str>) -> (r: Vec<String>)
    ensures
        crate::compliance::views(r@) == profile_candidates_spec(
            match custom {
                Some(c) => Some(c@),
                None => None,
            },
            match exe_dir {
                Some(d) => Some(d@),
                None => None,
            },
        ),
{
    let mut r: Vec<String> = Vec::new();
    if let Some(c) = custom {
        r.push(c.to_owned());
    }
    if let Some(d) = exe_dir {
        let dv = chars(d);
        let cfg = crate::winpath::win_join_v(&dv, &chars("config"));
        r.push(to_string(&crate::winpath::win_join_v(&cfg, &chars("company-profile.json"))));
        r.push(to_string(&crate::winpath::win_join_v(&dv, &chars("company-profile.json"))));
    }
    r.push("config/company-profile.json".to_owned());
    let ghost exp = profile_candidates_spec(
        match custom {
            Some(c) => Some(c@),
            None => None,
        },
        match exe_dir {
            Some(d) => Some(d@),
            None => None,
        },
    );
    assert(crate::compliance::views(r@) =~= exp);
    r
}

impl CompanyProfile {
    /// The ids of the ERP branches, in order.
    pub fn erp_branch_ids(&self) -> (r: Vec<&str>)
        ensures
            r@.len() == self.erp_branches@.len(),
            forall|i: int| 0 <= i < r@.len() ==> #[trigger] r@[i]@ == self.erp_branches@[i].id@,
    {
        let mut r: Vec<&str> = Vec::new();
        let mut i: usize = 0;
        while i < self.erp_branches.len()
            invariant
                i <= self.erp_branches@.len(),
                r@.len() == i,
                forall|j: int| 0 <= j < i ==> #[trigger] r@[j]@ == self.erp_branches@[j].id@,
            decreases self.erp_branches@.len() - i,
        {
            r.push(self.erp_branches[i].id.as_str());
            i = i + 1;
        }
        r
    }
}

impl Default for ServerConfig {
    /// Blocks uTorrent, BitTorrent and TeamViewer; offline after 10 minutes; a
    /// heartbeat every 180 seconds.
    fn default() -> (r: ServerConfig)
        ensures
            r.blacklist_software@.len() == 3,
            r.blacklist_software@[0]@ == "utorrent"@,
            r.blacklist_software@[1]@ == "bittorrent"@,
            r.blacklist_software@[2]@ == "teamviewer"@,
            r.acl_paths@.len() == 0,
            r.offline_threshold_minutes == 10,
            r.heartbeat_interval_seconds == 180,
    {
        let mut b: Vec<String> = Vec::new();
        b.push("utorrent".to_owned());
        b.push("bittorrent".to_owned());
        b.push("teamviewer".to_owned());
        ServerConfig {
            blacklist_software: b,
            acl_paths: Vec::new(),
            offline_threshold_minutes: 10,
            heartbeat_interval_seconds: 180,
        }
    }
}

// ---------------------------------------------------------------------------
// Identifiers
// ---------------------------------------------------------------------------

/// The SHA-256 (lower-case hex) of a value's compact JSON text.
pub open spec fn json_hash(v: Json) -> Seq<char> {
    crate::ext::sha256_hex(crate::markdown::json_text(v))
}

/// The SHA-256 of a value's compact JSON text, as collector hashes are computed.
pub fn hash_json(value: &Json) -> (r: String)
    ensures
        r@ == json_hash(*value),
        r@.len() == 64,
        forall|i: int| 0 <= i < 64 ==> crate::ext::lower_hex_digit(#[trigger] r@[i]),
{
    let mut t: Vec<char> = Vec::new();
    crate::markdown::push_json_text(&mut t, value);
    assert(t@ =~= crate::markdown::json_text(*value));
    crate::ext::sha256_hex_of(crate::text::to_string(&t).as_str())
}

/// A fresh random identifier: `uuid::Uuid::new_v4` written hyphenated, which is 36
/// characters long; nothing else is stated of it.
#[verifier::external_body]
pub fn new_id() -> (r: String)
    ensures
        r@.len() == 36,
{
    uuid::Uuid::new_v4().to_string()
}

pub open spec fn opt_text(o: Option<&str>) -> Seq<char> {
    match o {
        Some(s) => s@,
        None => Seq::empty(),
    }
}

/// The text without `:` and `-`.
pub open spec fn strip_separators(s: Seq<char>) -> Seq<char>
    decreases s.len(),
{
    if s.len() == 0 {
        s
    } else if s.last() == ':' || s.last() == '-' {
        strip_separators(s.drop_last())
    } else {
        strip_separators(s.drop_last()).push(s.last())
    }
}

/// Serial numbers that firmware fills in when there is none.
pub open spec fn generic_serial(upper: Seq<char>) -> bool {
    upper == "SYSTEM SERIAL NUMBER"@ || upper == "TO BE FILLED BY O.E.M."@ || upper == "DEFAULT STRING"@ || upper
        == ""@
}

/// What identifies a machine's hardware: its UUID (unless it is the all-F one) with
/// its MAC, else its MAC, else a real serial number, else its host name with its MAC.
pub open spec fn fingerprint_key(machine_uuid: Seq<char>, serial: Seq<char>, mac: Seq<char>, hostname: Seq<char>) -> Seq<char> {
    let uuid = crate::ext::upper_text(crate::text::trim(machine_uuid));
    let serial = crate::text::trim(serial);
    let mac = crate::ext::upper_text(strip_separators(crate::text::trim(mac)));
    if uuid.len() > 0 && uuid != "FFFFFFFF-FFFF-FFFF-FFFF-FFFFFFFFFFFF"@ {
        "uuid:"@ + uuid + "|mac:"@ + mac
    } else if mac.len() > 0 {
        "mac:"@ + mac
    } else if !generic_serial(crate::ext::upper_text(serial)) {
        "serial:"@ + serial
    } else {
        "hostname:"@ + hostname + "|mac:"@ + mac
    }
}

/// A machine keeps its identity: with a real UUID, neither the serial number nor the
/// host name enters the fingerprint, the UUID counts only as the upper-cased text
/// `str::to_uppercase` makes of it, and the MAC address only as the upper-cased text
/// of it without its `:` and `-` separators.
pub proof fn law_fingerprint_ignores_serial_hostname_case_separators(
    u1: Seq<char>,
    u2: Seq<char>,
    s1: Seq<char>,
    s2: Seq<char>,
    m1: Seq<char>,
    m2: Seq<char>,
    h1: Seq<char>,
    h2: Seq<char>,
)
    requires
        crate::ext::upper_text(crate::text::trim(u1)) == crate::ext::upper_text(crate::text::trim(u2)),
        crate::ext::upper_text(crate::text::trim(u1)).len() > 0,
        crate::ext::upper_text(crate::text::trim(u1)) != "FFFFFFFF-FFFF-FFFF-FFFF-FFFFFFFFFFFF"@,
        crate::ext::upper_text(strip_separators(crate::text::trim(m1))) == crate::ext::upper_text(
            strip_separators(crate::text::trim(m2)),
        ),
    ensures
        fingerprint_key(u1, s1, m1, h1) == fingerprint_key(u2, s2, m2, h2),
        crate::ext::sha256_hex(fingerprint_key(u1, s1, m1, h1)) == crate::ext::sha256_hex(
            fingerprint_key(u2, s2, m2, h2),
        ),
{
}

proof fn lemma_ascii_lower_char(c: char)
    requires
        (c as u32) < 128,
    ensures
        (crate::text::ascii_lower_char(c) as u32) < 128,
        crate::text::is_ws(crate::text::ascii_lower_char(c)) == crate::text::is_ws(c),
        crate::text::ascii_upper_char(crate::text::ascii_lower_char(c)) == crate::text::ascii_upper_char(c),
{
    if 'A' <= c && c <= 'Z' {
        let l = crate::text::ascii_lower_char(c);
        assert(l as u32 == (c as u32) + 32);
        assert('a' <= l && l <= 'z');
        assert(((l as u32) - 32) as char == c);
    }
}

proof fn lemma_lower_keeps_ascii(s: Seq<char>)
    requires
        crate::text::all_ascii(s),
    ensures
        crate::text::all_ascii(crate::text::ascii_lower(s)),
        crate::text::ascii_upper(crate::text::ascii_lower(s)) == crate::text::ascii_upper(s),
{
    let l = crate::text::ascii_lower(s);
    assert forall|i: int| 0 <= i < l.len() implies (#[trigger] l[i] as u32) < 128 by {
        lemma_ascii_lower_char(s[i]);
    }
    assert forall|i: int| 0 <= i < s.len() implies #[trigger] crate::text::ascii_upper(l)[i] == crate::text::ascii_upper(s)[i] by {
        lemma_ascii_lower_char(s[i]);
    }
    assert(crate::text::ascii_upper(l) =~= crate::text::ascii_upper(s));
}

proof fn lemma_lower_lead_count(s: Seq<char>)
    requires
        crate::text::all_ascii(s),
    ensures
        crate::text::lead_count(crate::text::ascii_lower(s), crate::text::CharClass::Whitespace)
            == crate::text::lead_count(s, crate::text::CharClass::Whitespace),
    decreases s.len(),
{
    if s.len() > 0 {
        let l = crate::text::ascii_lower(s);
        lemma_ascii_lower_char(s[0]);
        assert(l[0] == crate::text::ascii_lower_char(s[0]));
        let t = s.drop_first();
        assert(crate::text::all_ascii(t)) by {
            assert forall|i: int| 0 <= i < t.len() implies (#[trigger] t[i] as u32) < 128 by {
                assert(t[i] == s[i + 1]);
            }
        }
        assert(l.drop_first() =~= crate::text::ascii_lower(t));
        lemma_lower_lead_count(t);
    }
}

proof fn lemma_lower_trail_count(s: Seq<char>)
    requires
        crate::text::all_ascii(s),
    ensures
        crate::text::trail_count(crate::text::ascii_lower(s), crate::text::CharClass::Whitespace)
            == crate::text::trail_count(s, crate::text::CharClass::Whitespace),
    decreases s.len(),
{
    if s.len() > 0 {
        let l = crate::text::ascii_lower(s);
        lemma_ascii_lower_char(s.last());
        assert(l.last() == crate::text::ascii_lower_char(s.last()));
        let t = s.drop_last();
        assert(crate::text::all_ascii(t)) by {
            assert forall|i: int| 0 <= i < t.len() implies (#[trigger] t[i] as u32) < 128 by {
                assert(t[i] == s[i]);
            }
        }
        assert(l.drop_last() =~= crate::text::ascii_lower(t));
        lemma_lower_trail_count(t);
    }
}

proof fn lemma_trim_lower(s: Seq<char>)
    requires
        crate::text::all_ascii(s),
    ensures
        crate::text::trim(crate::text::ascii_lower(s)) == crate::text::ascii_lower(crate::text::trim(s)),
        crate::text::all_ascii(crate::text::trim(s)),
{
    let ws = crate::text::CharClass::Whitespace;
    lemma_lower_lead_count(s);
    let k = crate::text::lead_count(s, ws);
    assert(k <= s.len()) by {
        lemma_lead_count_bound(s, ws);
    }
    let a = s.skip(k as int);
    let la = crate::text::ascii_lower(s).skip(k as int);
    assert(la =~= crate::text::ascii_lower(a));
    assert(crate::text::all_ascii(a)) by {
        assert forall|i: int| 0 <= i < a.len() implies (#[trigger] a[i] as u32) < 128 by {
            assert(a[i] == s[i + k]);
        }
    }
    lemma_lower_trail_count(a);
    let m = crate::text::trail_count(a, ws);
    assert(m <= a.len()) by {
        lemma_trail_count_bound(a, ws);
    }
    let b = a.take(a.len() - m);
    assert(crate::text::ascii_lower(a).take(a.len() - m) =~= crate::text::ascii_lower(b));
    assert(crate::text::all_ascii(b)) by {
        assert forall|i: int| 0 <= i < b.len() implies (#[trigger] b[i] as u32) < 128 by {
            assert(b[i] == a[i]);
        }
    }
}

proof fn lemma_lead_count_bound(s: Seq<char>, k: crate::text::CharClass)
    ensures
        crate::text::lead_count(s, k) <= s.len(),
    decreases s.len(),
{
    if s.len() > 0 {
        lemma_lead_count_bound(s.drop_first(), k);
    }
}

proof fn lemma_trail_count_bound(s: Seq<char>, k: crate::text::CharClass)
    ensures
        crate::text::trail_count(s, k) <= s.len(),
    decreases s.len(),
{
    if s.len() > 0 {
        lemma_trail_count_bound(s.drop_last(), k);
    }
}

proof fn lemma_strip_keeps_ascii(s: Seq<char>)
    requires
        crate::text::all_ascii(s),
    ensures
        crate::text::all_ascii(strip_separators(s)),
    decreases s.len(),
{
    if s.len() > 0 {
        let t = s.drop_last();
        assert(crate::text::all_ascii(t)) by {
            assert forall|i: int| 0 <= i < t.len() implies (#[trigger] t[i] as u32) < 128 by {
                assert(t[i] == s[i]);
            }
        }
        lemma_strip_keeps_ascii(t);
        assert(s.last() == s[s.len() - 1]);
        let r = strip_separators(t);
        if !(s.last() == ':' || s.last() == '-') {
            assert forall|i: int| 0 <= i < r.len() + 1 implies (#[trigger] r.push(s.last())[i] as u32) < 128 by {
                if i < r.len() {
                    assert(r.push(s.last())[i] == r[i]);
                }
            }
        }
    }
}

/// With an ASCII UUID, letter case does not change a machine's identity either: the
/// UUID and the lower-cased text `str::to_lowercase` makes of it give one fingerprint,
/// and so do two ASCII MAC addresses that differ only in separators and letter case,
/// whatever the serial numbers and host names.
pub proof fn law_fingerprint_ignores_ascii_case(
    u: Seq<char>,
    s1: Seq<char>,
    s2: Seq<char>,
    m1: Seq<char>,
    m2: Seq<char>,
    h1: Seq<char>,
    h2: Seq<char>,
)
    requires
        crate::text::all_ascii(u),
        crate::text::trim(u).len() > 0,
        crate::text::ascii_upper(crate::text::trim(u)) != "FFFFFFFF-FFFF-FFFF-FFFF-FFFFFFFFFFFF"@,
        crate::text::all_ascii(m1),
        crate::text::all_ascii(m2),
        crate::text::ascii_upper(strip_separators(crate::text::trim(m1))) == crate::text::ascii_upper(
            strip_separators(crate::text::trim(m2)),
        ),
    ensures
        fingerprint_key(u, s1, m1, h1) == fingerprint_key(crate::ext::lower_text(u), s2, m2, h2),
        crate::ext::sha256_hex(fingerprint_key(u, s1, m1, h1)) == crate::ext::sha256_hex(
            fingerprint_key(crate::ext::lower_text(u), s2, m2, h2),
        ),
{
    let lu = crate::ext::lower_text(u);
    assert(lu == crate::text::ascii_lower(u));
    lemma_trim_lower(u);
    let tu = crate::text::trim(u);
    lemma_lower_keeps_ascii(tu);
    assert(crate::text::trim(lu) == crate::text::ascii_lower(tu));
    assert(crate::ext::upper_text(crate::text::trim(lu)) == crate::text::ascii_upper(tu));
    assert(crate::ext::upper_text(tu) == crate::text::ascii_upper(tu));
    lemma_trim_lower(m1);
    lemma_trim_lower(m2);
    lemma_strip_keeps_ascii(crate::text::trim(m1));
    lemma_strip_keeps_ascii(crate::text::trim(m2));
    law_fingerprint_ignores_serial_hostname_case_separators(u, lu, s1, s2, m1, m2, h1, h2);
}

/// A stable identifier of a machine's hardware, so that a new agent token does not
/// create a second machine: the SHA-256 of [`fingerprint_key`].
pub fn machine_fingerprint(machine_uuid: Option<&str>, serial: Option<&str>, mac_primary: Option<&str>, hostname: &str) -> (r: String)
    ensures
        r@ == crate::ext::sha256_hex(fingerprint_key(opt_text(machine_uuid), opt_text(serial), opt_text(mac_primary), hostname@)),
{
    let u = match machine_uuid {
        Some(x) => x,
        None => "",
    };
    let s = match serial {
        Some(x) => x,
        None => "",
    };
    let m = match mac_primary {
        Some(x) => x,
        None => "",
    };
    proof {
        reveal_strlit("");
    }
    let uuid = crate::ext::to_uppercase(to_string(&crate::text::trim_v(&chars(u))).as_str());
    let serial_t = to_string(&crate::text::trim_v(&chars(s)));
    let mt = crate::text::trim_v(&chars(m));
    let mut stripped: Vec<char> = Vec::new();
    let mut i: usize = 0;
    assert(mt@.take(0) =~= Seq::<char>::empty());
    while i < mt.len()
        invariant
            i <= mt@.len(),
            stripped@ == strip_separators(mt@.take(i as int)),
        decreases mt@.len() - i,
    {
        assert(mt@.take(i + 1).drop_last() =~= mt@.take(i as int));
        assert(mt@.take(i + 1).last() == mt@[i as int]);
        if mt[i] != ':' && mt[i] != '-' {
            stripped.push(mt[i]);
        }
        i = i + 1;
    }
    assert(mt@.take(mt@.len() as int) =~= mt@);
    let mac = crate::ext::to_uppercase(to_string(&stripped).as_str());
    let uuid_v = chars(uuid.as_str());
    let mac_v = chars(mac.as_str());
    let key: Vec<char> = if uuid_v.len() > 0 && !crate::text::str_eq(uuid.as_str(), "FFFFFFFF-FFFF-FFFF-FFFF-FFFFFFFFFFFF") {
        let mut k = chars("uuid:");
        extend(&mut k, &uuid_v);
        crate::text::extend_str(&mut k, "|mac:");
        extend(&mut k, &mac_v);
        k
    } else if mac_v.len() > 0 {
        let mut k = chars("mac:");
        extend(&mut k, &mac_v);
        k
    } else {
        let su = crate::ext::to_uppercase(serial_t.as_str());
        let generic = crate::text::str_eq(su.as_str(), "SYSTEM SERIAL NUMBER")
            || crate::text::str_eq(su.as_str(), "TO BE FILLED BY O.E.M.")
            || crate::text::str_eq(su.as_str(), "DEFAULT STRING") || crate::text::str_eq(su.as_str(), "");
        if !generic {
            let mut k = chars("serial:");
            crate::text::extend_str(&mut k, serial_t.as_str());
            k
        } else {
            let mut k = chars("hostname:");
            crate::text::extend_str(&mut k, hostname);
            crate::text::extend_str(&mut k, "|mac:");
            extend(&mut k, &mac_v);
            k
        }
    };
    assert(u@ == opt_text(machine_uuid));
    assert(s@ == opt_text(serial));
    assert(m@ == opt_text(mac_primary));
    assert(key@ =~= fingerprint_key(opt_text(machine_uuid), opt_text(serial), opt_text(mac_primary), hostname@));
    crate::ext::sha256_hex_of(to_string(&key).as_str())
}

} // verus!
