//! Active alerts of a machine: software policy, antivirus and firewall, corporate
//! certificates, disks and RAM, uptime, stability events, Windows build, the IT
//! registration and connectivity. One alert per category and key.

use vstd::prelude::*;
use crate::admin::MachineAdmin;
use crate::tickets::DbError;
use crate::certs::{best_days_spec, corporate_entities_best_days, ents_view};
use crate::compliance::{
    build_of, collectors_sliceable, compute_score_breakdown, disks_of, free_of, is_unhealthy, is_warning, get_count, nested_flag, total_spec,
};
use crate::ext::{sha256_hex, sha256_hex_of, to_lowercase, lower_text, utc_now};
use crate::json::{get_array, get_bool, get_num, get_str, json_array, json_bool, json_num, json_str, Decimal, Json};
use crate::models::{
    find_collector, find_collector_exec, AlertRecord, AlertSeverity, CollectorResult,
    CompanyProfile, MachineStatus, MachineSummary, ServerConfig,
};
use crate::num::{fmt_decimal, fmt_fixed};
use crate::standard_apps::{apps_view, detect_spec, detect_standard_apps};
use crate::text::{
    chars, contains, contains_v, eq_v, extend, extend_str, fmt_i64, fmt_u64, int_digits, nat_digits, parse_u32_v, starts_with, starts_with_v, to_string, vviews,
};

verus! {

/// An alert before de-duplication: severity, category, key and message.
pub type Cand = (AlertSeverity, Seq<char>, Seq<char>, Seq<char>);

/// The text that de-duplicates alerts: `"{category}:{key}"`.
pub open spec fn dkey(c: Cand) -> Seq<char> {
    c.1 + ":"@ + c.2
}

pub open spec fn dkeys(d: Seq<Cand>) -> Seq<Seq<char>> {
    Seq::new(d.len(), |i: int| dkey(d[i]))
}

pub open spec fn has_dkey(d: Seq<Cand>, k: Seq<char>) -> bool {
    exists|i: int| 0 <= i < d.len() && dkey(#[trigger] d[i]) == k
}

/// Keeps the first alert of each category and key.
pub open spec fn dedupe(cs: Seq<Cand>) -> Seq<Cand>
    decreases cs.len(),
{
    if cs.len() == 0 {
        cs
    } else {
        let d = dedupe(cs.drop_last());
        if has_dkey(d, dkey(cs.last())) {
            d
        } else {
            d.push(cs.last())
        }
    }
}

/// De-duplication keeps one alert per category and key, and loses none: every raised
/// category and key has its alert, and every kept alert was raised.
pub proof fn law_alerts_unique_per_key(cs: Seq<Cand>)
    ensures
        forall|i: int, j: int|
            0 <= i < j < dedupe(cs).len() ==> dkey(#[trigger] dedupe(cs)[i]) != dkey(
                #[trigger] dedupe(cs)[j],
            ),
        forall|k: int| 0 <= k < cs.len() ==> has_dkey(dedupe(cs), dkey(#[trigger] cs[k])),
        forall|i: int| 0 <= i < dedupe(cs).len() ==> cs.contains(#[trigger] dedupe(cs)[i]),
    decreases cs.len(),
{
    if cs.len() > 0 {
        let p = cs.drop_last();
        law_alerts_unique_per_key(p);
        let d = dedupe(p);
        let c = cs.last();
        assert forall|k: int| 0 <= k < cs.len() implies has_dkey(dedupe(cs), dkey(#[trigger] cs[k])) by {
            if k < p.len() {
                assert(p[k] == cs[k]);
                assert(has_dkey(d, dkey(p[k])));
                let w = choose|w: int| 0 <= w < d.len() && dkey(#[trigger] d[w]) == dkey(p[k]);
                if !has_dkey(d, dkey(c)) {
                    assert(d.push(c)[w] == d[w]);
                }
            } else {
                if !has_dkey(d, dkey(c)) {
                    assert(d.push(c)[d.len() as int] == c);
                }
            }
        }
        assert forall|i: int| 0 <= i < dedupe(cs).len() implies cs.contains(#[trigger] dedupe(cs)[i]) by {
            if i < d.len() {
                assert(p.contains(d[i]));
                let w = choose|w: int| 0 <= w < p.len() && p[w] == d[i];
                assert(cs[w] == p[w]);
            } else {
                assert(cs[cs.len() - 1] == c);
            }
        }
    }
}

/// The stable id of an alert: SHA-256 of `"{machine}|{category}|{key}"`.
pub open spec fn alert_id_spec(machine_id: Seq<char>, category: Seq<char>, key: Seq<char>) -> Seq<
    char,
> {
    sha256_hex(machine_id + "|"@ + category + "|"@ + key)
}

pub fn alert_stable_id(machine_id: &str, category: &str, key: &str) -> (r: String)
    ensures
        r@ == alert_id_spec(machine_id@, category@, key@),
{
    let mut t = chars(machine_id);
    extend_str(&mut t, "|");
    extend_str(&mut t, category);
    extend_str(&mut t, "|");
    extend_str(&mut t, key);
    sha256_hex_of(to_string(&t).as_str())
}

pub open spec fn alert_matches(a: AlertRecord, c: Cand, mid: Seq<char>, host: Seq<char>) -> bool {
    &&& a.severity == c.0
    &&& a.category@ == c.1
    &&& a.message@ == c.3
    &&& a.id@ == alert_id_spec(mid, c.1, c.2)
    &&& a.machine_id@ == mid
    &&& a.hostname@ == host
    &&& !a.resolved
}

pub open spec fn alerts_match(a: Seq<AlertRecord>, d: Seq<Cand>, mid: Seq<char>, host: Seq<char>) -> bool {
    &&& a.len() == d.len()
    &&& forall|i: int| 0 <= i < a.len() ==> alert_matches(#[trigger] a[i], d[i], mid, host)
}

struct AlertBuilder {
    machine_id: String,
    hostname: String,
    seen: Vec<Vec<char>>,
    alerts: Vec<AlertRecord>,
    cands: Ghost<Seq<Cand>>,
}

impl AlertBuilder {
    spec fn wf(self) -> bool {
        &&& alerts_match(self.alerts@, dedupe(self.cands@), self.machine_id@, self.hostname@)
        &&& vviews(self.seen@) == dkeys(dedupe(self.cands@))
    }

    fn new(machine: &MachineSummary) -> (r: AlertBuilder)
        ensures
            r.wf(),
            r.cands@ == Seq::<Cand>::empty(),
            r.machine_id@ == machine.id@,
            r.hostname@ == machine.hostname@,
    {
        let r = AlertBuilder {
            machine_id: machine.id.clone(),
            hostname: machine.hostname.clone(),
            seen: Vec::new(),
            alerts: Vec::new(),
            cands: Ghost(Seq::empty()),
        };
        assert(vviews(r.seen@) =~= dkeys(dedupe(r.cands@)));
        r
    }

    fn add(&mut self, severity: AlertSeverity, category: &str, key: &str, message: String)
        requires
            old(self).wf(),
        ensures
            final(self).wf(),
            final(self).cands@ == old(self).cands@.push((severity, category@, key@, message@)),
            final(self).machine_id@ == old(self).machine_id@,
            final(self).hostname@ == old(self).hostname@,
    {
        let ghost c: Cand = (severity, category@, key@, message@);
        let ghost d = dedupe(self.cands@);
        let mut k = chars(category);
        extend_str(&mut k, ":");
        extend_str(&mut k, key);
        assert(k@ == dkey(c));
        let mut i: usize = 0;
        let mut found = false;
        while i < self.seen.len() && !found
            invariant
                i <= self.seen@.len(),
                *self == *old(self),
                old(self).wf(),
                d == dedupe(old(self).cands@),
                vviews(self.seen@) == dkeys(d),
                k@ == dkey(c),
                found ==> has_dkey(d, dkey(c)),
                !found ==> forall|j: int| 0 <= j < i ==> dkey(#[trigger] d[j]) != k@,
            decreases self.seen@.len() - i + (if found { 0int } else { 1int }),
        {
            assert(vviews(self.seen@).len() == self.seen@.len());
            assert(dkeys(d).len() == d.len());
            assert(vviews(self.seen@)[i as int] == self.seen@[i as int]@);
            assert(dkeys(d)[i as int] == dkey(d[i as int]));
            if eq_v(&self.seen[i], &k) {
                assert(dkey(d[i as int]) == dkey(c));
                found = true;
            } else {
                i = i + 1;
            }
        }
        if found {
            self.cands = Ghost(self.cands@.push(c));
            assert(self.cands@.drop_last() =~= old(self).cands@);
            return;
        }
        assert(vviews(self.seen@).len() == self.seen@.len());
        assert(dkeys(d).len() == d.len());
        assert(!has_dkey(d, dkey(c)));
        let alert = AlertRecord {
            id: alert_stable_id(self.machine_id.as_str(), category, key),
            machine_id: self.machine_id.clone(),
            hostname: self.hostname.clone(),
            severity,
            category: category.to_owned(),
            message,
            created_at: utc_now(),
            resolved: false,
        };
        let ghost prev_alerts = self.alerts@;
        self.alerts.push(alert);
        let ghost prev_seen = self.seen@;
        self.seen.push(k);
        self.cands = Ghost(self.cands@.push(c));
        assert(self.cands@.drop_last() =~= old(self).cands@);
        assert(dedupe(self.cands@) == d.push(c));
        assert forall|j: int| 0 <= j < d.len() + 1 implies vviews(self.seen@)[j] == dkeys(d.push(c))[j] by {
            if j < d.len() {
                assert(self.seen@[j] == prev_seen[j]);
                assert(vviews(prev_seen)[j] == prev_seen[j]@);
            }
        }
        assert(vviews(self.seen@) =~= dkeys(d.push(c)));
        assert forall|j: int| 0 <= j < self.alerts@.len() implies alert_matches(
            #[trigger] self.alerts@[j],
            d.push(c)[j],
            self.machine_id@,
            self.hostname@,
        ) by {
            if j < prev_alerts.len() {
                assert(self.alerts@[j] == prev_alerts[j]);
            }
        }
    }

    fn finish(self) -> (r: Vec<AlertRecord>)
        requires
            self.wf(),
        ensures
            alerts_match(r@, dedupe(self.cands@), self.machine_id@, self.hostname@),
    {
        self.alerts
    }
}

spec fn grew(o: AlertBuilder, n: AlertBuilder, add: Seq<Cand>) -> bool {
    &&& n.wf()
    &&& n.cands@ == o.cands@ + add
    &&& n.machine_id@ == o.machine_id@
    &&& n.hostname@ == o.hostname@
}

fn add_cand(b: &mut AlertBuilder, severity: AlertSeverity, category: &str, key: &str, message: String)
    requires
        old(b).wf(),
    ensures
        grew(*old(b), *final(b), seq![(severity, category@, key@, message@)]),
{
    b.add(severity, category, key, message);
    assert(b.cands@ =~= old(b).cands@ + seq![(severity, category@, key@, message@)]);
}

fn add_lit(b: &mut AlertBuilder, severity: AlertSeverity, category: &str, key: &str, message: &str)
    requires
        old(b).wf(),
    ensures
        grew(*old(b), *final(b), seq![(severity, category@, key@, message@)]),
{
    add_cand(b, severity, category, key, message.to_owned());
}

proof fn lemma_grew_none(o: AlertBuilder)
    requires
        o.wf(),
    ensures
        grew(o, o, Seq::empty()),
{
    assert(o.cands@ + Seq::<Cand>::empty() =~= o.cands@);
}

proof fn lemma_grew_trans(a: AlertBuilder, b: AlertBuilder, c: AlertBuilder, x: Seq<Cand>, y: Seq<Cand>)
    requires
        grew(a, b, x),
        grew(b, c, y),
    ensures
        grew(a, c, x + y),
{
    assert(a.cands@ + x + y =~= a.cands@ + (x + y));
}

// ---------------------------------------------------------------------------
// Software policy
// ---------------------------------------------------------------------------

pub open spec fn name_lower(p: Json) -> Seq<char> {
    lower_text(
        match get_str(p, "display_name"@) {
            Some(n) => n,
            None => ""@,
        },
    )
}

pub open spec fn program_matches(programs: Seq<Json>, b: Seq<char>) -> bool {
    exists|i: int| 0 <= i < programs.len() && contains(name_lower(#[trigger] programs[i]), b)
}

pub open spec fn blacklist_cands(programs: Seq<Json>, blocked: Seq<String>) -> Seq<Cand>
    decreases blocked.len(),
{
    if blocked.len() == 0 {
        Seq::empty()
    } else {
        let b = blocked.last();
        blacklist_cands(programs, blocked.drop_last()) + if program_matches(programs, lower_text(b@)) {
            seq![(AlertSeverity::Warning, "blacklist"@, b@, "Software não autorizado: "@ + b@)]
        } else {
            Seq::empty()
        }
    }
}

pub open spec fn software_cands(cs: Seq<CollectorResult>, config: ServerConfig) -> Seq<Cand> {
    match find_collector(cs, "software"@) {
        None => Seq::empty(),
        Some(sw) => (match get_array(sw.data, "programs"@) {
            Some(ps) => blacklist_cands(ps, config.blacklist_software@),
            None => Seq::empty(),
        }) + (match get_array(sw.data, "startup"@) {
            Some(st) => if st.len() > 15 {
                seq![
                    (
                        AlertSeverity::Warning,
                        "performance"@,
                        "startup_high"@,
                        nat_digits(st.len()) + " programas na inicialização — revisar"@,
                    ),
                ]
            } else {
                Seq::empty()
            },
            None => Seq::empty(),
        }),
    }
}

fn program_matches_v(programs: &Vec<Json>, b: &Vec<char>) -> (r: bool)
    ensures
        r == program_matches(programs@, b@),
{
    let mut i: usize = 0;
    while i < programs.len()
        invariant
            i <= programs@.len(),
            forall|j: int| 0 <= j < i ==> !contains(name_lower(#[trigger] programs@[j]), b@),
        decreases programs@.len() - i,
    {
        let name = match json_str(&programs[i], "display_name") {
            Some(n) => n,
            None => "",
        };
        let lower = chars(to_lowercase(name).as_str());
        if contains_v(&lower, b) {
            return true;
        }
        i = i + 1;
    }
    false
}

fn software_section(b: &mut AlertBuilder, collectors: &[CollectorResult], config: &ServerConfig)
    requires
        old(b).wf(),
    ensures
        grew(*old(b), *final(b), software_cands(collectors@, *config)),
{
    proof {
        lemma_grew_none(*b);
    }
    let sw = match find_collector_exec(collectors, "software") {
        Some(s) => s,
        None => return,
    };
    let ghost b0 = *b;
    let ghost part1 = match get_array(sw.data, "programs"@) {
        Some(ps) => blacklist_cands(ps, config.blacklist_software@),
        None => Seq::empty(),
    };
    if let Some(programs) = json_array(&sw.data, "programs") {
        let mut i: usize = 0;
        while i < config.blacklist_software.len()
            invariant
                i <= config.blacklist_software@.len(),
                grew(b0, *b, blacklist_cands(programs@, config.blacklist_software@.take(i as int))),
            decreases config.blacklist_software@.len() - i,
        {
            let blocked = &config.blacklist_software[i];
            let ghost bl = config.blacklist_software@.take(i + 1);
            assert(bl.drop_last() =~= config.blacklist_software@.take(i as int));
            assert(bl.last() == *blocked);
            let ghost before = *b;
            let lc = chars(to_lowercase(blocked.as_str()).as_str());
            if program_matches_v(programs, &lc) {
                let mut m = chars("Software não autorizado: ");
                let bc = chars(blocked.as_str());
                extend(&mut m, &bc);
                add_cand(b, AlertSeverity::Warning, "blacklist", blocked.as_str(), to_string(&m));
                proof {
                    lemma_grew_trans(b0, before, *b, blacklist_cands(programs@, config.blacklist_software@.take(i as int)), seq![(AlertSeverity::Warning, "blacklist"@, blocked@, "Software não autorizado: "@ + blocked@)]);
                }
            } else {
                assert(blacklist_cands(programs@, bl) =~= blacklist_cands(programs@, config.blacklist_software@.take(i as int)));
            }
            i = i + 1;
        }
        assert(config.blacklist_software@.take(config.blacklist_software@.len() as int) =~= config.blacklist_software@);
    } else {
        proof {
            lemma_grew_none(*b);
        }
    }
    let ghost b1 = *b;
    if let Some(startup) = json_array(&sw.data, "startup") {
        let count = startup.len();
        if count > 15 {
            let mut m = fmt_u64(count as u64);
            extend_str(&mut m, " programas na inicialização — revisar");
            add_cand(b, AlertSeverity::Warning, "performance", "startup_high", to_string(&m));
        } else {
            proof {
                lemma_grew_none(*b);
            }
        }
    } else {
        proof {
            lemma_grew_none(*b);
        }
    }
    proof {
        let part2 = match get_array(sw.data, "startup"@) {
            Some(st) => if st.len() > 15 {
                seq![
                    (
                        AlertSeverity::Warning,
                        "performance"@,
                        "startup_high"@,
                        nat_digits(st.len()) + " programas na inicialização — revisar"@,
                    ),
                ]
            } else {
                Seq::empty()
            },
            None => Seq::empty(),
        };
        lemma_grew_trans(b0, b1, *b, part1, part2);
    }
}

// ---------------------------------------------------------------------------
// Standard programs
// ---------------------------------------------------------------------------

pub open spec fn missing_apps_cands(apps: Seq<crate::standard_apps::AppV>) -> Seq<Cand>
    decreases apps.len(),
{
    if apps.len() == 0 {
        Seq::empty()
    } else {
        let a = apps.last();
        missing_apps_cands(apps.drop_last()) + if !a.3 {
            seq![(AlertSeverity::Warning, "software_policy"@, a.0, "Programa padrão ausente: "@ + a.1)]
        } else {
            Seq::empty()
        }
    }
}

fn standard_apps_section(b: &mut AlertBuilder, collectors: &[CollectorResult], profile: &CompanyProfile)
    requires
        old(b).wf(),
    ensures
        grew(*old(b), *final(b), missing_apps_cands(detect_spec(collectors@, *profile))),
{
    let apps = detect_standard_apps(collectors, profile);
    let ghost av = apps_view(apps@);
    let ghost b0 = *b;
    proof {
        lemma_grew_none(*b);
        assert(av.take(0) =~= Seq::<crate::standard_apps::AppV>::empty());
    }
    let mut i: usize = 0;
    while i < apps.len()
        invariant
            i <= apps@.len(),
            av == apps_view(apps@),
            grew(b0, *b, missing_apps_cands(av.take(i as int))),
        decreases apps@.len() - i,
    {
        let app = &apps[i];
        assert(av.take(i + 1).drop_last() =~= av.take(i as int));
        assert(av.take(i + 1).last() == app@);
        let ghost before = *b;
        if !app.installed {
            let mut m = chars("Programa padrão ausente: ");
            let lc = chars(app.label.as_str());
            extend(&mut m, &lc);
            add_cand(b, AlertSeverity::Warning, "software_policy", app.id.as_str(), to_string(&m));
            proof {
                lemma_grew_trans(b0, before, *b, missing_apps_cands(av.take(i as int)), seq![(AlertSeverity::Warning, "software_policy"@, app.id@, "Programa padrão ausente: "@ + app.label@)]);
            }
        } else {
            assert(missing_apps_cands(av.take(i + 1)) =~= missing_apps_cands(av.take(i as int)));
        }
        i = i + 1;
    }
    assert(av.take(av.len() as int) =~= av);
}

// ---------------------------------------------------------------------------
// Antivirus, firewall, BitLocker
// ---------------------------------------------------------------------------

pub open spec fn is_c_volume(v: Json) -> bool {
    match get_str(v, "mount_point"@) {
        Some(m) => starts_with(m, "C:"@),
        None => false,
    }
}

pub open spec fn first_c_volume(bl: Seq<Json>) -> int
    decreases bl.len(),
{
    if bl.len() == 0 {
        -1
    } else if is_c_volume(bl[0]) {
        0
    } else {
        let r = first_c_volume(bl.drop_first());
        if r < 0 {
            -1
        } else {
            r + 1
        }
    }
}

proof fn lemma_first_c_volume_at(bl: Seq<Json>, i: int)
    requires
        0 <= i <= bl.len(),
        forall|j: int| 0 <= j < i ==> !is_c_volume(#[trigger] bl[j]),
        i == bl.len() || is_c_volume(bl[i]),
    ensures
        first_c_volume(bl) == if i == bl.len() {
            -1
        } else {
            i
        },
    decreases i,
{
    if i > 0 {
        let t = bl.drop_first();
        assert forall|j: int| 0 <= j < i - 1 implies !is_c_volume(#[trigger] t[j]) by {
            assert(t[j] == bl[j + 1]);
        }
        if i - 1 < t.len() {
            assert(t[i - 1] == bl[i]);
        }
        lemma_first_c_volume_at(t, i - 1);
    }
}

pub open spec fn eset_stopped(d: Json) -> bool {
    match d.get_spec("eset"@) {
        Some(e) => get_bool(e, "service_running"@) == Some(false),
        None => false,
    }
}

pub open spec fn eset_cands(d: Json) -> Seq<Cand> {
    if !nested_flag(d, "eset"@, "installed"@) {
        seq![(AlertSeverity::Critical, "antivirus"@, "eset_missing"@, "ESET (antivírus corporativo) não detectado"@)]
    } else if eset_stopped(d) {
        seq![(AlertSeverity::Critical, "antivirus"@, "eset_stopped"@, "Serviço ESET parado"@)]
    } else {
        Seq::empty()
    }
}

pub open spec fn defender_cands(d: Json) -> Seq<Cand> {
    match d.get_spec("defender"@) {
        Some(def) => if !nested_flag(d, "eset"@, "installed"@) && get_bool(def, "enabled"@) != Some(true) {
            seq![(AlertSeverity::Critical, "antivirus"@, "defender_off"@, "Windows Defender desativado e sem ESET"@)]
        } else {
            Seq::empty()
        },
        None => Seq::empty(),
    }
}

pub open spec fn firewall_cands(d: Json) -> Seq<Cand> {
    match d.get_spec("firewall"@) {
        Some(fw) => if get_bool(fw, "enabled"@) == Some(false) {
            seq![(AlertSeverity::Warning, "firewall"@, "firewall_off"@, "Firewall desativado"@)]
        } else {
            Seq::empty()
        },
        None => Seq::empty(),
    }
}

pub open spec fn bitlocker_cands(d: Json) -> Seq<Cand> {
    match get_array(d, "bitlocker"@) {
        Some(bl) => {
            let i = first_c_volume(bl);
            if i < 0 {
                Seq::empty()
            } else {
                let prot = match get_str(bl[i], "protection_status"@) {
                    Some(p) => p,
                    None => ""@,
                };
                if prot != "On"@ && prot != "1"@ {
                    seq![(AlertSeverity::Info, "bitlocker"@, "c_drive"@, "BitLocker não ativo no volume C: — informativo"@)]
                } else {
                    Seq::empty()
                }
            }
        },
        None => Seq::empty(),
    }
}

pub open spec fn security_cands(cs: Seq<CollectorResult>) -> Seq<Cand> {
    match find_collector(cs, "security"@) {
        None => Seq::empty(),
        Some(sec) => eset_cands(sec.data) + defender_cands(sec.data) + firewall_cands(sec.data)
            + bitlocker_cands(sec.data),
    }
}

fn is_c_volume_v(v: &Json) -> (r: bool)
    ensures
        r == is_c_volume(*v),
{
    match json_str(v, "mount_point") {
        Some(m) => {
            let mc = chars(m);
            let p = chars("C:");
            starts_with_v(&mc, &p)
        },
        None => false,
    }
}

fn eset_installed_v(d: &Json) -> (r: bool)
    ensures
        r == nested_flag(*d, "eset"@, "installed"@),
{
    match d.get("eset") {
        Some(e) => match json_bool(e, "installed") {
            Some(x) => x,
            None => false,
        },
        None => false,
    }
}

fn eset_part(b: &mut AlertBuilder, d: &Json)
    requires
        old(b).wf(),
    ensures
        grew(*old(b), *final(b), eset_cands(*d)),
{
    let stopped = match d.get("eset") {
        Some(e) => match json_bool(e, "service_running") {
            Some(x) => !x,
            None => false,
        },
        None => false,
    };
    assert(stopped == eset_stopped(*d));
    if !eset_installed_v(d) {
        add_lit(b, AlertSeverity::Critical, "antivirus", "eset_missing", "ESET (antivírus corporativo) não detectado");
    } else if stopped {
        add_lit(b, AlertSeverity::Critical, "antivirus", "eset_stopped", "Serviço ESET parado");
    } else {
        proof { lemma_grew_none(*b); }
    }
}

fn defender_part(b: &mut AlertBuilder, d: &Json)
    requires
        old(b).wf(),
    ensures
        grew(*old(b), *final(b), defender_cands(*d)),
{
    if let Some(defender) = d.get("defender") {
        let enabled = match json_bool(defender, "enabled") {
            Some(x) => x,
            None => false,
        };
        if !eset_installed_v(d) && !enabled {
            add_lit(b, AlertSeverity::Critical, "antivirus", "defender_off", "Windows Defender desativado e sem ESET");
        } else {
            proof { lemma_grew_none(*b); }
        }
    } else {
        proof { lemma_grew_none(*b); }
    }
}

fn firewall_part(b: &mut AlertBuilder, d: &Json)
    requires
        old(b).wf(),
    ensures
        grew(*old(b), *final(b), firewall_cands(*d)),
{
    if let Some(firewall) = d.get("firewall") {
        if json_bool(firewall, "enabled") == Some(false) {
            add_lit(b, AlertSeverity::Warning, "firewall", "firewall_off", "Firewall desativado");
        } else {
            proof { lemma_grew_none(*b); }
        }
    } else {
        proof { lemma_grew_none(*b); }
    }
}

fn bitlocker_part(b: &mut AlertBuilder, d: &Json)
    requires
        old(b).wf(),
    ensures
        grew(*old(b), *final(b), bitlocker_cands(*d)),
{
    if let Some(bl) = json_array(d, "bitlocker") {
        let mut i: usize = 0;
        while i < bl.len() && !is_c_volume_v(&bl[i])
            invariant
                i <= bl@.len(),
                forall|j: int| 0 <= j < i ==> !is_c_volume(#[trigger] bl@[j]),
            decreases bl@.len() - i,
        {
            i = i + 1;
        }
        proof {
            lemma_first_c_volume_at(bl@, i as int);
        }
        if i < bl.len() {
            let prot = match json_str(&bl[i], "protection_status") {
                Some(p) => chars(p),
                None => Vec::new(),
            };
            proof {
                reveal_strlit("");
            }
            assert(prot@ == match get_str(bl@[i as int], "protection_status"@) {
                Some(p) => p,
                None => ""@,
            });
            let on = chars("On");
            let one = chars("1");
            if !eq_v(&prot, &on) && !eq_v(&prot, &one) {
                add_lit(b, AlertSeverity::Info, "bitlocker", "c_drive", "BitLocker não ativo no volume C: — informativo");
            } else {
                proof { lemma_grew_none(*b); }
            }
        } else {
            proof { lemma_grew_none(*b); }
        }
    } else {
        proof { lemma_grew_none(*b); }
    }
}

fn security_section(b: &mut AlertBuilder, collectors: &[CollectorResult])
    requires
        old(b).wf(),
    ensures
        grew(*old(b), *final(b), security_cands(collectors@)),
{
    proof {
        lemma_grew_none(*b);
    }
    let sec = match find_collector_exec(collectors, "security") {
        Some(s) => s,
        None => return,
    };
    let ghost d = sec.data;
    let ghost b0 = *b;
    eset_part(b, &sec.data);
    let ghost b1 = *b;
    defender_part(b, &sec.data);
    let ghost b2 = *b;
    firewall_part(b, &sec.data);
    let ghost b3 = *b;
    bitlocker_part(b, &sec.data);
    proof {
        lemma_grew_trans(b0, b1, b2, eset_cands(d), defender_cands(d));
        lemma_grew_trans(b0, b2, b3, eset_cands(d) + defender_cands(d), firewall_cands(d));
        lemma_grew_trans(b0, b3, *b, eset_cands(d) + defender_cands(d) + firewall_cands(d), bitlocker_cands(d));
    }
}

// ---------------------------------------------------------------------------
// Corporate certificates
// ---------------------------------------------------------------------------

pub open spec fn cert_cand(e: (Seq<char>, i64, Seq<char>)) -> Seq<Cand> {
    if e.1 >= 31 {
        Seq::empty()
    } else if e.1 < 0 {
        seq![(AlertSeverity::Warning, "certificate"@, "corp_"@ + e.2, "Certificado corporativo expirado: "@ + e.2)]
    } else {
        seq![
            (
                AlertSeverity::Warning,
                "certificate"@,
                "corp_"@ + e.2,
                "Certificado corporativo expira em breve: "@ + e.2 + " ("@ + int_digits(e.1 as int) + "d)"@,
            ),
        ]
    }
}

pub open spec fn cert_cands(ents: Seq<(Seq<char>, i64, Seq<char>)>) -> Seq<Cand>
    decreases ents.len(),
{
    if ents.len() == 0 {
        Seq::empty()
    } else {
        cert_cands(ents.drop_last()) + cert_cand(ents.last())
    }
}

pub open spec fn certificates_cands(cs: Seq<CollectorResult>) -> Seq<Cand> {
    match find_collector(cs, "certificates"@) {
        None => Seq::empty(),
        Some(c) => cert_cands(best_days_spec(c.data)),
    }
}

fn certificates_section(b: &mut AlertBuilder, collectors: &[CollectorResult])
    requires
        old(b).wf(),
        collectors_sliceable(collectors@),
    ensures
        grew(*old(b), *final(b), certificates_cands(collectors@)),
{
    proof {
        lemma_grew_none(*b);
    }
    let certs = match find_collector_exec(collectors, "certificates") {
        Some(c) => c,
        None => return,
    };
    let ents = corporate_entities_best_days(&certs.data);
    let ghost ev = ents_view(ents@);
    let ghost b0 = *b;
    proof {
        assert(ev.take(0) =~= Seq::<(Seq<char>, i64, Seq<char>)>::empty());
    }
    let mut i: usize = 0;
    while i < ents.len()
        invariant
            i <= ents@.len(),
            ev == ents_view(ents@),
            grew(b0, *b, cert_cands(ev.take(i as int))),
        decreases ents@.len() - i,
    {
        let days = ents[i].1;
        let short = &ents[i].2;
        assert(ev.take(i + 1).drop_last() =~= ev.take(i as int));
        assert(ev.take(i + 1).last() == (ents@[i as int].0@, days, short@));
        let ghost before = *b;
        if days < 31 {
            let mut key = chars("corp_");
            extend(&mut key, short);
            let mut m = if days < 0 {
                chars("Certificado corporativo expirado: ")
            } else {
                chars("Certificado corporativo expira em breve: ")
            };
            extend(&mut m, short);
            if days >= 0 {
                extend_str(&mut m, " (");
                let dd = fmt_i64(days);
                extend(&mut m, &dd);
                extend_str(&mut m, "d)");
            }
            let ks = to_string(&key);
            add_cand(b, AlertSeverity::Warning, "certificate", ks.as_str(), to_string(&m));
            proof {
                lemma_grew_trans(b0, before, *b, cert_cands(ev.take(i as int)), cert_cand(ev[i as int]));
            }
        } else {
            assert(cert_cands(ev.take(i + 1)) =~= cert_cands(ev.take(i as int)));
        }
        i = i + 1;
    }
    assert(ev.take(ev.len() as int) =~= ev);
}

// ---------------------------------------------------------------------------
// Disks and RAM
// ---------------------------------------------------------------------------

pub open spec fn letter_of(disk: Json) -> Seq<char> {
    match get_str(disk, "letter"@) {
        Some(l) => l,
        None => "?"@,
    }
}

pub open spec fn disk_cand(disk: Json) -> Seq<Cand> {
    if free_of(disk).lt_milli(15000) {
        seq![
            (
                AlertSeverity::Warning,
                "disk"@,
                "disk_"@ + letter_of(disk),
                "Disco "@ + letter_of(disk) + " com "@ + fmt_fixed(free_of(disk), 1, false) + "% livre"@,
            ),
        ]
    } else {
        Seq::empty()
    }
}

pub open spec fn disk_cands(ds: Seq<Json>) -> Seq<Cand>
    decreases ds.len(),
{
    if ds.len() == 0 {
        Seq::empty()
    } else {
        disk_cands(ds.drop_last()) + disk_cand(ds.last())
    }
}

pub open spec fn health_cand(pd: Json, i: nat) -> Seq<Cand> {
    if is_unhealthy(pd) {
        seq![(AlertSeverity::Critical, "disk"@, "health_"@ + nat_digits(i), "SMART: disco com falha iminente"@)]
    } else if is_warning(pd) {
        seq![(AlertSeverity::Warning, "disk"@, "health_warn_"@ + nat_digits(i), "SMART: disco com alerta de saúde"@)]
    } else {
        Seq::empty()
    }
}

pub open spec fn health_cands(pds: Seq<Json>) -> Seq<Cand>
    decreases pds.len(),
{
    if pds.len() == 0 {
        Seq::empty()
    } else {
        health_cands(pds.drop_last()) + health_cand(pds.last(), (pds.len() - 1) as nat)
    }
}

pub open spec fn positive(v: Option<Decimal>) -> Option<Decimal> {
    match v {
        Some(d) => if d.gt_milli(0) {
            Some(d)
        } else {
            None
        },
        None => None,
    }
}

pub open spec fn nested_num(v: Json, outer: Seq<char>, inner: Seq<char>) -> Option<Decimal> {
    match v.get_spec(outer) {
        Some(e) => get_num(e, inner),
        None => None,
    }
}

/// The installed RAM in GB: `ram.total_gb`, else `system.total_physical_memory_gb`,
/// each only where it is positive.
pub open spec fn ram_total_gb(data: Json) -> Option<Decimal> {
    match positive(nested_num(data, "ram"@, "total_gb"@)) {
        Some(d) => Some(d),
        None => positive(nested_num(data, "system"@, "total_physical_memory_gb"@)),
    }
}

pub open spec fn ram_cands(data: Json) -> Seq<Cand> {
    match ram_total_gb(data) {
        Some(r) => if r.lt_milli(8000) {
            seq![
                (
                    AlertSeverity::Warning,
                    "performance"@,
                    "ram_low"@,
                    "RAM limitada ("@ + fmt_fixed(r, 1, false) + " GB) — 16 GB recomendado"@,
                ),
            ]
        } else {
            Seq::empty()
        },
        None => Seq::empty(),
    }
}

pub open spec fn hardware_cands(cs: Seq<CollectorResult>) -> Seq<Cand> {
    match find_collector(cs, "hardware"@) {
        None => Seq::empty(),
        Some(hw) => (match disks_of(hw.data) {
            Some(ds) => disk_cands(ds),
            None => Seq::empty(),
        }) + (match get_array(hw.data, "physical_disks"@) {
            Some(p) => health_cands(p),
            None => Seq::empty(),
        }) + ram_cands(hw.data),
    }
}

fn disks_of_v(data: &Json) -> (r: Option<&Vec<Json>>)
    ensures
        match r {
            Some(a) => disks_of(*data) == Some(a@),
            None => disks_of(*data) is None,
        },
{
    let v = match data.get("logical_disks") {
        Some(x) => Some(x),
        None => data.get("disks"),
    };
    match v {
        Some(x) => x.as_array(),
        None => None,
    }
}

fn disk_part(b: &mut AlertBuilder, data: &Json)
    requires
        old(b).wf(),
    ensures
        grew(
            *old(b),
            *final(b),
            match disks_of(*data) {
                Some(ds) => disk_cands(ds),
                None => Seq::empty(),
            },
        ),
{
    proof {
        lemma_grew_none(*b);
    }
    let disks = match disks_of_v(data) {
        Some(d) => d,
        None => return,
    };
    let ghost b0 = *b;
    proof {
        assert(disks@.take(0) =~= Seq::<Json>::empty());
    }
    let mut i: usize = 0;
    while i < disks.len()
        invariant
            i <= disks@.len(),
            grew(b0, *b, disk_cands(disks@.take(i as int))),
        decreases disks@.len() - i,
    {
        let disk = &disks[i];
        assert(disks@.take(i + 1).drop_last() =~= disks@.take(i as int));
        assert(disks@.take(i + 1).last() == *disk);
        let ghost before = *b;
        let free = match json_num(disk, "free_percent") {
            Some(d) => d,
            None => Decimal::of_u64(100),
        };
        if free.is_lt_milli(15000) {
            let letter = match json_str(disk, "letter") {
                Some(l) => chars(l),
                None => chars("?"),
            };
            let mut key = chars("disk_");
            extend(&mut key, &letter);
            let mut m = chars("Disco ");
            extend(&mut m, &letter);
            extend_str(&mut m, " com ");
            let f = fmt_decimal(free, 1, false);
            extend(&mut m, &f);
            extend_str(&mut m, "% livre");
            let ks = to_string(&key);
            add_cand(b, AlertSeverity::Warning, "disk", ks.as_str(), to_string(&m));
            proof {
                lemma_grew_trans(b0, before, *b, disk_cands(disks@.take(i as int)), disk_cand(*disk));
            }
        } else {
            assert(disk_cands(disks@.take(i + 1)) =~= disk_cands(disks@.take(i as int)));
        }
        i = i + 1;
    }
    assert(disks@.take(disks@.len() as int) =~= disks@);
}

fn health_part(b: &mut AlertBuilder, data: &Json)
    requires
        old(b).wf(),
    ensures
        grew(
            *old(b),
            *final(b),
            match get_array(*data, "physical_disks"@) {
                Some(p) => health_cands(p),
                None => Seq::empty(),
            },
        ),
{
    proof {
        lemma_grew_none(*b);
    }
    let physical = match json_array(data, "physical_disks") {
        Some(p) => p,
        None => return,
    };
    let ghost b0 = *b;
    proof {
        assert(physical@.take(0) =~= Seq::<Json>::empty());
    }
    let mut i: usize = 0;
    while i < physical.len()
        invariant
            i <= physical@.len(),
            grew(b0, *b, health_cands(physical@.take(i as int))),
        decreases physical@.len() - i,
    {
        let pd = &physical[i];
        assert(physical@.take(i + 1).drop_last() =~= physical@.take(i as int));
        assert(physical@.take(i + 1).last() == *pd);
        let ghost before = *b;
        let health = match json_str(pd, "health_status") {
            Some(h) => chars(h),
            None => Vec::new(),
        };
        assert(health@ == crate::compliance::health_of(*pd));
        let unhealthy = chars("Unhealthy");
        let warning = chars("Warning");
        if crate::text::eq_ignore_case_v(&health, &unhealthy) {
            let mut key = chars("health_");
            let n = fmt_u64(i as u64);
            extend(&mut key, &n);
            let ks = to_string(&key);
            add_lit(b, AlertSeverity::Critical, "disk", ks.as_str(), "SMART: disco com falha iminente");
            proof {
                lemma_grew_trans(b0, before, *b, health_cands(physical@.take(i as int)), health_cand(*pd, i as nat));
            }
        } else if crate::text::eq_ignore_case_v(&health, &warning) {
            let mut key = chars("health_warn_");
            let n = fmt_u64(i as u64);
            extend(&mut key, &n);
            let ks = to_string(&key);
            add_lit(b, AlertSeverity::Warning, "disk", ks.as_str(), "SMART: disco com alerta de saúde");
            proof {
                lemma_grew_trans(b0, before, *b, health_cands(physical@.take(i as int)), health_cand(*pd, i as nat));
            }
        } else {
            assert(health_cands(physical@.take(i + 1)) =~= health_cands(physical@.take(i as int)));
        }
        i = i + 1;
    }
    assert(physical@.take(physical@.len() as int) =~= physical@);
}

fn positive_num(v: &Json, outer: &str, inner: &str) -> (r: Option<Decimal>)
    ensures
        r == positive(nested_num(*v, outer@, inner@)),
{
    match v.get(outer) {
        Some(e) => match json_num(e, inner) {
            Some(d) => if d.is_gt_milli(0) {
                Some(d)
            } else {
                None
            },
            None => None,
        },
        None => None,
    }
}

fn ram_total_gb_v(data: &Json) -> (r: Option<Decimal>)
    ensures
        r == ram_total_gb(*data),
{
    match positive_num(data, "ram", "total_gb") {
        Some(d) => Some(d),
        None => positive_num(data, "system", "total_physical_memory_gb"),
    }
}

fn ram_part(b: &mut AlertBuilder, data: &Json)
    requires
        old(b).wf(),
    ensures
        grew(*old(b), *final(b), ram_cands(*data)),
{
    match ram_total_gb_v(data) {
        Some(ram) => {
            if ram.is_lt_milli(8000) {
                let mut m = chars("RAM limitada (");
                let f = fmt_decimal(ram, 1, false);
                extend(&mut m, &f);
                extend_str(&mut m, " GB) — 16 GB recomendado");
                add_cand(b, AlertSeverity::Warning, "performance", "ram_low", to_string(&m));
            } else {
                proof { lemma_grew_none(*b); }
            }
        },
        None => {
            proof { lemma_grew_none(*b); }
        },
    }
}

fn hardware_section(b: &mut AlertBuilder, collectors: &[CollectorResult])
    requires
        old(b).wf(),
    ensures
        grew(*old(b), *final(b), hardware_cands(collectors@)),
{
    proof {
        lemma_grew_none(*b);
    }
    let hw = match find_collector_exec(collectors, "hardware") {
        Some(h) => h,
        None => return,
    };
    let ghost d = hw.data;
    let ghost p1 = match disks_of(d) {
        Some(ds) => disk_cands(ds),
        None => Seq::empty(),
    };
    let ghost p2 = match get_array(d, "physical_disks"@) {
        Some(p) => health_cands(p),
        None => Seq::empty(),
    };
    let ghost b0 = *b;
    disk_part(b, &hw.data);
    let ghost b1 = *b;
    health_part(b, &hw.data);
    let ghost b2 = *b;
    ram_part(b, &hw.data);
    proof {
        lemma_grew_trans(b0, b1, b2, p1, p2);
        lemma_grew_trans(b0, b2, *b, p1 + p2, ram_cands(d));
    }
}

// ---------------------------------------------------------------------------
// Uptime, stability events, Windows build
// ---------------------------------------------------------------------------

pub open spec fn uptime_cands(m: MachineSummary) -> Seq<Cand> {
    match m.uptime_seconds {
        Some(u) => if u / 86400 > 15 {
            seq![
                (
                    AlertSeverity::Warning,
                    "performance"@,
                    "uptime_long"@,
                    "Uptime de "@ + nat_digits((u / 86400) as nat) + " dias — agendar reinício"@,
                ),
            ]
        } else {
            Seq::empty()
        },
        None => Seq::empty(),
    }
}

fn uptime_section(b: &mut AlertBuilder, machine: &MachineSummary)
    requires
        old(b).wf(),
    ensures
        grew(*old(b), *final(b), uptime_cands(*machine)),
{
    if let Some(uptime) = machine.uptime_seconds {
        let days = uptime / 86400;
        if days > 15 {
            let mut m = chars("Uptime de ");
            let dd = fmt_u64(days);
            extend(&mut m, &dd);
            extend_str(&mut m, " dias — agendar reinício");
            add_cand(b, AlertSeverity::Warning, "performance", "uptime_long", to_string(&m));
            return;
        }
    }
    proof { lemma_grew_none(*b); }
}

pub open spec fn event_cands(cs: Seq<CollectorResult>) -> Seq<Cand> {
    match find_collector(cs, "event_logs"@) {
        None => Seq::empty(),
        Some(ev) => match ev.data.get_spec("summary"@) {
            None => Seq::empty(),
            Some(s) => if get_count(s, "bsod_count"@) > 0 {
                let code = match get_str(s, "last_bugcheck_code"@) {
                    Some(c) => c,
                    None => "?"@,
                };
                seq![(AlertSeverity::Critical, "bsod"@, "bsod_recent"@, "Tela azul detectada ("@ + code + ")"@)]
            } else if get_count(s, "unexpected_shutdowns"@) > 0 {
                seq![
                    (
                        AlertSeverity::Warning,
                        "bsod"@,
                        "unexpected_shutdown"@,
                        nat_digits(get_count(s, "unexpected_shutdowns"@) as nat)
                            + " desligamento(s) inesperado(s) nos últimos 14 dias"@,
                    ),
                ]
            } else {
                Seq::empty()
            },
        },
    }
}

fn count_v(v: &Json, key: &str) -> (r: u64)
    ensures
        r == get_count(*v, key@),
{
    match v.get(key) {
        Some(x) => match x {
            Json::UInt(n) => *n,
            Json::NegInt(_) => 0,
            _ => 0,
        },
        None => 0,
    }
}

fn events_section(b: &mut AlertBuilder, collectors: &[CollectorResult])
    requires
        old(b).wf(),
    ensures
        grew(*old(b), *final(b), event_cands(collectors@)),
{
    proof {
        lemma_grew_none(*b);
    }
    let ev = match find_collector_exec(collectors, "event_logs") {
        Some(e) => e,
        None => return,
    };
    let summary = match ev.data.get("summary") {
        Some(s) => s,
        None => return,
    };
    let bsod = count_v(summary, "bsod_count");
    let unexpected = count_v(summary, "unexpected_shutdowns");
    if bsod > 0 {
        let mut m = chars("Tela azul detectada (");
        let code = match json_str(summary, "last_bugcheck_code") {
            Some(c) => chars(c),
            None => chars("?"),
        };
        extend(&mut m, &code);
        extend_str(&mut m, ")");
        add_cand(b, AlertSeverity::Critical, "bsod", "bsod_recent", to_string(&m));
    } else if unexpected > 0 {
        let mut m = fmt_u64(unexpected);
        extend_str(&mut m, " desligamento(s) inesperado(s) nos últimos 14 dias");
        add_cand(b, AlertSeverity::Warning, "bsod", "unexpected_shutdown", to_string(&m));
    }
}

pub open spec fn os_cands(cs: Seq<CollectorResult>) -> Seq<Cand> {
    match build_of(find_collector(cs, "os"@)) {
        Some((text, n)) => if n < 19041 {
            seq![(AlertSeverity::Warning, "updates"@, "old_build"@, "Build Windows antiga ("@ + text + ")"@)]
        } else {
            Seq::empty()
        },
        None => Seq::empty(),
    }
}

fn os_section(b: &mut AlertBuilder, collectors: &[CollectorResult])
    requires
        old(b).wf(),
    ensures
        grew(*old(b), *final(b), os_cands(collectors@)),
{
    proof {
        lemma_grew_none(*b);
    }
    let os = match find_collector_exec(collectors, "os") {
        Some(o) => o,
        None => return,
    };
    let build = match json_str(&os.data, "build") {
        Some(t) => chars(t),
        None => return,
    };
    if let Some(n) = parse_u32_v(&build) {
        if n < 19041 {
            let mut m = chars("Build Windows antiga (");
            extend(&mut m, &build);
            extend_str(&mut m, ")");
            add_cand(b, AlertSeverity::Warning, "updates", "old_build", to_string(&m));
        }
    }
}

// ---------------------------------------------------------------------------
// IT registration and connectivity
// ---------------------------------------------------------------------------

pub open spec fn blank(o: Option<String>) -> bool {
    match o {
        Some(s) => s@.len() == 0,
        None => true,
    }
}

pub open spec fn admin_cands(admin: Option<MachineAdmin>) -> Seq<Cand> {
    match admin {
        None => Seq::empty(),
        Some(a) => (if blank(a.owner_name) {
            seq![(AlertSeverity::Info, "cadastro"@, "owner_missing"@, "Cadastro TI: responsável não preenchido"@)]
        } else {
            Seq::empty()
        }) + (if blank(a.ramal) {
            seq![(AlertSeverity::Info, "cadastro"@, "ramal_missing"@, "Cadastro TI: ramal não preenchido"@)]
        } else {
            Seq::empty()
        }),
    }
}

fn blank_v(o: &Option<String>) -> (r: bool)
    ensures
        r == blank(*o),
{
    match o {
        Some(s) => s.as_str().unicode_len() == 0,
        None => true,
    }
}

fn admin_section(b: &mut AlertBuilder, admin: Option<&MachineAdmin>)
    requires
        old(b).wf(),
    ensures
        grew(
            *old(b),
            *final(b),
            admin_cands(
                match admin {
                    Some(a) => Some(*a),
                    None => None,
                },
            ),
        ),
{
    proof {
        lemma_grew_none(*b);
    }
    let a = match admin {
        Some(a) => a,
        None => return,
    };
    let ghost b0 = *b;
    let ghost p1: Seq<Cand> = if blank(a.owner_name) {
        seq![(AlertSeverity::Info, "cadastro"@, "owner_missing"@, "Cadastro TI: responsável não preenchido"@)]
    } else {
        Seq::empty()
    };
    if blank_v(&a.owner_name) {
        add_lit(b, AlertSeverity::Info, "cadastro", "owner_missing", "Cadastro TI: responsável não preenchido");
    }
    let ghost b1 = *b;
    if blank_v(&a.ramal) {
        add_lit(b, AlertSeverity::Info, "cadastro", "ramal_missing", "Cadastro TI: ramal não preenchido");
    } else {
        proof { lemma_grew_none(*b); }
    }
    proof {
        let p2: Seq<Cand> = if blank(a.ramal) {
            seq![(AlertSeverity::Info, "cadastro"@, "ramal_missing"@, "Cadastro TI: ramal não preenchido"@)]
        } else {
            Seq::empty()
        };
        lemma_grew_trans(b0, b1, *b, p1, p2);
    }
}

pub open spec fn offline_cands(m: MachineSummary) -> Seq<Cand> {
    if m.status == MachineStatus::Offline {
        seq![
            (
                AlertSeverity::Info,
                "connectivity"@,
                "offline"@,
                "Agente sem comunicação — verificar serviço BelarcInventoryAgent"@,
            ),
        ]
    } else {
        Seq::empty()
    }
}

// ---------------------------------------------------------------------------
// All rules
// ---------------------------------------------------------------------------

pub open spec fn admin_opt(admin: Option<&MachineAdmin>) -> Option<MachineAdmin> {
    match admin {
        Some(a) => Some(*a),
        None => None,
    }
}

/// Every alert that the rules raise, in the order they are checked, before
/// de-duplication.
pub open spec fn alert_cands(
    machine: MachineSummary,
    cs: Seq<CollectorResult>,
    config: ServerConfig,
    admin: Option<MachineAdmin>,
    profile: CompanyProfile,
) -> Seq<Cand> {
    software_cands(cs, config) + missing_apps_cands(detect_spec(cs, profile)) + security_cands(cs)
        + certificates_cands(cs) + hardware_cands(cs) + uptime_cands(machine) + event_cands(cs)
        + os_cands(cs) + admin_cands(admin) + offline_cands(machine)
}

/// The active alerts of a machine: one per category and key (the first raised),
/// each with its stable id, unresolved.
pub fn build_alerts(
    machine: &MachineSummary,
    collectors: &[CollectorResult],
    config: &ServerConfig,
    admin: Option<&MachineAdmin>,
    profile: &CompanyProfile,
) -> (r: Vec<AlertRecord>)
    requires
        collectors_sliceable(collectors@),
    ensures
        alerts_match(
            r@,
            dedupe(alert_cands(*machine, collectors@, *config, admin_opt(admin), *profile)),
            machine.id@,
            machine.hostname@,
        ),
{
    let mut b = AlertBuilder::new(machine);
    let ghost b0 = b;
    software_section(&mut b, collectors, config);
    let ghost b1 = b;
    standard_apps_section(&mut b, collectors, profile);
    let ghost b2 = b;
    security_section(&mut b, collectors);
    let ghost b3 = b;
    certificates_section(&mut b, collectors);
    let ghost b4 = b;
    hardware_section(&mut b, collectors);
    let ghost b5 = b;
    uptime_section(&mut b, machine);
    let ghost b6 = b;
    events_section(&mut b, collectors);
    let ghost b7 = b;
    os_section(&mut b, collectors);
    let ghost b8 = b;
    admin_section(&mut b, admin);
    let ghost b9 = b;
    if machine.status == MachineStatus::Offline {
        add_lit(
            &mut b,
            AlertSeverity::Info,
            "connectivity",
            "offline",
            "Agente sem comunicação — verificar serviço BelarcInventoryAgent",
        );
    } else {
        proof { lemma_grew_none(b); }
    }
    proof {
        let cs = collectors@;
        let s1 = software_cands(cs, *config);
        let s2 = s1 + missing_apps_cands(detect_spec(cs, *profile));
        let s3 = s2 + security_cands(cs);
        let s4 = s3 + certificates_cands(cs);
        let s5 = s4 + hardware_cands(cs);
        let s6 = s5 + uptime_cands(*machine);
        let s7 = s6 + event_cands(cs);
        let s8 = s7 + os_cands(cs);
        let s9 = s8 + admin_cands(admin_opt(admin));
        lemma_grew_trans(b0, b1, b2, s1, missing_apps_cands(detect_spec(cs, *profile)));
        lemma_grew_trans(b0, b2, b3, s2, security_cands(cs));
        lemma_grew_trans(b0, b3, b4, s3, certificates_cands(cs));
        lemma_grew_trans(b0, b4, b5, s4, hardware_cands(cs));
        lemma_grew_trans(b0, b5, b6, s5, uptime_cands(*machine));
        lemma_grew_trans(b0, b6, b7, s6, event_cands(cs));
        lemma_grew_trans(b0, b7, b8, s7, os_cands(cs));
        lemma_grew_trans(b0, b8, b9, s8, admin_cands(admin_opt(admin)));
        lemma_grew_trans(b0, b9, b, s9, offline_cands(*machine));
        assert(b.cands@ =~= alert_cands(*machine, cs, *config, admin_opt(admin), *profile));
    }
    b.finish()
}

/// The compliance score of a machine and its active alerts.
pub fn evaluate_compliance(
    machine: &MachineSummary,
    collectors: &[CollectorResult],
    config: &ServerConfig,
    admin: Option<&MachineAdmin>,
    profile: &CompanyProfile,
) -> (r: (u8, Vec<AlertRecord>))
    requires
        collectors_sliceable(collectors@),
    ensures
        r.0 == total_spec(collectors@),
        alerts_match(
            r.1@,
            dedupe(alert_cands(*machine, collectors@, *config, admin_opt(admin), *profile)),
            machine.id@,
            machine.hostname@,
        ),
{
    let breakdown = compute_score_breakdown(machine, collectors);
    let alerts = build_alerts(machine, collectors, config, admin, profile);
    (breakdown.total, alerts)
}

// ---------------------------------------------------------------------------
// Markdown
// ---------------------------------------------------------------------------

pub open spec fn severity_label(s: AlertSeverity) -> Seq<char> {
    match s {
        AlertSeverity::Critical => "Crítico"@,
        AlertSeverity::Warning => "Atenção"@,
        AlertSeverity::Info => "Info"@,
    }
}

pub open spec fn alert_lines(a: Seq<AlertRecord>) -> Seq<char>
    decreases a.len(),
{
    if a.len() == 0 {
        Seq::empty()
    } else {
        alert_lines(a.drop_last()) + "- **["@ + severity_label(a.last().severity) + "]** "@
            + a.last().category@ + " — "@ + a.last().message@ + "\n"@
    }
}

pub open spec fn alerts_md(a: Seq<AlertRecord>) -> Seq<char> {
    if a.len() == 0 {
        "## Alertas ativos\n\nNenhum alerta ativo.\n\n"@
    } else {
        "## Alertas ativos\n\n"@ + alert_lines(a) + "\n"@
    }
}

fn severity_text(s: AlertSeverity) -> (r: &'static str)
    ensures
        r@ == severity_label(s),
{
    match s {
        AlertSeverity::Critical => "Crítico",
        AlertSeverity::Warning => "Atenção",
        AlertSeverity::Info => "Info",
    }
}

/// The active alerts as a Markdown section, one line per alert.
pub fn alerts_to_markdown(alerts: &[AlertRecord]) -> (r: String)
    ensures
        r@ == alerts_md(alerts@),
{
    if alerts.len() == 0 {
        return "## Alertas ativos\n\nNenhum alerta ativo.\n\n".to_owned();
    }
    let mut md = chars("## Alertas ativos\n\n");
    let ghost m0 = md@;
    let mut i: usize = 0;
    assert(alerts@.take(0) =~= Seq::<AlertRecord>::empty());
    while i < alerts.len()
        invariant
            i <= alerts@.len(),
            md@ == m0 + alert_lines(alerts@.take(i as int)),
        decreases alerts@.len() - i,
    {
        let a = &alerts[i];
        assert(alerts@.take(i + 1).drop_last() =~= alerts@.take(i as int));
        assert(alerts@.take(i + 1).last() == *a);
        extend_str(&mut md, "- **[");
        extend_str(&mut md, severity_text(a.severity));
        extend_str(&mut md, "]** ");
        extend_str(&mut md, a.category.as_str());
        extend_str(&mut md, " — ");
        extend_str(&mut md, a.message.as_str());
        extend_str(&mut md, "\n");
        i = i + 1;
        assert(md@ =~= m0 + alert_lines(alerts@.take(i as int)));
    }
    assert(alerts@.take(alerts@.len() as int) =~= alerts@);
    extend_str(&mut md, "\n");
    to_string(&md)
}

// ---------------------------------------------------------------------------
// Removing duplicate open alerts
// ---------------------------------------------------------------------------

/// A stored alert as the clean-up reads it, in storage order.
pub struct AlertRow {
    pub machine_id: String,
    pub category: String,
    pub message: String,
    pub resolved: bool,
}

pub open spec fn same_alert(a: AlertRow, b: AlertRow) -> bool {
    a.machine_id@ == b.machine_id@ && a.category@ == b.category@ && a.message@ == b.message@
}

/// A later open alert of the same machine, category and message follows row `i`.
pub open spec fn superseded(rows: Seq<AlertRow>, i: int) -> bool {
    exists|j: int| i < j < rows.len() && !(#[trigger] rows[j]).resolved && same_alert(rows[j], rows[i])
}

/// The clean-up keeps every resolved alert and, of the open alerts of one machine,
/// category and message, the last stored.
pub open spec fn keep_alert_row(rows: Seq<AlertRow>, i: int) -> bool {
    rows[i].resolved || !superseded(rows, i)
}

fn same_alert_v(a: &AlertRow, b: &AlertRow) -> (r: bool)
    ensures
        r == same_alert(*a, *b),
{
    crate::text::str_eq(a.machine_id.as_str(), b.machine_id.as_str()) && crate::text::str_eq(
        a.category.as_str(),
        b.category.as_str(),
    ) && crate::text::str_eq(a.message.as_str(), b.message.as_str())
}

/// Which stored alerts stay after the clean-up (`true`: kept).
pub fn alert_rows_to_keep(rows: &[AlertRow]) -> (r: Vec<bool>)
    ensures
        r@.len() == rows@.len(),
        forall|i: int| 0 <= i < rows@.len() ==> #[trigger] r@[i] == keep_alert_row(rows@, i),
{
    let mut out: Vec<bool> = Vec::new();
    let mut i: usize = 0;
    while i < rows.len()
        invariant
            i <= rows@.len(),
            out@.len() == i,
            forall|k: int| 0 <= k < i ==> #[trigger] out@[k] == keep_alert_row(rows@, k),
        decreases rows@.len() - i,
    {
        let mut later = false;
        if !rows[i].resolved {
            let mut j: usize = i + 1;
            while j < rows.len() && !later
                invariant
                    i < rows@.len(),
                    i + 1 <= j <= rows@.len(),
                    later ==> superseded(rows@, i as int),
                    !later ==> forall|k: int| i < k < j ==> !(!(#[trigger] rows@[k]).resolved && same_alert(rows@[k], rows@[i as int])),
                decreases rows@.len() - j,
            {
                if !rows[j].resolved && same_alert_v(&rows[j], &rows[i]) {
                    later = true;
                }
                j = j + 1;
            }
        }
        out.push(!later);
        i = i + 1;
    }
    out
}

/// After the clean-up no two open alerts share machine, category and message.
pub proof fn law_open_alerts_unique_after_cleanup(rows: Seq<AlertRow>)
    ensures
        forall|i: int, j: int|
            0 <= i < j < rows.len() && keep_alert_row(rows, i) && keep_alert_row(rows, j) && !(#[trigger] rows[i]).resolved
                && !(#[trigger] rows[j]).resolved ==> !same_alert(rows[i], rows[j]),
{
    assert forall|i: int, j: int|
        0 <= i < j < rows.len() && keep_alert_row(rows, i) && keep_alert_row(rows, j) && !(#[trigger] rows[i]).resolved
            && !(#[trigger] rows[j]).resolved implies !same_alert(rows[i], rows[j]) by {
        if same_alert(rows[i], rows[j]) {
            assert(same_alert(rows[j], rows[i]));
            assert(superseded(rows, i));
        }
    }
}

// ---------------------------------------------------------------------------
// Storing a machine's alerts
// ---------------------------------------------------------------------------

/// The stored alerts without the open alerts of one machine.
pub open spec fn drop_open(stored: Seq<AlertRecord>, machine_id: Seq<char>) -> Seq<AlertRecord>
    decreases stored.len(),
{
    if stored.len() == 0 {
        Seq::empty()
    } else {
        let rest = drop_open(stored.drop_last(), machine_id);
        let a = stored.last();
        if a.machine_id@ == machine_id && !a.resolved {
            rest
        } else {
            rest.push(a)
        }
    }
}

/// The first stored alert with this id, or -1.
pub open spec fn alert_index(s: Seq<AlertRecord>, id: Seq<char>) -> int
    decreases s.len(),
{
    if s.len() == 0 {
        -1
    } else {
        let k = alert_index(s.drop_last(), id);
        if k >= 0 {
            k
        } else if s.last().id@ == id {
            s.len() - 1
        } else {
            -1
        }
    }
}

/// A stored alert raised again: it takes the new severity, category, message and
/// time, and stays resolved or open as it was.
pub open spec fn raised_again(old: AlertRecord, f: AlertRecord) -> AlertRecord {
    AlertRecord {
        id: old.id,
        machine_id: old.machine_id,
        hostname: old.hostname,
        severity: f.severity,
        category: f.category,
        message: f.message,
        created_at: f.created_at,
        resolved: old.resolved,
    }
}

pub open spec fn upsert_alert(s: Seq<AlertRecord>, f: AlertRecord) -> Seq<AlertRecord> {
    let k = alert_index(s, f.id@);
    if k < 0 {
        s.push(
            AlertRecord {
                id: f.id,
                machine_id: f.machine_id,
                hostname: f.hostname,
                severity: f.severity,
                category: f.category,
                message: f.message,
                created_at: f.created_at,
                resolved: false,
            },
        )
    } else {
        s.update(k, raised_again(s[k], f))
    }
}

/// The stored alerts after a machine's alerts are stored again: its open alerts are
/// dropped, then each new alert is added open, or, where an alert of its id is
/// still stored (a resolved one), that alert takes its contents.
pub open spec fn sync_alerts_spec(stored: Seq<AlertRecord>, machine_id: Seq<char>, fresh: Seq<AlertRecord>) -> Seq<
    AlertRecord,
>
    decreases fresh.len(),
{
    if fresh.len() == 0 {
        drop_open(stored, machine_id)
    } else {
        upsert_alert(sync_alerts_spec(stored, machine_id, fresh.drop_last()), fresh.last())
    }
}

proof fn lemma_alert_index(s: Seq<AlertRecord>, id: Seq<char>)
    ensures
        -1 <= alert_index(s, id) < s.len(),
        alert_index(s, id) >= 0 ==> s[alert_index(s, id)].id@ == id,
        alert_index(s, id) < 0 ==> forall|k: int| 0 <= k < s.len() ==> (#[trigger] s[k]).id@ != id,
        alert_index(s, id) >= 0 ==> forall|k: int| 0 <= k < alert_index(s, id) ==> (#[trigger] s[k]).id@ != id,
    decreases s.len(),
{
    if s.len() > 0 {
        lemma_alert_index(s.drop_last(), id);
        let p = s.drop_last();
        assert forall|k: int| 0 <= k < p.len() implies p[k] == s[k] by {}
    }
}

fn find_alert(s: &Vec<AlertRecord>, id: &str) -> (r: Option<usize>)
    ensures
        match r {
            Some(k) => k < s@.len() && k as int == alert_index(s@, id@),
            None => alert_index(s@, id@) < 0,
        },
{
    let mut k: usize = 0;
    while k < s.len()
        invariant
            k <= s@.len(),
            forall|m: int| 0 <= m < k ==> (#[trigger] s@[m]).id@ != id@,
        decreases s@.len() - k,
    {
        if crate::text::str_eq(s[k].id.as_str(), id) {
            proof {
                lemma_alert_index(s@, id@);
                let x = alert_index(s@, id@);
                if x < 0 {
                    assert(s@[k as int].id@ != id@);
                } else if x < k {
                    assert(s@[x].id@ != id@);
                } else if x > k {
                    assert(s@[k as int].id@ != id@);
                }
            }
            return Some(k);
        }
        k = k + 1;
    }
    proof {
        lemma_alert_index(s@, id@);
        if alert_index(s@, id@) >= 0 {
            assert(s@[alert_index(s@, id@)].id@ != id@);
        }
    }
    None
}

/// Stores a machine's alerts (`fresh`) over the stored ones (see
/// [`sync_alerts_spec`]).
pub fn sync_machine_alerts(stored: Vec<AlertRecord>, machine_id: &str, fresh: Vec<AlertRecord>) -> (r: Vec<AlertRecord>)
    ensures
        r@ == sync_alerts_spec(stored@, machine_id@, fresh@),
{
    let ghost st = stored@;
    let ghost fr = fresh@;
    let mut kept: Vec<AlertRecord> = Vec::new();
    let mut rest = stored;
    let n = rest.len();
    let mut i: usize = 0;
    assert(st.take(0) =~= Seq::<AlertRecord>::empty());
    while i < n
        invariant
            n == st.len(),
            i <= n,
            rest@ == st.skip(i as int),
            kept@ == drop_open(st.take(i as int), machine_id@),
        decreases n - i,
    {
        let a = rest.remove(0);
        assert(st.skip(i as int)[0] == st[i as int]);
        assert(st.skip(i as int).drop_first() =~= st.skip(i + 1));
        assert(st.take(i + 1).drop_last() =~= st.take(i as int));
        assert(st.take(i + 1).last() == st[i as int]);
        if !(crate::text::str_eq(a.machine_id.as_str(), machine_id) && !a.resolved) {
            kept.push(a);
        }
        i = i + 1;
    }
    assert(st.take(n as int) =~= st);
    let mut todo = fresh;
    let m = todo.len();
    let mut j: usize = 0;
    assert(fr.take(0) =~= Seq::<AlertRecord>::empty());
    while j < m
        invariant
            m == fr.len(),
            j <= m,
            todo@ == fr.skip(j as int),
            kept@ == sync_alerts_spec(st, machine_id@, fr.take(j as int)),
        decreases m - j,
    {
        let f = todo.remove(0);
        assert(fr.skip(j as int)[0] == fr[j as int]);
        assert(fr.skip(j as int).drop_first() =~= fr.skip(j + 1));
        assert(fr.take(j + 1).drop_last() =~= fr.take(j as int));
        assert(fr.take(j + 1).last() == fr[j as int]);
        match find_alert(&kept, f.id.as_str()) {
            Some(k) => {
                let old = kept.remove(k);
                let updated = AlertRecord {
                    id: old.id,
                    machine_id: old.machine_id,
                    hostname: old.hostname,
                    severity: f.severity,
                    category: f.category,
                    message: f.message,
                    created_at: f.created_at,
                    resolved: old.resolved,
                };
                kept.insert(k, updated);
            },
            None => {
                kept.push(
                    AlertRecord {
                        id: f.id,
                        machine_id: f.machine_id,
                        hostname: f.hostname,
                        severity: f.severity,
                        category: f.category,
                        message: f.message,
                        created_at: f.created_at,
                        resolved: false,
                    },
                );
            },
        }
        j = j + 1;
    }
    assert(fr.take(m as int) =~= fr);
    kept
}

proof fn lemma_drop_open_keeps_resolved(stored: Seq<AlertRecord>, machine_id: Seq<char>, i: int)
    requires
        0 <= i < stored.len(),
        stored[i].resolved,
    ensures
        drop_open(stored, machine_id).contains(stored[i]),
    decreases stored.len(),
{
    let p = stored.drop_last();
    if i == stored.len() - 1 {
        assert(drop_open(stored, machine_id).last() == stored[i]);
    } else {
        assert(p[i] == stored[i]);
        lemma_drop_open_keeps_resolved(p, machine_id, i);
        let r = drop_open(p, machine_id);
        let k = choose|k: int| 0 <= k < r.len() && r[k] == stored[i];
        if !(stored.last().machine_id@ == machine_id && !stored.last().resolved) {
            assert(drop_open(stored, machine_id)[k] == stored[i]);
        }
    }
}

/// The resolved alerts with id `id`.
pub open spec fn has_resolved(s: Seq<AlertRecord>, id: Seq<char>) -> bool {
    exists|k: int| 0 <= k < s.len() && (#[trigger] s[k]).id@ == id && s[k].resolved
}

proof fn lemma_sync_keeps_resolved(stored: Seq<AlertRecord>, machine_id: Seq<char>, fresh: Seq<AlertRecord>, id: Seq<char>)
    requires
        has_resolved(drop_open(stored, machine_id), id),
    ensures
        has_resolved(sync_alerts_spec(stored, machine_id, fresh), id),
    decreases fresh.len(),
{
    if fresh.len() > 0 {
        lemma_sync_keeps_resolved(stored, machine_id, fresh.drop_last(), id);
        let s = sync_alerts_spec(stored, machine_id, fresh.drop_last());
        let f = fresh.last();
        let k = choose|k: int| 0 <= k < s.len() && (#[trigger] s[k]).id@ == id && s[k].resolved;
        lemma_alert_index(s, f.id@);
        let x = alert_index(s, f.id@);
        let r = upsert_alert(s, f);
        if x < 0 {
            assert(r[k] == s[k]);
        } else if x == k {
            assert(r[k] == raised_again(s[k], f));
        } else {
            assert(r[k] == s[k]);
        }
    }
}

/// An alert that IT resolved stays resolved when the machine's alerts are stored
/// again, even where the same alert is raised anew.
pub proof fn law_resolved_alert_stays_resolved(
    stored: Seq<AlertRecord>,
    machine_id: Seq<char>,
    fresh: Seq<AlertRecord>,
    i: int,
)
    requires
        0 <= i < stored.len(),
        stored[i].resolved,
    ensures
        has_resolved(sync_alerts_spec(stored, machine_id, fresh), stored[i].id@),
{
    lemma_drop_open_keeps_resolved(stored, machine_id, i);
    let d = drop_open(stored, machine_id);
    let k = choose|k: int| 0 <= k < d.len() && d[k] == stored[i];
    assert(d[k].id@ == stored[i].id@ && d[k].resolved);
    lemma_sync_keeps_resolved(stored, machine_id, fresh, stored[i].id@);
}

/// The stored alerts after IT resolves the alerts of id `id`.
pub open spec fn resolve_spec(stored: Seq<AlertRecord>, id: Seq<char>) -> Seq<AlertRecord> {
    Seq::new(
        stored.len(),
        |k: int|
            if stored[k].id@ == id {
                AlertRecord {
                    id: stored[k].id,
                    machine_id: stored[k].machine_id,
                    hostname: stored[k].hostname,
                    severity: stored[k].severity,
                    category: stored[k].category,
                    message: stored[k].message,
                    created_at: stored[k].created_at,
                    resolved: true,
                }
            } else {
                stored[k]
            },
    )
}

/// IT resolves an alert: every stored alert of that id is marked resolved; an id
/// that no stored alert has is not found.
pub fn resolve_alert(stored: Vec<AlertRecord>, id: &str) -> (r: Result<Vec<AlertRecord>, DbError>)
    ensures
        match r {
            Ok(s) => alert_index(stored@, id@) >= 0 && s@ == resolve_spec(stored@, id@),
            Err(e) => alert_index(stored@, id@) < 0 && e is NotFound,
        },
{
    let ghost st = stored@;
    proof {
        lemma_alert_index(st, id@);
    }
    let mut out: Vec<AlertRecord> = Vec::new();
    let mut rest = stored;
    let n = rest.len();
    let mut i: usize = 0;
    let mut found = false;
    while i < n
        invariant
            n == st.len(),
            i <= n,
            rest@ == st.skip(i as int),
            out@.len() == i,
            forall|k: int| 0 <= k < i ==> #[trigger] out@[k] == resolve_spec(st, id@)[k],
            found == exists|k: int| 0 <= k < i && (#[trigger] st[k]).id@ == id@,
        decreases n - i,
    {
        let a = rest.remove(0);
        assert(st.skip(i as int)[0] == st[i as int]);
        assert(st.skip(i as int).drop_first() =~= st.skip(i + 1));
        if crate::text::str_eq(a.id.as_str(), id) {
            found = true;
            out.push(
                AlertRecord {
                    id: a.id,
                    machine_id: a.machine_id,
                    hostname: a.hostname,
                    severity: a.severity,
                    category: a.category,
                    message: a.message,
                    created_at: a.created_at,
                    resolved: true,
                },
            );
        } else {
            out.push(a);
        }
        i = i + 1;
    }
    if !found {
        proof {
            if alert_index(st, id@) >= 0 {
                let x = alert_index(st, id@);
                assert(st[x].id@ == id@);
            }
        }
        return Err(DbError::NotFound);
    }
    assert(out@ =~= resolve_spec(st, id@));
    Ok(out)
}

/// An alert IT resolves stays resolved however often the machine reports it again.
pub proof fn law_resolving_survives_new_reports(
    stored: Seq<AlertRecord>,
    id: Seq<char>,
    machine_id: Seq<char>,
    fresh: Seq<AlertRecord>,
)
    requires
        alert_index(stored, id) >= 0,
    ensures
        has_resolved(sync_alerts_spec(resolve_spec(stored, id), machine_id, fresh), id),
{
    lemma_alert_index(stored, id);
    let k = alert_index(stored, id);
    let r = resolve_spec(stored, id);
    assert(r[k].resolved && r[k].id@ == id);
    law_resolved_alert_stays_resolved(r, machine_id, fresh, k);
}


/// An open alert of this machine.
pub open spec fn open_of(a: AlertRecord, machine_id: Seq<char>) -> bool {
    a.machine_id@ == machine_id && !a.resolved
}

/// An alert with the id, machine and state of a stored alert that is not an open
/// alert of this machine.
spec fn like_stored(stored: Seq<AlertRecord>, machine_id: Seq<char>, a: AlertRecord) -> bool {
    &&& !open_of(a, machine_id)
    &&& exists|k: int|
        0 <= k < stored.len() && (#[trigger] stored[k]).id@ == a.id@ && stored[k].machine_id@ == a.machine_id@
            && stored[k].resolved == a.resolved
}

/// Some new alert carries this id.
pub open spec fn fresh_has_id(fresh: Seq<AlertRecord>, id: Seq<char>) -> bool {
    exists|i: int| 0 <= i < fresh.len() && (#[trigger] fresh[i]).id@ == id
}

/// The alerts hold an open alert of this machine with this id.
pub open spec fn has_open_of(s: Seq<AlertRecord>, id: Seq<char>, machine_id: Seq<char>) -> bool {
    exists|j: int| 0 <= j < s.len() && (#[trigger] s[j]).id@ == id && open_of(s[j], machine_id)
}

/// No stored alert carries this id but the machine's open ones.
pub open spec fn only_open_hold(stored: Seq<AlertRecord>, machine_id: Seq<char>, id: Seq<char>) -> bool {
    forall|k: int| 0 <= k < stored.len() && (#[trigger] stored[k]).id@ == id ==> open_of(stored[k], machine_id)
}

proof fn lemma_drop_open_like_stored(stored: Seq<AlertRecord>, machine_id: Seq<char>)
    ensures
        forall|j: int| 0 <= j < drop_open(stored, machine_id).len() ==> like_stored(stored, machine_id, #[trigger] drop_open(stored, machine_id)[j]),
    decreases stored.len(),
{
    if stored.len() > 0 {
        let t = stored.drop_last();
        lemma_drop_open_like_stored(t, machine_id);
        let d = drop_open(stored, machine_id);
        let dt = drop_open(t, machine_id);
        assert forall|j: int| 0 <= j < d.len() implies like_stored(stored, machine_id, #[trigger] d[j]) by {
            if j < dt.len() {
                assert(d[j] == dt[j]);
                assert(like_stored(t, machine_id, dt[j]));
                let k = choose|k: int|
                    0 <= k < t.len() && (#[trigger] t[k]).id@ == dt[j].id@ && t[k].machine_id@ == dt[j].machine_id@
                        && t[k].resolved == dt[j].resolved;
                assert(stored[k] == t[k]);
            } else {
                assert(d[j] == stored.last());
                assert(stored[stored.len() - 1] == stored.last());
            }
        }
    }
}

proof fn lemma_upsert_keeps(s: Seq<AlertRecord>, f: AlertRecord)
    ensures
        s.len() <= upsert_alert(s, f).len() <= s.len() + 1,
        forall|j: int| 0 <= j < s.len() ==> {
            &&& (#[trigger] upsert_alert(s, f)[j]).id@ == s[j].id@
            &&& upsert_alert(s, f)[j].machine_id@ == s[j].machine_id@
            &&& upsert_alert(s, f)[j].resolved == s[j].resolved
        },
        upsert_alert(s, f).len() == s.len() + 1 ==> {
            let a = upsert_alert(s, f)[s.len() as int];
            &&& a.id@ == f.id@
            &&& a.machine_id@ == f.machine_id@
            &&& !a.resolved
        },
        upsert_alert(s, f).len() == s.len() ==> 0 <= alert_index(s, f.id@) < s.len() && s[alert_index(s, f.id@)].id@ == f.id@,
{
    lemma_alert_index(s, f.id@);
}

proof fn lemma_sync_open_alerts(stored: Seq<AlertRecord>, machine_id: Seq<char>, fresh: Seq<AlertRecord>)
    requires
        forall|i: int| 0 <= i < fresh.len() ==> (#[trigger] fresh[i]).machine_id@ == machine_id,
    ensures
        forall|j: int| 0 <= j < sync_alerts_spec(stored, machine_id, fresh).len() ==>
            like_stored(stored, machine_id, #[trigger] sync_alerts_spec(stored, machine_id, fresh)[j])
            || open_of(sync_alerts_spec(stored, machine_id, fresh)[j], machine_id),
        forall|j: int| 0 <= j < sync_alerts_spec(stored, machine_id, fresh).len() && open_of(
            #[trigger] sync_alerts_spec(stored, machine_id, fresh)[j],
            machine_id,
        ) ==> fresh_has_id(fresh, sync_alerts_spec(stored, machine_id, fresh)[j].id@),
        forall|i: int| 0 <= i < fresh.len() && only_open_hold(stored, machine_id, (#[trigger] fresh[i]).id@)
            ==> has_open_of(sync_alerts_spec(stored, machine_id, fresh), fresh[i].id@, machine_id),
    decreases fresh.len(),
{
    let r = sync_alerts_spec(stored, machine_id, fresh);
    if fresh.len() == 0 {
        lemma_drop_open_like_stored(stored, machine_id);
    } else {
        let fp = fresh.drop_last();
        let f = fresh.last();
        assert forall|i: int| 0 <= i < fp.len() implies (#[trigger] fp[i]).machine_id@ == machine_id by {
            assert(fp[i] == fresh[i]);
        }
        lemma_sync_open_alerts(stored, machine_id, fp);
        let p = sync_alerts_spec(stored, machine_id, fp);
        assert(r == upsert_alert(p, f));
        lemma_upsert_keeps(p, f);
        assert(fresh[fresh.len() - 1] == f);
        assert forall|j: int| 0 <= j < r.len() implies like_stored(stored, machine_id, #[trigger] r[j]) || open_of(r[j], machine_id) by {
            if j < p.len() {
                assert(like_stored(stored, machine_id, p[j]) || open_of(p[j], machine_id));
                if like_stored(stored, machine_id, p[j]) {
                    let k = choose|k: int|
                        0 <= k < stored.len() && (#[trigger] stored[k]).id@ == p[j].id@ && stored[k].machine_id@ == p[j].machine_id@
                            && stored[k].resolved == p[j].resolved;
                    assert(stored[k].id@ == r[j].id@);
                }
            }
        }
        assert forall|j: int| 0 <= j < r.len() && open_of(#[trigger] r[j], machine_id) implies fresh_has_id(fresh, r[j].id@) by {
            if j < p.len() {
                assert(open_of(p[j], machine_id));
                let i = choose|i: int| 0 <= i < fp.len() && (#[trigger] fp[i]).id@ == p[j].id@;
                assert(fresh[i] == fp[i]);
            } else {
                assert(fresh[fresh.len() - 1].id@ == r[j].id@);
            }
        }
        assert forall|i: int| 0 <= i < fresh.len() && only_open_hold(stored, machine_id, (#[trigger] fresh[i]).id@)
            implies has_open_of(r, fresh[i].id@, machine_id) by {
            if i < fp.len() {
                assert(fp[i] == fresh[i]);
                let j = choose|j: int| 0 <= j < p.len() && (#[trigger] p[j]).id@ == fp[i].id@ && open_of(p[j], machine_id);
                assert(r[j].id@ == p[j].id@);
            } else {
                assert(i == fresh.len() - 1);
                assert(fresh[i] == f);
                if r.len() == p.len() + 1 {
                    assert(r[p.len() as int].id@ == f.id@);
                } else {
                    let k = alert_index(p, f.id@);
                    if like_stored(stored, machine_id, p[k]) {
                        let k2 = choose|k2: int|
                            0 <= k2 < stored.len() && (#[trigger] stored[k2]).id@ == p[k].id@ && stored[k2].machine_id@ == p[k].machine_id@
                                && stored[k2].resolved == p[k].resolved;
                        assert(open_of(stored[k2], machine_id));
                    }
                    assert(open_of(p[k], machine_id));
                    assert(r[k].id@ == f.id@);
                }
            }
        }
    }
}

/// Storing a machine's alerts again replaces its open alerts by the new set: every
/// open alert of the machine afterwards carries the id of one of the new alerts, and
/// every new alert whose id no stored alert holds (but the machine's own open ones,
/// which are dropped) is stored open for the machine. Resolved alerts stay resolved
/// (see [`law_resolved_alert_stays_resolved`]).
pub proof fn law_sync_replaces_open_alerts(stored: Seq<AlertRecord>, machine_id: Seq<char>, fresh: Seq<AlertRecord>)
    requires
        forall|i: int| 0 <= i < fresh.len() ==> (#[trigger] fresh[i]).machine_id@ == machine_id,
    ensures
        forall|j: int| 0 <= j < sync_alerts_spec(stored, machine_id, fresh).len() && open_of(
            #[trigger] sync_alerts_spec(stored, machine_id, fresh)[j],
            machine_id,
        ) ==> fresh_has_id(fresh, sync_alerts_spec(stored, machine_id, fresh)[j].id@),
        forall|i: int| 0 <= i < fresh.len() && only_open_hold(stored, machine_id, (#[trigger] fresh[i]).id@)
            ==> has_open_of(sync_alerts_spec(stored, machine_id, fresh), fresh[i].id@, machine_id),
{
    lemma_sync_open_alerts(stored, machine_id, fresh);
}


// ---------------------------------------------------------------------------
// A blue screen is always reported
// ---------------------------------------------------------------------------

/// A category that cannot open the de-duplication text `bsod:…`: it does not start
/// with `b`, or its second character is not `s`.
spec fn off_bsod(cat: Seq<char>) -> bool {
    (cat.len() > 0 && cat[0] != 'b') || (cat.len() > 1 && cat[1] != 's')
}

spec fn all_off_bsod(s: Seq<Cand>) -> bool {
    forall|i: int| 0 <= i < s.len() ==> off_bsod((#[trigger] s[i]).1)
}

proof fn lemma_off_bsod_concat(a: Seq<Cand>, b: Seq<Cand>)
    requires
        all_off_bsod(a),
        all_off_bsod(b),
    ensures
        all_off_bsod(a + b),
{
    assert forall|i: int| 0 <= i < (a + b).len() implies off_bsod((#[trigger] (a + b)[i]).1) by {
        if i < a.len() {
            assert((a + b)[i] == a[i]);
        } else {
            assert((a + b)[i] == b[i - a.len()]);
        }
    }
}

proof fn lemma_off_bsod_literals()
    ensures
        off_bsod("blacklist"@),
        off_bsod("performance"@),
        off_bsod("software_policy"@),
        off_bsod("antivirus"@),
        off_bsod("firewall"@),
        off_bsod("bitlocker"@),
        off_bsod("certificate"@),
        off_bsod("disk"@),
{
    reveal_strlit("blacklist");
    reveal_strlit("performance");
    reveal_strlit("software_policy");
    reveal_strlit("antivirus");
    reveal_strlit("firewall");
    reveal_strlit("bitlocker");
    reveal_strlit("certificate");
    reveal_strlit("disk");
}

proof fn lemma_blacklist_off(programs: Seq<Json>, blocked: Seq<String>)
    ensures
        all_off_bsod(blacklist_cands(programs, blocked)),
    decreases blocked.len(),
{
    if blocked.len() > 0 {
        lemma_blacklist_off(programs, blocked.drop_last());
        lemma_off_bsod_literals();
        let b = blocked.last();
        let x: Seq<Cand> = if program_matches(programs, lower_text(b@)) {
            seq![(AlertSeverity::Warning, "blacklist"@, b@, "Software não autorizado: "@ + b@)]
        } else {
            Seq::empty()
        };
        lemma_off_bsod_concat(blacklist_cands(programs, blocked.drop_last()), x);
    }
}

proof fn lemma_missing_apps_off(apps: Seq<crate::standard_apps::AppV>)
    ensures
        all_off_bsod(missing_apps_cands(apps)),
    decreases apps.len(),
{
    if apps.len() > 0 {
        lemma_missing_apps_off(apps.drop_last());
        lemma_off_bsod_literals();
        let a = apps.last();
        let x: Seq<Cand> = if !a.3 {
            seq![(AlertSeverity::Warning, "software_policy"@, a.0, "Programa padrão ausente: "@ + a.1)]
        } else {
            Seq::empty()
        };
        lemma_off_bsod_concat(missing_apps_cands(apps.drop_last()), x);
    }
}

proof fn lemma_cert_off(ents: Seq<(Seq<char>, i64, Seq<char>)>)
    ensures
        all_off_bsod(cert_cands(ents)),
    decreases ents.len(),
{
    if ents.len() > 0 {
        lemma_cert_off(ents.drop_last());
        lemma_off_bsod_literals();
        lemma_off_bsod_concat(cert_cands(ents.drop_last()), cert_cand(ents.last()));
    }
}

proof fn lemma_disk_off(ds: Seq<Json>)
    ensures
        all_off_bsod(disk_cands(ds)),
    decreases ds.len(),
{
    if ds.len() > 0 {
        lemma_disk_off(ds.drop_last());
        lemma_off_bsod_literals();
        lemma_off_bsod_concat(disk_cands(ds.drop_last()), disk_cand(ds.last()));
    }
}

proof fn lemma_health_off(pds: Seq<Json>)
    ensures
        all_off_bsod(health_cands(pds)),
    decreases pds.len(),
{
    if pds.len() > 0 {
        lemma_health_off(pds.drop_last());
        lemma_off_bsod_literals();
        lemma_off_bsod_concat(health_cands(pds.drop_last()), health_cand(pds.last(), (pds.len() - 1) as nat));
    }
}

/// No alert raised before the event-log section can take the blue screen's place.
proof fn lemma_before_events_off(machine: MachineSummary, cs: Seq<CollectorResult>, config: ServerConfig, profile: CompanyProfile)
    ensures
        all_off_bsod(
            software_cands(cs, config) + missing_apps_cands(detect_spec(cs, profile)) + security_cands(cs)
                + certificates_cands(cs) + hardware_cands(cs) + uptime_cands(machine),
        ),
{
    lemma_off_bsod_literals();
    let e = Seq::<Cand>::empty();
    // software
    match find_collector(cs, "software"@) {
        None => {},
        Some(sw) => {
            let a: Seq<Cand> = match get_array(sw.data, "programs"@) {
                Some(ps) => blacklist_cands(ps, config.blacklist_software@),
                None => e,
            };
            if let Some(ps) = get_array(sw.data, "programs"@) {
                lemma_blacklist_off(ps, config.blacklist_software@);
            }
            let b: Seq<Cand> = match get_array(sw.data, "startup"@) {
                Some(st) => if st.len() > 15 {
                    seq![
                        (
                            AlertSeverity::Warning,
                            "performance"@,
                            "startup_high"@,
                            nat_digits(st.len()) + " programas na inicialização — revisar"@,
                        ),
                    ]
                } else {
                    e
                },
                None => e,
            };
            lemma_off_bsod_concat(a, b);
        },
    }
    lemma_missing_apps_off(detect_spec(cs, profile));
    // security
    match find_collector(cs, "security"@) {
        None => {},
        Some(sec) => {
            let d = sec.data;
            lemma_off_bsod_concat(eset_cands(d), defender_cands(d));
            lemma_off_bsod_concat(eset_cands(d) + defender_cands(d), firewall_cands(d));
            lemma_off_bsod_concat(eset_cands(d) + defender_cands(d) + firewall_cands(d), bitlocker_cands(d));
        },
    }
    match find_collector(cs, "certificates"@) {
        None => {},
        Some(c) => lemma_cert_off(best_days_spec(c.data)),
    }
    match find_collector(cs, "hardware"@) {
        None => {},
        Some(hw) => {
            let a: Seq<Cand> = match disks_of(hw.data) {
                Some(ds) => disk_cands(ds),
                None => e,
            };
            if let Some(ds) = disks_of(hw.data) {
                lemma_disk_off(ds);
            }
            let b: Seq<Cand> = match get_array(hw.data, "physical_disks"@) {
                Some(p) => health_cands(p),
                None => e,
            };
            if let Some(p) = get_array(hw.data, "physical_disks"@) {
                lemma_health_off(p);
            }
            lemma_off_bsod_concat(a, b);
            lemma_off_bsod_concat(a + b, ram_cands(hw.data));
        },
    }
    let s1 = software_cands(cs, config);
    let s2 = missing_apps_cands(detect_spec(cs, profile));
    let s3 = security_cands(cs);
    let s4 = certificates_cands(cs);
    let s5 = hardware_cands(cs);
    let s6 = uptime_cands(machine);
    lemma_off_bsod_concat(s1, s2);
    lemma_off_bsod_concat(s1 + s2, s3);
    lemma_off_bsod_concat(s1 + s2 + s3, s4);
    lemma_off_bsod_concat(s1 + s2 + s3 + s4, s5);
    lemma_off_bsod_concat(s1 + s2 + s3 + s4 + s5, s6);
}

/// De-duplication keeps a raised alert when no alert raised before it has its
/// category and key.
proof fn lemma_dedupe_keeps_first(cs: Seq<Cand>, k: int)
    requires
        0 <= k < cs.len(),
        forall|i: int| 0 <= i < k ==> dkey(#[trigger] cs[i]) != dkey(cs[k]),
    ensures
        dedupe(cs).contains(cs[k]),
    decreases cs.len(),
{
    let p = cs.drop_last();
    law_alerts_unique_per_key(p);
    if k == cs.len() - 1 {
        if has_dkey(dedupe(p), dkey(cs.last())) {
            let w = choose|w: int| 0 <= w < dedupe(p).len() && dkey(#[trigger] dedupe(p)[w]) == dkey(cs.last());
            let i = choose|i: int| 0 <= i < p.len() && p[i] == dedupe(p)[w];
            assert(cs[i] == p[i]);
        }
        assert(dedupe(cs) == dedupe(p).push(cs.last()));
        assert(dedupe(cs)[dedupe(p).len() as int] == cs[k]);
    } else {
        assert forall|i: int| 0 <= i < k implies dkey(#[trigger] p[i]) != dkey(p[k]) by {
            assert(p[i] == cs[i] && p[k] == cs[k]);
        }
        lemma_dedupe_keeps_first(p, k);
        let j = choose|j: int| 0 <= j < dedupe(p).len() && dedupe(p)[j] == p[k];
        assert(dedupe(cs)[j] == dedupe(p)[j]);
    }
}

/// A blue screen is always reported: when the event log's summary counts at least
/// one, the machine's alerts hold a critical `bsod` alert, with the id of the key
/// `bsod_recent` and the message naming the last bug-check code (`?` where none),
/// whatever the other collectors hold.
pub proof fn law_bsod_raises_critical_alert(
    machine: MachineSummary,
    cs: Seq<CollectorResult>,
    config: ServerConfig,
    admin: Option<MachineAdmin>,
    profile: CompanyProfile,
    rs: Seq<AlertRecord>,
    ev: CollectorResult,
    summary: Json,
)
    requires
        alerts_match(rs, dedupe(alert_cands(machine, cs, config, admin, profile)), machine.id@, machine.hostname@),
        find_collector(cs, "event_logs"@) == Some(ev),
        ev.data.get_spec("summary"@) == Some(summary),
        get_count(summary, "bsod_count"@) > 0,
    ensures
        exists|j: int|
            0 <= j < rs.len() && (#[trigger] rs[j]).severity == AlertSeverity::Critical && rs[j].category@ == "bsod"@
                && rs[j].id@ == alert_id_spec(machine.id@, "bsod"@, "bsod_recent"@) && rs[j].message@ == "Tela azul detectada ("@
                + (match get_str(summary, "last_bugcheck_code"@) {
                Some(c) => c,
                None => "?"@,
            }) + ")"@,
{
    let code = match get_str(summary, "last_bugcheck_code"@) {
        Some(c) => c,
        None => "?"@,
    };
    let bc: Cand = (AlertSeverity::Critical, "bsod"@, "bsod_recent"@, "Tela azul detectada ("@ + code + ")"@);
    let a = software_cands(cs, config) + missing_apps_cands(detect_spec(cs, profile)) + security_cands(cs)
        + certificates_cands(cs) + hardware_cands(cs) + uptime_cands(machine);
    let rest = os_cands(cs) + admin_cands(admin) + offline_cands(machine);
    let all = alert_cands(machine, cs, config, admin, profile);
    assert(event_cands(cs) == seq![bc]);
    assert(all =~= a + seq![bc] + rest);
    let k = a.len() as int;
    assert(all[k] == bc);
    lemma_before_events_off(machine, cs, config, profile);
    reveal_strlit("bsod");
    reveal_strlit(":");
    assert forall|i: int| 0 <= i < k implies dkey(#[trigger] all[i]) != dkey(all[k]) by {
        assert(all[i] == a[i]);
        assert(off_bsod(a[i].1));
        let d1 = dkey(all[i]);
        let d2 = dkey(bc);
        if a[i].1.len() > 0 && a[i].1[0] != 'b' {
            assert(d1[0] == a[i].1[0]);
            assert(d2[0] == 'b');
        } else {
            assert(d1[1] == a[i].1[1]);
            assert(d2[1] == 's');
        }
    }
    lemma_dedupe_keeps_first(all, k);
    let d = dedupe(all);
    let j = choose|j: int| 0 <= j < d.len() && d[j] == bc;
    assert(alert_matches(rs[j], d[j], machine.id@, machine.hostname@));
}


/// Unexpected shutdowns without a blue screen are reported: when the event log's
/// summary counts no blue screen but at least one unexpected shutdown, the machine's
/// alerts hold a warning `bsod` alert with the id of the key `unexpected_shutdown`,
/// whose message gives the count.
pub proof fn law_unexpected_shutdowns_raise_warning(
    machine: MachineSummary,
    cs: Seq<CollectorResult>,
    config: ServerConfig,
    admin: Option<MachineAdmin>,
    profile: CompanyProfile,
    rs: Seq<AlertRecord>,
    ev: CollectorResult,
    summary: Json,
)
    requires
        alerts_match(rs, dedupe(alert_cands(machine, cs, config, admin, profile)), machine.id@, machine.hostname@),
        find_collector(cs, "event_logs"@) == Some(ev),
        ev.data.get_spec("summary"@) == Some(summary),
        get_count(summary, "bsod_count"@) == 0,
        get_count(summary, "unexpected_shutdowns"@) > 0,
    ensures
        exists|j: int|
            0 <= j < rs.len() && (#[trigger] rs[j]).severity == AlertSeverity::Warning && rs[j].category@ == "bsod"@
                && rs[j].id@ == alert_id_spec(machine.id@, "bsod"@, "unexpected_shutdown"@) && rs[j].message@
                == nat_digits(get_count(summary, "unexpected_shutdowns"@) as nat)
                + " desligamento(s) inesperado(s) nos últimos 14 dias"@,
{
    let uc: Cand = (
        AlertSeverity::Warning,
        "bsod"@,
        "unexpected_shutdown"@,
        nat_digits(get_count(summary, "unexpected_shutdowns"@) as nat) + " desligamento(s) inesperado(s) nos últimos 14 dias"@,
    );
    let a = software_cands(cs, config) + missing_apps_cands(detect_spec(cs, profile)) + security_cands(cs)
        + certificates_cands(cs) + hardware_cands(cs) + uptime_cands(machine);
    let rest = os_cands(cs) + admin_cands(admin) + offline_cands(machine);
    let all = alert_cands(machine, cs, config, admin, profile);
    assert(event_cands(cs) == seq![uc]);
    assert(all =~= a + seq![uc] + rest);
    let k = a.len() as int;
    assert(all[k] == uc);
    lemma_before_events_off(machine, cs, config, profile);
    reveal_strlit("bsod");
    reveal_strlit(":");
    assert forall|i: int| 0 <= i < k implies dkey(#[trigger] all[i]) != dkey(all[k]) by {
        assert(all[i] == a[i]);
        assert(off_bsod(a[i].1));
        let d1 = dkey(all[i]);
        let d2 = dkey(uc);
        if a[i].1.len() > 0 && a[i].1[0] != 'b' {
            assert(d1[0] == a[i].1[0]);
            assert(d2[0] == 'b');
        } else {
            assert(d1[1] == a[i].1[1]);
            assert(d2[1] == 's');
        }
    }
    lemma_dedupe_keeps_first(all, k);
    let d = dedupe(all);
    let j = choose|j: int| 0 <= j < d.len() && d[j] == uc;
    assert(alert_matches(rs[j], d[j], machine.id@, machine.hostname@));
}

} // verus!
