//! Incidents of a machine: performance signals, stability events and disk health,
//! one per stable id, newest first.

use vstd::prelude::*;
use crate::admin::ostr;
use crate::ext::{
    chrono_instant, format_utc, naive_instant, parse_naive, parse_rfc3339, rfc3339_instant,
    sha256_hex, sha256_hex_of, lower_text, utc_now, utc_text,
};
use crate::freeze::{
    erp_unreachable_remediation, erp_unreachable_spec, first_match, freeze_views, match_product,
    FreezeProneApp, FreezeV,
};
use crate::json::{get_array, get_num, get_str, get_u64, json_array, json_num, json_str, json_u64, str_or, str_or_v, Decimal, Json};
use crate::models::{
    find_collector, find_collector_exec, AlertSeverity, CollectorResult, CompanyProfile,
    IncidentRecord, UtcTime,
};
use crate::num::{fmt_decimal, fmt_fixed};
use crate::text::{
    chars, eq_ignore_case, eq_v, extend, extend_str, fmt_u64, nat_digits, str_eq, to_string,
    utf8_len, utf8_len_v, vviews,
};

verus! {

/// An incident before de-duplication: category, de-duplication key, severity, title,
/// message, metric, threshold, recommendation, source collector and the instant it
/// was observed.
pub type IncCand = (
    Seq<char>,
    Seq<char>,
    AlertSeverity,
    Seq<char>,
    Seq<char>,
    Option<Decimal>,
    Option<Decimal>,
    Option<Seq<char>>,
    Seq<char>,
    UtcTime,
);

/// The stable id of an incident: SHA-256 of `"inc|{machine}|{category}|{key}"`.
pub open spec fn incident_id_spec(machine_id: Seq<char>, category: Seq<char>, key: Seq<char>) -> Seq<char> {
    sha256_hex("inc|"@ + machine_id + "|"@ + category + "|"@ + key)
}

pub fn incident_stable_id(machine_id: &str, category: &str, key: &str) -> (r: String)
    ensures
        r@ == incident_id_spec(machine_id@, category@, key@),
{
    let mut t = chars("inc|");
    extend_str(&mut t, machine_id);
    extend_str(&mut t, "|");
    extend_str(&mut t, category);
    extend_str(&mut t, "|");
    extend_str(&mut t, key);
    sha256_hex_of(to_string(&t).as_str())
}

pub open spec fn cand_id(c: IncCand, mid: Seq<char>) -> Seq<char> {
    incident_id_spec(mid, c.0, c.1)
}

pub open spec fn cand_ids(d: Seq<IncCand>, mid: Seq<char>) -> Seq<Seq<char>> {
    Seq::new(d.len(), |i: int| cand_id(d[i], mid))
}

pub open spec fn has_id(d: Seq<IncCand>, mid: Seq<char>, id: Seq<char>) -> bool {
    exists|i: int| 0 <= i < d.len() && cand_id(#[trigger] d[i], mid) == id
}

/// Keeps the first incident of each stable id.
pub open spec fn inc_dedupe(cs: Seq<IncCand>, mid: Seq<char>) -> Seq<IncCand>
    decreases cs.len(),
{
    if cs.len() == 0 {
        cs
    } else {
        let d = inc_dedupe(cs.drop_last(), mid);
        if has_id(d, mid, cand_id(cs.last(), mid)) {
            d
        } else {
            d.push(cs.last())
        }
    }
}

/// `a` was observed strictly later than `b`.
pub open spec fn newer(a: IncCand, b: IncCand) -> bool {
    a.9.later(b.9)
}

pub open spec fn insert_newest_first(s: Seq<IncCand>, x: IncCand) -> Seq<IncCand>
    decreases s.len(),
{
    if s.len() == 0 {
        seq![x]
    } else if newer(x, s.last()) {
        insert_newest_first(s.drop_last(), x).push(s.last())
    } else {
        s.push(x)
    }
}

/// The stable sort, newest first (`sort_by(|a, b| b.observed_at.cmp(&a.observed_at))`).
pub open spec fn newest_first(s: Seq<IncCand>) -> Seq<IncCand>
    decreases s.len(),
{
    if s.len() == 0 {
        s
    } else {
        insert_newest_first(newest_first(s.drop_last()), s.last())
    }
}

proof fn lemma_insert_at(s: Seq<IncCand>, x: IncCand, j: int)
    requires
        0 <= j <= s.len(),
        forall|k: int| j <= k < s.len() ==> newer(x, #[trigger] s[k]),
        j == 0 || !newer(x, s[j - 1]),
    ensures
        insert_newest_first(s, x) == s.insert(j, x),
    decreases s.len(),
{
    if s.len() == 0 {
        assert(s.insert(j, x) =~= seq![x]);
    } else if j == s.len() {
        assert(s.insert(j, x) =~= s.push(x));
    } else {
        let t = s.drop_last();
        assert(newer(x, s.last()));
        assert forall|k: int| j <= k < t.len() implies newer(x, #[trigger] t[k]) by {
            assert(t[k] == s[k]);
        }
        if j > 0 {
            assert(t[j - 1] == s[j - 1]);
        }
        lemma_insert_at(t, x, j);
        assert(t.insert(j, x).push(s.last()) =~= s.insert(j, x));
    }
}

pub open spec fn inc_matches(r: IncidentRecord, c: IncCand, mid: Seq<char>) -> bool {
    &&& r.id@ == cand_id(c, mid)
    &&& r.machine_id@ == mid
    &&& r.category@ == c.0
    &&& r.severity == c.2
    &&& r.title@ == c.3
    &&& r.message@ == c.4
    &&& r.metric_value == c.5
    &&& r.threshold == c.6
    &&& ostr(r.recommendation) == c.7
    &&& r.source_collector@ == c.8
    &&& r.observed_at == c.9
    &&& r.first_seen == c.9
    &&& r.last_seen == c.9
    &&& r.occurrence_count == 1
}

pub open spec fn incs_match(rs: Seq<IncidentRecord>, cs: Seq<IncCand>, mid: Seq<char>) -> bool {
    &&& rs.len() == cs.len()
    &&& forall|i: int| 0 <= i < rs.len() ==> inc_matches(#[trigger] rs[i], cs[i], mid)
}

struct IncBuilder {
    machine_id: String,
    seen: Vec<Vec<char>>,
    out: Vec<IncidentRecord>,
    cands: Ghost<Seq<IncCand>>,
}

impl IncBuilder {
    spec fn wf(self) -> bool {
        &&& incs_match(self.out@, inc_dedupe(self.cands@, self.machine_id@), self.machine_id@)
        &&& vviews(self.seen@) == cand_ids(inc_dedupe(self.cands@, self.machine_id@), self.machine_id@)
    }

    fn new(machine_id: &str) -> (r: IncBuilder)
        ensures
            r.wf(),
            r.cands@ == Seq::<IncCand>::empty(),
            r.machine_id@ == machine_id@,
    {
        let r = IncBuilder {
            machine_id: machine_id.to_owned(),
            seen: Vec::new(),
            out: Vec::new(),
            cands: Ghost(Seq::empty()),
        };
        assert(vviews(r.seen@) =~= cand_ids(inc_dedupe(r.cands@, r.machine_id@), r.machine_id@));
        r
    }

    fn push(
        &mut self,
        category: &str,
        key: &str,
        severity: AlertSeverity,
        title: &str,
        message: &str,
        metric: Option<Decimal>,
        threshold: Option<Decimal>,
        rec: Option<String>,
        source: &str,
        observed: UtcTime,
    )
        requires
            old(self).wf(),
        ensures
            final(self).wf(),
            final(self).cands@ == old(self).cands@.push(
                (category@, key@, severity, title@, message@, metric, threshold, ostr(rec), source@, observed),
            ),
            final(self).machine_id@ == old(self).machine_id@,
    {
        let ghost c: IncCand = (category@, key@, severity, title@, message@, metric, threshold, ostr(rec), source@, observed);
        let ghost mid = self.machine_id@;
        let ghost d = inc_dedupe(self.cands@, mid);
        let id = incident_stable_id(self.machine_id.as_str(), category, key);
        let k = chars(id.as_str());
        let mut i: usize = 0;
        let mut found = false;
        while i < self.seen.len() && !found
            invariant
                i <= self.seen@.len(),
                *self == *old(self),
                old(self).wf(),
                mid == self.machine_id@,
                d == inc_dedupe(old(self).cands@, mid),
                vviews(self.seen@) == cand_ids(d, mid),
                k@ == cand_id(c, mid),
                found ==> has_id(d, mid, cand_id(c, mid)),
                !found ==> forall|j: int| 0 <= j < i ==> cand_id(#[trigger] d[j], mid) != k@,
            decreases self.seen@.len() - i + (if found { 0int } else { 1int }),
        {
            assert(vviews(self.seen@).len() == self.seen@.len());
            assert(cand_ids(d, mid).len() == d.len());
            assert(vviews(self.seen@)[i as int] == self.seen@[i as int]@);
            assert(cand_ids(d, mid)[i as int] == cand_id(d[i as int], mid));
            if eq_v(&self.seen[i], &k) {
                found = true;
            } else {
                i = i + 1;
            }
        }
        if found {
            self.cands = Ghost(self.cands@.push(c));
            assert(self.cands@.drop_last() =~= old(self).cands@);
            return;
        }
        assert(vviews(self.seen@).len() == self.seen@.len());
        assert(cand_ids(d, mid).len() == d.len());
        assert(!has_id(d, mid, cand_id(c, mid)));
        let rec_copy = match &rec {
            Some(s) => Some(s.clone()),
            None => None,
        };
        let record = IncidentRecord {
            id,
            machine_id: self.machine_id.clone(),
            category: category.to_owned(),
            severity,
            title: title.to_owned(),
            message: message.to_owned(),
            metric_value: metric,
            threshold,
            recommendation: rec_copy,
            source_collector: source.to_owned(),
            observed_at: observed,
            first_seen: observed,
            last_seen: observed,
            occurrence_count: 1,
        };
        let ghost prev_out = self.out@;
        self.out.push(record);
        let ghost prev_seen = self.seen@;
        self.seen.push(k);
        self.cands = Ghost(self.cands@.push(c));
        assert(self.cands@.drop_last() =~= old(self).cands@);
        assert(inc_dedupe(self.cands@, mid) == d.push(c));
        assert forall|j: int| 0 <= j < d.len() + 1 implies vviews(self.seen@)[j] == cand_ids(d.push(c), mid)[j] by {
            if j < d.len() {
                assert(self.seen@[j] == prev_seen[j]);
                assert(vviews(prev_seen)[j] == prev_seen[j]@);
            }
        }
        assert(vviews(self.seen@) =~= cand_ids(d.push(c), mid));
        assert forall|j: int| 0 <= j < self.out@.len() implies inc_matches(#[trigger] self.out@[j], d.push(c)[j], mid) by {
            if j < prev_out.len() {
                assert(self.out@[j] == prev_out[j]);
            }
        }
    }
}

spec fn igrew(o: IncBuilder, n: IncBuilder, add: Seq<IncCand>) -> bool {
    &&& n.wf()
    &&& n.cands@ == o.cands@ + add
    &&& n.machine_id@ == o.machine_id@
}

proof fn lemma_igrew_none(o: IncBuilder)
    requires
        o.wf(),
    ensures
        igrew(o, o, Seq::empty()),
{
    assert(o.cands@ + Seq::<IncCand>::empty() =~= o.cands@);
}

proof fn lemma_igrew_trans(a: IncBuilder, b: IncBuilder, c: IncBuilder, x: Seq<IncCand>, y: Seq<IncCand>)
    requires
        igrew(a, b, x),
        igrew(b, c, y),
    ensures
        igrew(a, c, x + y),
{
    assert(a.cands@ + x + y =~= a.cands@ + (x + y));
}

fn push_one(
    b: &mut IncBuilder,
    category: &str,
    key: &str,
    severity: AlertSeverity,
    title: &str,
    message: &str,
    metric: Option<Decimal>,
    threshold: Option<Decimal>,
    rec: Option<String>,
    source: &str,
    observed: UtcTime,
)
    requires
        old(b).wf(),
    ensures
        igrew(
            *old(b),
            *final(b),
            seq![(category@, key@, severity, title@, message@, metric, threshold, ostr(rec), source@, observed)],
        ),
{
    b.push(category, key, severity, title, message, metric, threshold, rec, source, observed);
    assert(b.cands@ =~= old(b).cands@ + seq![
        (category@, key@, severity, title@, message@, metric, threshold, ostr(rec), source@, observed),
    ]);
}

/// Concatenation of what `f` gives for each element.
pub open spec fn concat_map(s: Seq<Json>, f: spec_fn(Json) -> Seq<IncCand>) -> Seq<IncCand>
    decreases s.len(),
{
    if s.len() == 0 {
        Seq::empty()
    } else {
        concat_map(s.drop_last(), f) + f(s.last())
    }
}

// ---------------------------------------------------------------------------
// Titles and times
// ---------------------------------------------------------------------------

/// The title shown for an incident category.
pub open spec fn incident_title_spec(c: Seq<char>) -> Seq<char> {
    if c == "cpu_high"@ {
        "CPU alta"@
    } else if c == "cpu_elevated"@ {
        "CPU elevada"@
    } else if c == "memory_high"@ {
        "Memória alta"@
    } else if c == "disk_critical"@ {
        "Disco quase cheio"@
    } else if c == "disk_low"@ {
        "Pouco espaço em disco"@
    } else if c == "disk_saturation"@ {
        "Disco saturado (100%)"@
    } else if c == "disk_queue"@ {
        "Fila de disco alta"@
    } else if c == "temp_high"@ {
        "Temperatura alta"@
    } else if c == "temp_critical"@ {
        "Temperatura crítica"@
    } else if c == "app_crash"@ {
        "Aplicativo travou/falhou"@
    } else if c == "app_hang"@ {
        "Aplicativo travou (hang)"@
    } else if c == "erp_unreachable"@ {
        "Servidor ERP inalcancavel"@
    } else if c == "known_app_crash"@ {
        "Programa critico falhou"@
    } else if c == "known_app_hang"@ {
        "Programa critico travou"@
    } else if c == "bugcheck"@ {
        "BugCheck / tela azul"@
    } else if c == "system_failure"@ {
        "Falha do Windows"@
    } else if c == "bsod"@ {
        "Tela azul (BSOD)"@
    } else if c == "unexpected_shutdown"@ {
        "Desligamento inesperado"@
    } else if c == "system_critical"@ {
        "Evento crítico"@
    } else if c == "app_errors_high"@ {
        "Erros de apps elevados"@
    } else if c == "disk_error"@ {
        "Erro disco/SSD"@
    } else if c == "whea_hardware"@ {
        "Hardware WHEA"@
    } else if c == "smart_unhealthy"@ {
        "Disco SMART"@
    } else {
        "Incidente de performance"@
    }
}

pub fn incident_title(category: &str) -> (r: &'static str)
    ensures
        r@ == incident_title_spec(category@),
{
    if str_eq(category, "cpu_high") {
        "CPU alta"
    } else if str_eq(category, "cpu_elevated") {
        "CPU elevada"
    } else if str_eq(category, "memory_high") {
        "Memória alta"
    } else if str_eq(category, "disk_critical") {
        "Disco quase cheio"
    } else if str_eq(category, "disk_low") {
        "Pouco espaço em disco"
    } else if str_eq(category, "disk_saturation") {
        "Disco saturado (100%)"
    } else if str_eq(category, "disk_queue") {
        "Fila de disco alta"
    } else if str_eq(category, "temp_high") {
        "Temperatura alta"
    } else if str_eq(category, "temp_critical") {
        "Temperatura crítica"
    } else if str_eq(category, "app_crash") {
        "Aplicativo travou/falhou"
    } else if str_eq(category, "app_hang") {
        "Aplicativo travou (hang)"
    } else if str_eq(category, "erp_unreachable") {
        "Servidor ERP inalcancavel"
    } else if str_eq(category, "known_app_crash") {
        "Programa critico falhou"
    } else if str_eq(category, "known_app_hang") {
        "Programa critico travou"
    } else if str_eq(category, "bugcheck") {
        "BugCheck / tela azul"
    } else if str_eq(category, "system_failure") {
        "Falha do Windows"
    } else if str_eq(category, "bsod") {
        "Tela azul (BSOD)"
    } else if str_eq(category, "unexpected_shutdown") {
        "Desligamento inesperado"
    } else if str_eq(category, "system_critical") {
        "Evento crítico"
    } else if str_eq(category, "app_errors_high") {
        "Erros de apps elevados"
    } else if str_eq(category, "disk_error") {
        "Erro disco/SSD"
    } else if str_eq(category, "whea_hardware") {
        "Hardware WHEA"
    } else if str_eq(category, "smart_unhealthy") {
        "Disco SMART"
    } else {
        "Incidente de performance"
    }
}

pub open spec fn instant(p: Option<(i64, u32)>) -> Option<UtcTime> {
    match p {
        Some(t) => Some(UtcTime { secs: t.0, nanos: t.1 }),
        None => None,
    }
}

/// An RFC 3339 instant, else a naive `%Y-%m-%dT%H:%M:%S%.f` one read as UTC.
pub open spec fn parse_time_spec(s: Seq<char>) -> Option<UtcTime> {
    match instant(rfc3339_instant(s)) {
        Some(t) => Some(t),
        None => instant(naive_instant(s)),
    }
}

pub fn parse_time(s: &str) -> (r: Option<UtcTime>)
    ensures
        r == parse_time_spec(s@),
        match r {
            Some(t) => chrono_instant(t.secs, t.nanos),
            None => true,
        },
{
    match parse_rfc3339(s) {
        Some(t) => Some(t),
        None => parse_naive(s),
    }
}

pub open spec fn time_or(s: Seq<char>, fallback: UtcTime) -> UtcTime {
    match parse_time_spec(s) {
        Some(t) => t,
        None => fallback,
    }
}

fn time_or_v(s: &str, fallback: UtcTime) -> (r: UtcTime)
    requires
        chrono_instant(fallback.secs, fallback.nanos),
    ensures
        r == time_or(s@, fallback),
        chrono_instant(r.secs, r.nanos),
{
    match parse_time(s) {
        Some(t) => t,
        None => fallback,
    }
}

pub open spec fn ymd(t: UtcTime) -> Seq<char> {
    utc_text(t.secs, t.nanos, "%Y-%m-%d"@)
}

pub open spec fn u64_or_zero(v: Json, key: Seq<char>) -> u64 {
    match get_u64(v, key) {
        Some(n) => n,
        None => 0,
    }
}

fn u64_or_zero_v(v: &Json, key: &str) -> (r: u64)
    ensures
        r == u64_or_zero(*v, key@),
{
    match json_u64(v, key) {
        Some(n) => n,
        None => 0,
    }
}

/// The remediation of the first freeze-prone program with the given id.
pub open spec fn app_remediation(apps: Seq<FreezeV>, id: Seq<char>) -> Option<Seq<char>>
    decreases apps.len(),
{
    if apps.len() == 0 {
        None
    } else if apps[0].0 == id {
        Some(apps[0].6)
    } else {
        app_remediation(apps.drop_first(), id)
    }
}

fn app_remediation_v(apps: &[FreezeProneApp], id: &str) -> (r: Option<String>)
    ensures
        ostr(r) == app_remediation(freeze_views(apps@), id@),
{
    let ghost fv = freeze_views(apps@);
    let mut i: usize = 0;
    assert(fv.skip(0) =~= fv);
    while i < apps.len()
        invariant
            i <= apps@.len(),
            fv == freeze_views(apps@),
            app_remediation(fv, id@) == app_remediation(fv.skip(i as int), id@),
        decreases apps@.len() - i,
    {
        assert(fv.skip(i as int)[0] == apps@[i as int]@);
        assert(fv.skip(i as int).drop_first() =~= fv.skip(i + 1));
        if str_eq(apps[i].id.as_str(), id) {
            return Some(apps[i].remediation.clone());
        }
        i = i + 1;
    }
    None
}

// ---------------------------------------------------------------------------
// Performance signals
// ---------------------------------------------------------------------------

pub open spec fn collected_at(data: Json, now: UtcTime) -> UtcTime {
    match get_str(data, "collected_at"@) {
        Some(s) => time_or(s, now),
        None => now,
    }
}

pub open spec fn signal_severity(sig: Json) -> AlertSeverity {
    match get_str(sig, "severity"@) {
        Some(s) => if s == "critical"@ {
            AlertSeverity::Critical
        } else if s == "warning"@ {
            AlertSeverity::Warning
        } else {
            AlertSeverity::Info
        },
        None => AlertSeverity::Info,
    }
}

/// `sig.get("value").and_then(json_f64).map(|m| m.to_string()).unwrap_or_default()`.
pub open spec fn metric_text(sig: Json) -> Seq<char> {
    match sig.get_spec("value"@) {
        Some(v) => if v.num_spec() is Some {
            v.f64_text()
        } else {
            Seq::empty()
        },
        None => Seq::empty(),
    }
}

/// The signal's own recommendation, else that of its program, else that of the
/// program its message names, else the ERP plan for `erp_unreachable`.
pub open spec fn signal_rec(
    sig: Json,
    sig_type: Seq<char>,
    message: Seq<char>,
    profile: CompanyProfile,
    apps: Seq<FreezeV>,
) -> Option<Seq<char>> {
    match get_str(sig, "recommendation"@) {
        Some(r) => Some(r),
        None => {
            let by_id = match get_str(sig, "app_id"@) {
                Some(id) => app_remediation(apps, id),
                None => None,
            };
            match by_id {
                Some(r) => Some(r),
                None => {
                    let k = first_match(lower_text(message), apps, true);
                    if k >= 0 {
                        Some(apps[k].6)
                    } else if sig_type == "erp_unreachable"@ {
                        Some(erp_unreachable_spec(profile))
                    } else {
                        None
                    }
                },
            }
        },
    }
}

pub open spec fn signal_cand(sig: Json, collected: UtcTime, profile: CompanyProfile, apps: Seq<FreezeV>) -> Seq<IncCand> {
    let t = str_or(sig, "type"@, "unknown"@);
    let msg = str_or(sig, "message"@, t);
    let observed = match get_str(sig, "observed_at"@) {
        Some(s) => time_or(s, collected),
        None => collected,
    };
    let key = match get_str(sig, "event_key"@) {
        Some(k) => k,
        None => ymd(observed) + "|"@ + t + "|"@ + metric_text(sig),
    };
    seq![
        (
            t,
            key,
            signal_severity(sig),
            incident_title_spec(t),
            msg,
            get_num(sig, "value"@),
            get_num(sig, "threshold"@),
            signal_rec(sig, t, msg, profile, apps),
            "performance"@,
            observed,
        ),
    ]
}

pub open spec fn perf_cands(data: Json, profile: CompanyProfile, apps: Seq<FreezeV>, now: UtcTime) -> Seq<IncCand> {
    match get_array(data, "signals"@) {
        Some(sigs) => concat_map(sigs, |s: Json| signal_cand(s, collected_at(data, now), profile, apps)),
        None => Seq::empty(),
    }
}

fn signal_severity_v(sig: &Json) -> (r: AlertSeverity)
    ensures
        r == signal_severity(*sig),
{
    match json_str(sig, "severity") {
        Some(s) => if str_eq(s, "critical") {
            AlertSeverity::Critical
        } else if str_eq(s, "warning") {
            AlertSeverity::Warning
        } else {
            AlertSeverity::Info
        },
        None => AlertSeverity::Info,
    }
}

fn metric_text_v(sig: &Json) -> (r: Vec<char>)
    ensures
        r@ == metric_text(*sig),
{
    match sig.get("value") {
        Some(v) => if v.as_num().is_some() {
            v.f64_to_text()
        } else {
            Vec::new()
        },
        None => Vec::new(),
    }
}

fn signal_rec_v(
    sig: &Json,
    sig_type: &Vec<char>,
    message: &Vec<char>,
    profile: &CompanyProfile,
    apps: &[FreezeProneApp],
) -> (r: Option<String>)
    ensures
        ostr(r) == signal_rec(*sig, sig_type@, message@, *profile, freeze_views(apps@)),
{
    if let Some(r) = json_str(sig, "recommendation") {
        return Some(r.to_owned());
    }
    if let Some(id) = json_str(sig, "app_id") {
        if let Some(r) = app_remediation_v(apps, id) {
            return Some(r);
        }
    }
    let ms = to_string(message);
    match match_product(ms.as_str(), apps) {
        Some(a) => {
            proof {
                let k = first_match(lower_text(message@), freeze_views(apps@), true);
                assert(freeze_views(apps@)[k] == apps@[k]@);
            }
            Some(a.remediation.clone())
        },
        None => {
            let erp = chars("erp_unreachable");
            if eq_v(sig_type, &erp) {
                Some(erp_unreachable_remediation(profile))
            } else {
                None
            }
        },
    }
}

fn signal_part(
    b: &mut IncBuilder,
    sig: &Json,
    collected: UtcTime,
    profile: &CompanyProfile,
    apps: &[FreezeProneApp],
)
    requires
        old(b).wf(),
        chrono_instant(collected.secs, collected.nanos),
    ensures
        igrew(*old(b), *final(b), signal_cand(*sig, collected, *profile, freeze_views(apps@))),
{
    let t = str_or_v(sig, "type", "unknown");
    let ts = to_string(&t);
    let msg = match json_str(sig, "message") {
        Some(m) => chars(m),
        None => chars(ts.as_str()),
    };
    let observed = match json_str(sig, "observed_at") {
        Some(s) => time_or_v(s, collected),
        None => collected,
    };
    let key = match json_str(sig, "event_key") {
        Some(k) => chars(k),
        None => {
            let day = format_utc(observed, "%Y-%m-%d");
            let mut k = chars(day.as_str());
            extend_str(&mut k, "|");
            extend(&mut k, &t);
            extend_str(&mut k, "|");
            let m = metric_text_v(sig);
            extend(&mut k, &m);
            k
        },
    };
    let rec = signal_rec_v(sig, &t, &msg, profile, apps);
    let ks = to_string(&key);
    let ms = to_string(&msg);
    push_one(
        b,
        ts.as_str(),
        ks.as_str(),
        signal_severity_v(sig),
        incident_title(ts.as_str()),
        ms.as_str(),
        json_num(sig, "value"),
        json_num(sig, "threshold"),
        rec,
        "performance",
        observed,
    );
}

fn perf_section(b: &mut IncBuilder, data: &Json, profile: &CompanyProfile, apps: &[FreezeProneApp], now: UtcTime)
    requires
        old(b).wf(),
        chrono_instant(now.secs, now.nanos),
    ensures
        igrew(*old(b), *final(b), perf_cands(*data, *profile, freeze_views(apps@), now)),
{
    proof {
        lemma_igrew_none(*b);
    }
    let collected = match json_str(data, "collected_at") {
        Some(s) => time_or_v(s, now),
        None => now,
    };
    let sigs = match json_array(data, "signals") {
        Some(s) => s,
        None => return,
    };
    let ghost f = |s: Json| signal_cand(s, collected_at(*data, now), *profile, freeze_views(apps@));
    let ghost b0 = *b;
    assert(sigs@.take(0) =~= Seq::<Json>::empty());
    let mut i: usize = 0;
    while i < sigs.len()
        invariant
            i <= sigs@.len(),
            chrono_instant(collected.secs, collected.nanos),
            collected == collected_at(*data, now),
            f == (|s: Json| signal_cand(s, collected_at(*data, now), *profile, freeze_views(apps@))),
            igrew(b0, *b, concat_map(sigs@.take(i as int), f)),
        decreases sigs@.len() - i,
    {
        assert(sigs@.take(i + 1).drop_last() =~= sigs@.take(i as int));
        assert(sigs@.take(i + 1).last() == sigs@[i as int]);
        let ghost before = *b;
        signal_part(b, &sigs[i], collected, profile, apps);
        proof {
            lemma_igrew_trans(b0, before, *b, concat_map(sigs@.take(i as int), f), f(sigs@[i as int]));
        }
        i = i + 1;
    }
    assert(sigs@.take(sigs@.len() as int) =~= sigs@);
}

// ---------------------------------------------------------------------------
// Stability events
// ---------------------------------------------------------------------------

pub open spec fn bsod_sig_type(category: Seq<char>) -> Seq<char> {
    if category == "BSOD_BUGCHECK"@ {
        "bsod"@
    } else if category == "KERNEL_POWER_UNEXPECTED"@ || category == "UNEXPECTED_SHUTDOWN"@ {
        "unexpected_shutdown"@
    } else {
        "system_critical"@
    }
}

pub open spec fn bsod_cand(e: Json, now: UtcTime) -> Seq<IncCand> {
    let category = str_or(e, "category"@, "SYSTEM_CRITICAL"@);
    if category == "SHUTDOWN_INITIATED"@ {
        Seq::empty()
    } else {
        let st = bsod_sig_type(category);
        let time = str_or(e, "time"@, ""@);
        let bsod = st == "bsod"@;
        seq![
            (
                st,
                time + "|"@ + nat_digits(u64_or_zero(e, "id"@) as nat),
                if bsod {
                    AlertSeverity::Critical
                } else {
                    AlertSeverity::Warning
                },
                incident_title_spec(st),
                str_or(e, "summary"@, "Evento crítico de sistema"@),
                None,
                None,
                Some(
                    if bsod {
                        "Verificar minidump, drivers e temperatura. Reiniciar após atualizar drivers."@
                    } else {
                        "Verificar energia, temperatura e Event Viewer (ID 41/6008)."@
                    },
                ),
                "event_logs"@,
                time_or(time, now),
            ),
        ]
    }
}

pub open spec fn app_errors_cand(data: Json, now: UtcTime) -> Seq<IncCand> {
    match data.get_spec("summary"@) {
        Some(s) => match get_u64(s, "application_errors_count"@) {
            Some(n) => if n >= 30 {
                seq![
                    (
                        "app_errors_high"@,
                        ymd(now) + "|count"@,
                        AlertSeverity::Warning,
                        "Muitos erros de aplicativos"@,
                        nat_digits(n as nat) + " erros de aplicativos nos últimos 14 dias"@,
                        Some(Decimal::spec_of_int(n as int)),
                        Some(Decimal::spec_of_int(30)),
                        Some("Abrir Event Viewer > Application; reinstalar apps com falha recorrente."@),
                        "event_logs"@,
                        now,
                    ),
                ]
            } else {
                Seq::empty()
            },
            None => Seq::empty(),
        },
        None => Seq::empty(),
    }
}

/// The message of a critical application event: the message, then the exception
/// code, the faulting module and a short detail (at most 120 bytes) where present.
pub open spec fn critical_message(e: Json) -> Seq<char> {
    let label = str_or(e, "app_label"@, "App crítico"@);
    let message = str_or(e, "message"@, label);
    let detail = str_or(e, "detail"@, ""@);
    let exc = str_or(e, "exception_code"@, ""@);
    let fault = str_or(e, "fault_module"@, ""@);
    message + (if exc.len() > 0 {
        " \u{5b}cod "@ + exc + "\u{5d}"@
    } else {
        Seq::empty()
    }) + (if fault.len() > 0 {
        " mod "@ + fault
    } else {
        Seq::empty()
    }) + (if detail.len() > 0 && utf8_len(detail) <= 120 {
        " — "@ + detail
    } else {
        Seq::empty()
    })
}

pub open spec fn critical_cand(e: Json, apps: Seq<FreezeV>, now: UtcTime) -> Seq<IncCand> {
    let category = str_or(e, "category"@, "known_app_crash"@);
    let label = str_or(e, "app_label"@, "App crítico"@);
    let eid = u64_or_zero(e, "event_id"@);
    let time = str_or(e, "time"@, ""@);
    let key = match get_str(e, "event_key"@) {
        Some(k) => k,
        None => time + "|"@ + nat_digits(eid as nat) + "|"@ + label,
    };
    let rec = match get_str(e, "remediation"@) {
        Some(r) => Some(r),
        None => match get_str(e, "app_id"@) {
            Some(id) => app_remediation(apps, id),
            None => None,
        },
    };
    seq![
        (
            category,
            key,
            AlertSeverity::Warning,
            incident_title_spec(category),
            critical_message(e),
            Some(Decimal::spec_of_int(eid as int)),
            None,
            rec,
            "event_logs"@,
            time_or(time, now),
        ),
    ]
}

pub open spec fn disk_event_cand(e: Json, now: UtcTime) -> Seq<IncCand> {
    let time = str_or(e, "time"@, ""@);
    let eid = u64_or_zero(e, "id"@);
    let summary = match get_str(e, "summary"@) {
        Some(s) => s,
        None => str_or(e, "message"@, "Erro de disco"@),
    };
    seq![
        (
            "disk_error"@,
            time + "|"@ + nat_digits(eid as nat),
            AlertSeverity::Critical,
            "Erro de disco/SSD"@,
            summary,
            Some(Decimal::spec_of_int(eid as int)),
            None,
            Some("Verificar SMART, cabos SATA/NVMe e backup imediato. Substituir disco se recorrente."@),
            "event_logs"@,
            time_or(time, now),
        ),
    ]
}

pub open spec fn whea_cand(e: Json, now: UtcTime) -> Seq<IncCand> {
    let time = str_or(e, "time"@, ""@);
    let eid = u64_or_zero(e, "id"@);
    seq![
        (
            "whea_hardware"@,
            "whea|"@ + time + "|"@ + nat_digits(eid as nat),
            AlertSeverity::Warning,
            "Hardware / temperatura (WHEA)"@,
            str_or(e, "summary"@, "Evento WHEA"@),
            Some(Decimal::spec_of_int(eid as int)),
            None,
            Some("Verificar ventilação, cooler, pasta térmica e memória RAM."@),
            "event_logs"@,
            time_or(time, now),
        ),
    ]
}

/// The first `n` elements (all of them when there are fewer, or no limit).
pub open spec fn first_n(s: Seq<Json>, limit: Option<usize>) -> Seq<Json> {
    match limit {
        Some(n) => if s.len() <= n {
            s
        } else {
            s.take(n as int)
        },
        None => s,
    }
}

pub open spec fn array_cands(data: Json, key: Seq<char>, limit: Option<usize>, f: spec_fn(Json) -> Seq<IncCand>) -> Seq<IncCand> {
    match get_array(data, key) {
        Some(es) => concat_map(first_n(es, limit), f),
        None => Seq::empty(),
    }
}

pub open spec fn event_cands(data: Json, apps: Seq<FreezeV>, now: UtcTime) -> Seq<IncCand> {
    array_cands(data, "bsod_events"@, None, |e: Json| bsod_cand(e, now)) + app_errors_cand(data, now)
        + array_cands(data, "critical_app_events"@, None, |e: Json| critical_cand(e, apps, now))
        + array_cands(data, "disk_events"@, Some(15), |e: Json| disk_event_cand(e, now))
        + array_cands(data, "whea_events"@, Some(10), |e: Json| whea_cand(e, now))
}

fn key_with_id(prefix: &str, time: &Vec<char>, eid: u64) -> (r: Vec<char>)
    ensures
        r@ == prefix@ + time@ + "|"@ + nat_digits(eid as nat),
{
    let mut k = chars(prefix);
    extend(&mut k, time);
    extend_str(&mut k, "|");
    let d = fmt_u64(eid);
    extend(&mut k, &d);
    k
}

fn bsod_part(b: &mut IncBuilder, e: &Json, now: UtcTime)
    requires
        old(b).wf(),
        chrono_instant(now.secs, now.nanos),
    ensures
        igrew(*old(b), *final(b), bsod_cand(*e, now)),
{
    let category = str_or_v(e, "category", "SYSTEM_CRITICAL");
    let cs = to_string(&category);
    if str_eq(cs.as_str(), "SHUTDOWN_INITIATED") {
        proof { lemma_igrew_none(*b); }
        return;
    }
    let st = if str_eq(cs.as_str(), "BSOD_BUGCHECK") {
        "bsod"
    } else if str_eq(cs.as_str(), "KERNEL_POWER_UNEXPECTED") || str_eq(cs.as_str(), "UNEXPECTED_SHUTDOWN") {
        "unexpected_shutdown"
    } else {
        "system_critical"
    };
    let time = str_or_v(e, "time", "");
    let ts = to_string(&time);
    let key = key_with_id("", &time, u64_or_zero_v(e, "id"));
    proof {
        reveal_strlit("");
        assert(""@ + time@ =~= time@);
    }
    let summary = str_or_v(e, "summary", "Evento crítico de sistema");
    let bsod = str_eq(st, "bsod");
    let (severity, rec) = if bsod {
        (AlertSeverity::Critical, "Verificar minidump, drivers e temperatura. Reiniciar após atualizar drivers.")
    } else {
        (AlertSeverity::Warning, "Verificar energia, temperatura e Event Viewer (ID 41/6008).")
    };
    let ks = to_string(&key);
    let ss = to_string(&summary);
    push_one(
        b,
        st,
        ks.as_str(),
        severity,
        incident_title(st),
        ss.as_str(),
        None,
        None,
        Some(rec.to_owned()),
        "event_logs",
        time_or_v(ts.as_str(), now),
    );
}

fn app_errors_part(b: &mut IncBuilder, data: &Json, now: UtcTime)
    requires
        old(b).wf(),
        chrono_instant(now.secs, now.nanos),
    ensures
        igrew(*old(b), *final(b), app_errors_cand(*data, now)),
{
    proof { lemma_igrew_none(*b); }
    let summary = match data.get("summary") {
        Some(s) => s,
        None => return,
    };
    let n = match json_u64(summary, "application_errors_count") {
        Some(n) => n,
        None => return,
    };
    if n < 30 {
        return;
    }
    let day = format_utc(now, "%Y-%m-%d");
    let mut key = chars(day.as_str());
    extend_str(&mut key, "|count");
    let mut m = fmt_u64(n);
    extend_str(&mut m, " erros de aplicativos nos últimos 14 dias");
    let ks = to_string(&key);
    let ms = to_string(&m);
    push_one(
        b,
        "app_errors_high",
        ks.as_str(),
        AlertSeverity::Warning,
        "Muitos erros de aplicativos",
        ms.as_str(),
        Some(Decimal::of_u64(n)),
        Some(Decimal::of_u64(30)),
        Some("Abrir Event Viewer > Application; reinstalar apps com falha recorrente.".to_owned()),
        "event_logs",
        now,
    );
}

fn critical_message_v(e: &Json) -> (r: Vec<char>)
    ensures
        r@ == critical_message(*e),
{
    let label = str_or_v(e, "app_label", "App crítico");
    let mut m = match json_str(e, "message") {
        Some(s) => chars(s),
        None => label,
    };
    let detail = str_or_v(e, "detail", "");
    let exc = str_or_v(e, "exception_code", "");
    let fault = str_or_v(e, "fault_module", "");
    proof {
        reveal_strlit("");
    }
    let ghost m0 = m@;
    if exc.len() > 0 {
        extend_str(&mut m, " \u{5b}cod ");
        extend(&mut m, &exc);
        extend_str(&mut m, "\u{5d}");
    }
    let ghost m1 = m@;
    if fault.len() > 0 {
        extend_str(&mut m, " mod ");
        extend(&mut m, &fault);
    }
    let ghost m2 = m@;
    if detail.len() > 0 && utf8_len_v(&detail) <= 120 {
        extend_str(&mut m, " — ");
        extend(&mut m, &detail);
    }
    assert(m@ =~= critical_message(*e));
    m
}

fn critical_part(b: &mut IncBuilder, e: &Json, apps: &[FreezeProneApp], now: UtcTime)
    requires
        old(b).wf(),
        chrono_instant(now.secs, now.nanos),
    ensures
        igrew(*old(b), *final(b), critical_cand(*e, freeze_views(apps@), now)),
{
    let category = str_or_v(e, "category", "known_app_crash");
    let cs = to_string(&category);
    let label = str_or_v(e, "app_label", "App crítico");
    let eid = u64_or_zero_v(e, "event_id");
    let time = str_or_v(e, "time", "");
    let ts = to_string(&time);
    let key = match json_str(e, "event_key") {
        Some(k) => chars(k),
        None => {
            let mut k = key_with_id("", &time, eid);
            proof {
                reveal_strlit("");
                assert(""@ + time@ =~= time@);
            }
            extend_str(&mut k, "|");
            extend(&mut k, &label);
            k
        },
    };
    let rec = match json_str(e, "remediation") {
        Some(r) => Some(r.to_owned()),
        None => match json_str(e, "app_id") {
            Some(id) => app_remediation_v(apps, id),
            None => None,
        },
    };
    let msg = critical_message_v(e);
    let ks = to_string(&key);
    let ms = to_string(&msg);
    push_one(
        b,
        cs.as_str(),
        ks.as_str(),
        AlertSeverity::Warning,
        incident_title(cs.as_str()),
        ms.as_str(),
        Some(Decimal::of_u64(eid)),
        None,
        rec,
        "event_logs",
        time_or_v(ts.as_str(), now),
    );
}

fn disk_event_part(b: &mut IncBuilder, e: &Json, now: UtcTime)
    requires
        old(b).wf(),
        chrono_instant(now.secs, now.nanos),
    ensures
        igrew(*old(b), *final(b), disk_event_cand(*e, now)),
{
    let time = str_or_v(e, "time", "");
    let ts = to_string(&time);
    let eid = u64_or_zero_v(e, "id");
    let summary = match json_str(e, "summary") {
        Some(s) => chars(s),
        None => str_or_v(e, "message", "Erro de disco"),
    };
    let key = key_with_id("", &time, eid);
    proof {
        reveal_strlit("");
        assert(""@ + time@ =~= time@);
    }
    let ks = to_string(&key);
    let ss = to_string(&summary);
    push_one(
        b,
        "disk_error",
        ks.as_str(),
        AlertSeverity::Critical,
        "Erro de disco/SSD",
        ss.as_str(),
        Some(Decimal::of_u64(eid)),
        None,
        Some("Verificar SMART, cabos SATA/NVMe e backup imediato. Substituir disco se recorrente.".to_owned()),
        "event_logs",
        time_or_v(ts.as_str(), now),
    );
}

fn whea_part(b: &mut IncBuilder, e: &Json, now: UtcTime)
    requires
        old(b).wf(),
        chrono_instant(now.secs, now.nanos),
    ensures
        igrew(*old(b), *final(b), whea_cand(*e, now)),
{
    let time = str_or_v(e, "time", "");
    let ts = to_string(&time);
    let eid = u64_or_zero_v(e, "id");
    let key = key_with_id("whea|", &time, eid);
    let summary = str_or_v(e, "summary", "Evento WHEA");
    let ks = to_string(&key);
    let ss = to_string(&summary);
    push_one(
        b,
        "whea_hardware",
        ks.as_str(),
        AlertSeverity::Warning,
        "Hardware / temperatura (WHEA)",
        ss.as_str(),
        Some(Decimal::of_u64(eid)),
        None,
        Some("Verificar ventilação, cooler, pasta térmica e memória RAM.".to_owned()),
        "event_logs",
        time_or_v(ts.as_str(), now),
    );
}

/// Which element rule a loop over an event array applies.
#[derive(Clone, Copy, PartialEq, Eq, Structural)]
enum EventKind {
    Bsod,
    Critical,
    Disk,
    Whea,
}

spec fn kind_fn(k: EventKind, apps: Seq<FreezeV>, now: UtcTime) -> spec_fn(Json) -> Seq<IncCand> {
    match k {
        EventKind::Bsod => |e: Json| bsod_cand(e, now),
        EventKind::Critical => |e: Json| critical_cand(e, apps, now),
        EventKind::Disk => |e: Json| disk_event_cand(e, now),
        EventKind::Whea => |e: Json| whea_cand(e, now),
    }
}

fn event_array_part(
    b: &mut IncBuilder,
    data: &Json,
    key: &str,
    limit: Option<usize>,
    kind: EventKind,
    apps: &[FreezeProneApp],
    now: UtcTime,
)
    requires
        old(b).wf(),
        chrono_instant(now.secs, now.nanos),
    ensures
        igrew(*old(b), *final(b), array_cands(*data, key@, limit, kind_fn(kind, freeze_views(apps@), now))),
{
    proof {
        lemma_igrew_none(*b);
    }
    let es = match json_array(data, key) {
        Some(a) => a,
        None => return,
    };
    let n = match limit {
        Some(l) => if es.len() <= l {
            es.len()
        } else {
            l
        },
        None => es.len(),
    };
    let ghost f = kind_fn(kind, freeze_views(apps@), now);
    let ghost fe = first_n(es@, limit);
    assert(fe =~= es@.take(n as int));
    let ghost b0 = *b;
    assert(fe.take(0) =~= Seq::<Json>::empty());
    let mut i: usize = 0;
    while i < n
        invariant
            i <= n,
            n <= es@.len(),
            fe == es@.take(n as int),
            chrono_instant(now.secs, now.nanos),
            f == kind_fn(kind, freeze_views(apps@), now),
            igrew(b0, *b, concat_map(fe.take(i as int), f)),
        decreases n - i,
    {
        assert(fe.take(i + 1).drop_last() =~= fe.take(i as int));
        assert(fe.take(i + 1).last() == es@[i as int]);
        let ghost before = *b;
        let e = &es[i];
        match kind {
            EventKind::Bsod => bsod_part(b, e, now),
            EventKind::Critical => critical_part(b, e, apps, now),
            EventKind::Disk => disk_event_part(b, e, now),
            EventKind::Whea => whea_part(b, e, now),
        }
        proof {
            lemma_igrew_trans(b0, before, *b, concat_map(fe.take(i as int), f), f(es@[i as int]));
        }
        i = i + 1;
    }
    assert(fe.take(n as int) =~= fe);
}

fn event_section(b: &mut IncBuilder, data: &Json, apps: &[FreezeProneApp], now: UtcTime)
    requires
        old(b).wf(),
        chrono_instant(now.secs, now.nanos),
    ensures
        igrew(*old(b), *final(b), event_cands(*data, freeze_views(apps@), now)),
{
    let ghost fv = freeze_views(apps@);
    let ghost b0 = *b;
    event_array_part(b, data, "bsod_events", None, EventKind::Bsod, apps, now);
    let ghost b1 = *b;
    app_errors_part(b, data, now);
    let ghost b2 = *b;
    event_array_part(b, data, "critical_app_events", None, EventKind::Critical, apps, now);
    let ghost b3 = *b;
    event_array_part(b, data, "disk_events", Some(15), EventKind::Disk, apps, now);
    let ghost b4 = *b;
    event_array_part(b, data, "whea_events", Some(10), EventKind::Whea, apps, now);
    proof {
        let p1 = array_cands(*data, "bsod_events"@, None, kind_fn(EventKind::Bsod, fv, now));
        let p2 = app_errors_cand(*data, now);
        let p3 = array_cands(*data, "critical_app_events"@, None, kind_fn(EventKind::Critical, fv, now));
        let p4 = array_cands(*data, "disk_events"@, Some(15), kind_fn(EventKind::Disk, fv, now));
        let p5 = array_cands(*data, "whea_events"@, Some(10), kind_fn(EventKind::Whea, fv, now));
        lemma_igrew_trans(b0, b1, b2, p1, p2);
        lemma_igrew_trans(b0, b2, b3, p1 + p2, p3);
        lemma_igrew_trans(b0, b3, b4, p1 + p2 + p3, p4);
        lemma_igrew_trans(b0, b4, *b, p1 + p2 + p3 + p4, p5);
        assert(kind_fn(EventKind::Bsod, fv, now) == (|e: Json| bsod_cand(e, now)));
        assert(kind_fn(EventKind::Critical, fv, now) == (|e: Json| critical_cand(e, fv, now)));
        assert(kind_fn(EventKind::Disk, fv, now) == (|e: Json| disk_event_cand(e, now)));
        assert(kind_fn(EventKind::Whea, fv, now) == (|e: Json| whea_cand(e, now)));
    }
}

// ---------------------------------------------------------------------------
// Disk temperature and health
// ---------------------------------------------------------------------------

pub open spec fn disk_temperature(d: Json) -> Option<Decimal> {
    match d.get_spec("reliability"@) {
        Some(r) => get_num(r, "temperature_celsius"@),
        None => None,
    }
}

/// `health_status`, else `status`, as text (empty where it is not a text).
pub open spec fn disk_health(d: Json) -> Seq<char> {
    let v = match d.get_spec("health_status"@) {
        Some(x) => Some(x),
        None => d.get_spec("status"@),
    };
    match v {
        Some(x) => match x.str_spec() {
            Some(s) => s,
            None => Seq::empty(),
        },
        None => Seq::empty(),
    }
}

pub open spec fn disk_health_cand(d: Json, now: UtcTime) -> Seq<IncCand> {
    let model = str_or(d, "model"@, "disco"@);
    let temp: Seq<IncCand> = match disk_temperature(d) {
        Some(t) => if !t.lt_milli(80000) {
            seq![
                (
                    "temp_high"@,
                    model + "|"@ + ymd(now),
                    if !t.lt_milli(90000) {
                        AlertSeverity::Critical
                    } else {
                        AlertSeverity::Warning
                    },
                    "Temperatura do disco elevada"@,
                    model + ": "@ + fmt_fixed(t, 0, false) + "°C"@,
                    Some(t),
                    Some(Decimal::spec_of_int(80)),
                    Some("Melhorar ventilação; verificar cooler e pasta térmica do SSD/HDD."@),
                    "hardware"@,
                    now,
                ),
            ]
        } else {
            Seq::empty()
        },
        None => Seq::empty(),
    };
    let health = disk_health(d);
    let smart: Seq<IncCand> = if eq_ignore_case(health, "Unhealthy"@) || eq_ignore_case(health, "Warning"@) {
        seq![
            (
                "smart_unhealthy"@,
                model,
                AlertSeverity::Critical,
                "Disco SMART com alerta"@,
                model + ": status "@ + health,
                None,
                None,
                Some("Backup imediato e substituição do disco planejada."@),
                "hardware"@,
                now,
            ),
        ]
    } else {
        Seq::empty()
    };
    temp + smart
}

pub open spec fn hardware_cands(data: Json, now: UtcTime) -> Seq<IncCand> {
    array_cands(data, "physical_disks"@, None, |d: Json| disk_health_cand(d, now))
}

fn disk_health_v(d: &Json) -> (r: Vec<char>)
    ensures
        r@ == disk_health(*d),
{
    let v = match d.get("health_status") {
        Some(x) => Some(x),
        None => d.get("status"),
    };
    match v {
        Some(x) => match x.as_str() {
            Some(s) => chars(s),
            None => Vec::new(),
        },
        None => Vec::new(),
    }
}

fn disk_health_part(b: &mut IncBuilder, d: &Json, now: UtcTime)
    requires
        old(b).wf(),
        chrono_instant(now.secs, now.nanos),
    ensures
        igrew(*old(b), *final(b), disk_health_cand(*d, now)),
{
    let model = str_or_v(d, "model", "disco");
    let ms = to_string(&model);
    let ghost b0 = *b;
    let temp = match d.get("reliability") {
        Some(r) => json_num(r, "temperature_celsius"),
        None => None,
    };
    let ghost p1: Seq<IncCand> = match disk_temperature(*d) {
        Some(t) => if !t.lt_milli(80000) {
            seq![
                (
                    "temp_high"@,
                    model@ + "|"@ + ymd(now),
                    if !t.lt_milli(90000) {
                        AlertSeverity::Critical
                    } else {
                        AlertSeverity::Warning
                    },
                    "Temperatura do disco elevada"@,
                    model@ + ": "@ + fmt_fixed(t, 0, false) + "°C"@,
                    Some(t),
                    Some(Decimal::spec_of_int(80)),
                    Some("Melhorar ventilação; verificar cooler e pasta térmica do SSD/HDD."@),
                    "hardware"@,
                    now,
                ),
            ]
        } else {
            Seq::empty()
        },
        None => Seq::empty(),
    };
    match temp {
        Some(t) => {
            if !t.is_lt_milli(80000) {
                let sev = if !t.is_lt_milli(90000) {
                    AlertSeverity::Critical
                } else {
                    AlertSeverity::Warning
                };
                let day = format_utc(now, "%Y-%m-%d");
                let mut key = model.clone();
                extend_str(&mut key, "|");
                extend_str(&mut key, day.as_str());
                let mut m = model.clone();
                extend_str(&mut m, ": ");
                let f = fmt_decimal(t, 0, false);
                extend(&mut m, &f);
                extend_str(&mut m, "°C");
                let ks = to_string(&key);
                let mt = to_string(&m);
                push_one(
                    b,
                    "temp_high",
                    ks.as_str(),
                    sev,
                    "Temperatura do disco elevada",
                    mt.as_str(),
                    Some(t),
                    Some(Decimal::of_u64(80)),
                    Some("Melhorar ventilação; verificar cooler e pasta térmica do SSD/HDD.".to_owned()),
                    "hardware",
                    now,
                );
            } else {
                proof { lemma_igrew_none(*b); }
            }
        },
        None => {
            proof { lemma_igrew_none(*b); }
        },
    }
    let ghost b1 = *b;
    let health = disk_health_v(d);
    let unhealthy = chars("Unhealthy");
    let warning = chars("Warning");
    let ghost p2: Seq<IncCand> = if eq_ignore_case(health@, "Unhealthy"@) || eq_ignore_case(health@, "Warning"@) {
        seq![
            (
                "smart_unhealthy"@,
                model@,
                AlertSeverity::Critical,
                "Disco SMART com alerta"@,
                model@ + ": status "@ + health@,
                None,
                None,
                Some("Backup imediato e substituição do disco planejada."@),
                "hardware"@,
                now,
            ),
        ]
    } else {
        Seq::empty()
    };
    if crate::text::eq_ignore_case_v(&health, &unhealthy) || crate::text::eq_ignore_case_v(&health, &warning) {
        let mut m = model.clone();
        extend_str(&mut m, ": status ");
        extend(&mut m, &health);
        let mt = to_string(&m);
        push_one(
            b,
            "smart_unhealthy",
            ms.as_str(),
            AlertSeverity::Critical,
            "Disco SMART com alerta",
            mt.as_str(),
            None,
            None,
            Some("Backup imediato e substituição do disco planejada.".to_owned()),
            "hardware",
            now,
        );
    } else {
        proof { lemma_igrew_none(*b); }
    }
    proof {
        lemma_igrew_trans(b0, b1, *b, p1, p2);
    }
}

fn hardware_section(b: &mut IncBuilder, data: &Json, now: UtcTime)
    requires
        old(b).wf(),
        chrono_instant(now.secs, now.nanos),
    ensures
        igrew(*old(b), *final(b), hardware_cands(*data, now)),
{
    proof {
        lemma_igrew_none(*b);
    }
    let ds = match json_array(data, "physical_disks") {
        Some(a) => a,
        None => return,
    };
    let ghost f = |d: Json| disk_health_cand(d, now);
    let ghost b0 = *b;
    assert(ds@.take(0) =~= Seq::<Json>::empty());
    let mut i: usize = 0;
    while i < ds.len()
        invariant
            i <= ds@.len(),
            chrono_instant(now.secs, now.nanos),
            f == (|d: Json| disk_health_cand(d, now)),
            igrew(b0, *b, concat_map(ds@.take(i as int), f)),
        decreases ds@.len() - i,
    {
        assert(ds@.take(i + 1).drop_last() =~= ds@.take(i as int));
        assert(ds@.take(i + 1).last() == ds@[i as int]);
        let ghost before = *b;
        disk_health_part(b, &ds[i], now);
        proof {
            lemma_igrew_trans(b0, before, *b, concat_map(ds@.take(i as int), f), f(ds@[i as int]));
        }
        i = i + 1;
    }
    assert(ds@.take(ds@.len() as int) =~= ds@);
    assert(first_n(ds@, None) == ds@);
}

// ---------------------------------------------------------------------------
// All incidents
// ---------------------------------------------------------------------------

/// Every incident raised from the collectors, in rule order, before de-duplication.
pub open spec fn incident_cands(
    cs: Seq<CollectorResult>,
    profile: CompanyProfile,
    apps: Seq<FreezeV>,
    now: UtcTime,
) -> Seq<IncCand> {
    (match find_collector(cs, "performance"@) {
        Some(p) => perf_cands(p.data, profile, apps, now),
        None => Seq::empty(),
    }) + (match find_collector(cs, "event_logs"@) {
        Some(e) => event_cands(e.data, apps, now),
        None => Seq::empty(),
    }) + (match find_collector(cs, "hardware"@) {
        Some(h) => hardware_cands(h.data, now),
        None => Seq::empty(),
    })
}

/// The incidents, one per stable id (the first raised), newest first; `now` stands for
/// the clock wherever an instant is missing or unreadable.
pub open spec fn incidents_spec(
    mid: Seq<char>,
    cs: Seq<CollectorResult>,
    profile: CompanyProfile,
    apps: Seq<FreezeV>,
    now: UtcTime,
) -> Seq<IncCand> {
    newest_first(inc_dedupe(incident_cands(cs, profile, apps, now), mid))
}

fn sort_newest_first(rs: Vec<IncidentRecord>, Ghost(cs): Ghost<Seq<IncCand>>, Ghost(mid): Ghost<Seq<char>>) -> (r: Vec<IncidentRecord>)
    requires
        incs_match(rs@, cs, mid),
    ensures
        incs_match(r@, newest_first(cs), mid),
{
    let mut out: Vec<IncidentRecord> = Vec::new();
    let mut rest = rs;
    let mut i: usize = 0;
    let n = rest.len();
    let ghost rv = rest@;
    while i < n
        invariant
            n == rv.len(),
            i <= n,
            incs_match(rv, cs, mid),
            rest@ == rv.skip(i as int),
            incs_match(out@, newest_first(cs.take(i as int)), mid),
        decreases n - i,
    {
        let x = rest.remove(0);
        assert(rv.skip(i as int)[0] == rv[i as int]);
        assert(rv.skip(i as int).drop_first() =~= rv.skip(i + 1));
        assert(cs.take(i + 1).drop_last() =~= cs.take(i as int));
        assert(cs.take(i + 1).last() == cs[i as int]);
        let ghost c = cs[i as int];
        let ghost cur = newest_first(cs.take(i as int));
        assert(inc_matches(x, c, mid));
        let mut j: usize = out.len();
        while j > 0 && x.observed_at.is_later(&out[j - 1].observed_at)
            invariant
                j <= out@.len(),
                incs_match(out@, cur, mid),
                inc_matches(x, c, mid),
                forall|k: int| j <= k < out@.len() ==> newer(c, #[trigger] cur[k]),
            decreases j,
        {
            assert(inc_matches(out@[j - 1], cur[j - 1], mid));
            j = j - 1;
        }
        proof {
            if j > 0 {
                assert(inc_matches(out@[j - 1], cur[j - 1], mid));
            }
            lemma_insert_at(cur, c, j as int);
        }
        let ghost prev = out@;
        out.insert(j, x);
        assert forall|k: int| 0 <= k < out@.len() implies inc_matches(#[trigger] out@[k], cur.insert(j as int, c)[k], mid) by {
            if k < j {
                assert(out@[k] == prev[k]);
            } else if k > j {
                assert(out@[k] == prev[k - 1]);
            }
        }
        i = i + 1;
    }
    assert(cs.take(n as int) =~= cs);
    out
}

/// The incidents of a machine from its latest collector results, with `now` as the
/// instant of anything whose time is missing or unreadable.
pub fn detect_incidents_at(
    machine_id: &str,
    collectors: &[CollectorResult],
    profile: &CompanyProfile,
    freeze_apps: &[FreezeProneApp],
    now: UtcTime,
) -> (r: Vec<IncidentRecord>)
    requires
        chrono_instant(now.secs, now.nanos),
    ensures
        incs_match(r@, incidents_spec(machine_id@, collectors@, *profile, freeze_views(freeze_apps@), now), machine_id@),
{
    let mut b = IncBuilder::new(machine_id);
    let ghost fv = freeze_views(freeze_apps@);
    let ghost b0 = b;
    let ghost p1 = match find_collector(collectors@, "performance"@) {
        Some(p) => perf_cands(p.data, *profile, fv, now),
        None => Seq::empty(),
    };
    let ghost p2 = match find_collector(collectors@, "event_logs"@) {
        Some(e) => event_cands(e.data, fv, now),
        None => Seq::empty(),
    };
    let ghost p3 = match find_collector(collectors@, "hardware"@) {
        Some(h) => hardware_cands(h.data, now),
        None => Seq::empty(),
    };
    match find_collector_exec(collectors, "performance") {
        Some(p) => perf_section(&mut b, &p.data, profile, freeze_apps, now),
        None => {
            proof { lemma_igrew_none(b); }
        },
    }
    let ghost b1 = b;
    match find_collector_exec(collectors, "event_logs") {
        Some(e) => event_section(&mut b, &e.data, freeze_apps, now),
        None => {
            proof { lemma_igrew_none(b); }
        },
    }
    let ghost b2 = b;
    match find_collector_exec(collectors, "hardware") {
        Some(h) => hardware_section(&mut b, &h.data, now),
        None => {
            proof { lemma_igrew_none(b); }
        },
    }
    proof {
        lemma_igrew_trans(b0, b1, b2, p1, p2);
        lemma_igrew_trans(b0, b2, b, p1 + p2, p3);
        assert(b.cands@ =~= incident_cands(collectors@, *profile, fv, now));
    }
    let ghost d = inc_dedupe(b.cands@, b.machine_id@);
    let out = b.out;
    sort_newest_first(out, Ghost(d), Ghost(machine_id@))
}

/// The incidents of a machine from its latest collector results; what has no
/// readable time is taken as observed now.
pub fn detect_incidents(
    machine_id: &str,
    collectors: &[CollectorResult],
    profile: &CompanyProfile,
    freeze_apps: &[FreezeProneApp],
) -> (r: Vec<IncidentRecord>)
    ensures
        exists|now: UtcTime|
            chrono_instant(now.secs, now.nanos) && incs_match(
                r@,
                incidents_spec(machine_id@, collectors@, *profile, freeze_views(freeze_apps@), now),
                machine_id@,
            ),
{
    let now = utc_now();
    detect_incidents_at(machine_id, collectors, profile, freeze_apps, now)
}

/// No two incidents reported for a machine share an id: of the incidents found with
/// one id, only the first is kept.
pub proof fn law_incident_ids_unique(cs: Seq<IncCand>, mid: Seq<char>)
    ensures
        forall|i: int, j: int|
            0 <= i < j < inc_dedupe(cs, mid).len() ==> cand_id(#[trigger] inc_dedupe(cs, mid)[i], mid) != cand_id(
                #[trigger] inc_dedupe(cs, mid)[j],
                mid,
            ),
    decreases cs.len(),
{
    if cs.len() > 0 {
        law_incident_ids_unique(cs.drop_last(), mid);
        let d = inc_dedupe(cs.drop_last(), mid);
        if !has_id(d, mid, cand_id(cs.last(), mid)) {
            let e = d.push(cs.last());
            assert forall|i: int, j: int| 0 <= i < j < e.len() implies cand_id(#[trigger] e[i], mid) != cand_id(#[trigger] e[j], mid) by {
                if j == e.len() - 1 {
                    assert(e[i] == d[i]);
                    if cand_id(d[i], mid) == cand_id(cs.last(), mid) {
                        assert(has_id(d, mid, cand_id(cs.last(), mid)));
                    }
                } else {
                    assert(e[i] == d[i] && e[j] == d[j]);
                }
            }
        }
    }
}

/// The incident records of a detection carry distinct ids.
pub proof fn law_detected_incident_ids_unique(rs: Seq<IncidentRecord>, cs: Seq<IncCand>, mid: Seq<char>)
    requires
        incs_match(rs, inc_dedupe(cs, mid), mid),
    ensures
        forall|i: int, j: int| 0 <= i < j < rs.len() ==> (#[trigger] rs[i]).id@ != (#[trigger] rs[j]).id@,
{
    law_incident_ids_unique(cs, mid);
    assert forall|i: int, j: int| 0 <= i < j < rs.len() implies (#[trigger] rs[i]).id@ != (#[trigger] rs[j]).id@ by {
        assert(inc_matches(rs[i], inc_dedupe(cs, mid)[i], mid));
        assert(inc_matches(rs[j], inc_dedupe(cs, mid)[j], mid));
    }
}

/// Newest first: no incident was observed later than one before it.
pub open spec fn newest_first_sorted(s: Seq<IncCand>) -> bool {
    forall|i: int, j: int| 0 <= i < j < s.len() ==> !newer(#[trigger] s[j], #[trigger] s[i])
}

/// No two incidents share a stable id.
pub open spec fn ids_distinct(s: Seq<IncCand>, mid: Seq<char>) -> bool {
    forall|i: int, j: int| 0 <= i < j < s.len() ==> cand_id(#[trigger] s[i], mid) != cand_id(#[trigger] s[j], mid)
}

proof fn lemma_insert_members(s: Seq<IncCand>, x: IncCand)
    ensures
        insert_newest_first(s, x).len() == s.len() + 1,
        forall|k: int| 0 <= k < s.len() + 1 ==> #[trigger] insert_newest_first(s, x)[k] == x || s.contains(insert_newest_first(s, x)[k]),
    decreases s.len(),
{
    let r = insert_newest_first(s, x);
    if s.len() > 0 {
        let t = s.drop_last();
        if newer(x, s.last()) {
            lemma_insert_members(t, x);
            assert forall|k: int| 0 <= k < s.len() + 1 implies #[trigger] r[k] == x || s.contains(r[k]) by {
                if k == s.len() {
                    assert(r[k] == s[s.len() - 1]);
                } else {
                    let u = insert_newest_first(t, x);
                    assert(r[k] == u[k]);
                    if u[k] != x {
                        let j = choose|j: int| 0 <= j < t.len() && t[j] == u[k];
                        assert(s[j] == t[j]);
                    }
                }
            }
        } else {
            assert forall|k: int| 0 <= k < s.len() + 1 implies #[trigger] r[k] == x || s.contains(r[k]) by {
                if k < s.len() {
                    assert(r[k] == s[k]);
                }
            }
        }
    }
}

proof fn lemma_newest_first_members(s: Seq<IncCand>)
    ensures
        newest_first(s).len() == s.len(),
        forall|k: int| 0 <= k < s.len() ==> s.contains(#[trigger] newest_first(s)[k]),
    decreases s.len(),
{
    if s.len() > 0 {
        let t = s.drop_last();
        lemma_newest_first_members(t);
        let u = newest_first(t);
        lemma_insert_members(u, s.last());
        assert forall|k: int| 0 <= k < s.len() implies s.contains(#[trigger] newest_first(s)[k]) by {
            let r = newest_first(s);
            if r[k] != s.last() {
                let j = choose|j: int| 0 <= j < u.len() && u[j] == r[k];
                let i = choose|i: int| 0 <= i < t.len() && t[i] == u[j];
                assert(s[i] == t[i]);
            } else {
                assert(s[s.len() - 1] == s.last());
            }
        }
    }
}

proof fn lemma_insert_sorted(s: Seq<IncCand>, x: IncCand)
    requires
        newest_first_sorted(s),
    ensures
        newest_first_sorted(insert_newest_first(s, x)),
    decreases s.len(),
{
    let r = insert_newest_first(s, x);
    if s.len() == 0 {
    } else {
        let t = s.drop_last();
        let l = s.last();
        assert forall|i: int, j: int| 0 <= i < j < t.len() implies !newer(#[trigger] t[j], #[trigger] t[i]) by {
            assert(t[i] == s[i] && t[j] == s[j]);
        }
        if newer(x, l) {
            lemma_insert_sorted(t, x);
            lemma_insert_members(t, x);
            let u = insert_newest_first(t, x);
            assert forall|i: int, j: int| 0 <= i < j < r.len() implies !newer(#[trigger] r[j], #[trigger] r[i]) by {
                if j == r.len() - 1 {
                    assert(r[j] == l);
                    assert(r[i] == u[i]);
                    if u[i] != x {
                        let k = choose|k: int| 0 <= k < t.len() && t[k] == u[i];
                        assert(s[k] == t[k]);
                        assert(!newer(s[s.len() - 1], s[k]));
                    }
                } else {
                    assert(r[i] == u[i] && r[j] == u[j]);
                }
            }
        } else {
            assert forall|i: int, j: int| 0 <= i < j < r.len() implies !newer(#[trigger] r[j], #[trigger] r[i]) by {
                if j == s.len() {
                    assert(r[i] == s[i]);
                    if i < s.len() - 1 {
                        assert(!newer(s[s.len() - 1], s[i]));
                    }
                } else {
                    assert(r[i] == s[i] && r[j] == s[j]);
                }
            }
        }
    }
}

proof fn lemma_newest_first_sorted(s: Seq<IncCand>)
    ensures
        newest_first_sorted(newest_first(s)),
    decreases s.len(),
{
    if s.len() > 0 {
        lemma_newest_first_sorted(s.drop_last());
        lemma_insert_sorted(newest_first(s.drop_last()), s.last());
    }
}

proof fn lemma_newest_first_distinct(s: Seq<IncCand>, mid: Seq<char>)
    requires
        ids_distinct(s, mid),
    ensures
        ids_distinct(newest_first(s), mid),
    decreases s.len(),
{
    if s.len() > 0 {
        let t = s.drop_last();
        let l = s.last();
        assert forall|i: int, j: int| 0 <= i < j < t.len() implies cand_id(#[trigger] t[i], mid) != cand_id(#[trigger] t[j], mid) by {
            assert(t[i] == s[i] && t[j] == s[j]);
        }
        lemma_newest_first_distinct(t, mid);
        lemma_newest_first_members(t);
        let u = newest_first(t);
        lemma_insert_members(u, l);
        let r = insert_newest_first(u, l);
        assert forall|k: int| 0 <= k < u.len() implies cand_id(#[trigger] u[k], mid) != cand_id(l, mid) by {
            let i = choose|i: int| 0 <= i < t.len() && t[i] == u[k];
            assert(s[i] == t[i]);
            assert(s[s.len() - 1] == l);
        }
        lemma_insert_distinct(u, l, mid);
    }
}

proof fn lemma_insert_distinct(s: Seq<IncCand>, x: IncCand, mid: Seq<char>)
    requires
        ids_distinct(s, mid),
        forall|k: int| 0 <= k < s.len() ==> cand_id(#[trigger] s[k], mid) != cand_id(x, mid),
    ensures
        ids_distinct(insert_newest_first(s, x), mid),
    decreases s.len(),
{
    let r = insert_newest_first(s, x);
    if s.len() > 0 {
        let t = s.drop_last();
        let l = s.last();
        assert forall|i: int, j: int| 0 <= i < j < t.len() implies cand_id(#[trigger] t[i], mid) != cand_id(#[trigger] t[j], mid) by {
            assert(t[i] == s[i] && t[j] == s[j]);
        }
        assert forall|k: int| 0 <= k < t.len() implies cand_id(#[trigger] t[k], mid) != cand_id(x, mid) by {
            assert(t[k] == s[k]);
        }
        if newer(x, l) {
            lemma_insert_distinct(t, x, mid);
            lemma_insert_members(t, x);
            let u = insert_newest_first(t, x);
            assert(s[s.len() - 1] == l);
            assert forall|i: int, j: int| 0 <= i < j < r.len() implies cand_id(#[trigger] r[i], mid) != cand_id(#[trigger] r[j], mid) by {
                if j == r.len() - 1 {
                    assert(r[j] == l);
                    assert(r[i] == u[i]);
                    if u[i] != x {
                        let k = choose|k: int| 0 <= k < t.len() && t[k] == u[i];
                        assert(s[k] == t[k]);
                    }
                } else {
                    assert(r[i] == u[i] && r[j] == u[j]);
                }
            }
        } else {
            assert forall|i: int, j: int| 0 <= i < j < r.len() implies cand_id(#[trigger] r[i], mid) != cand_id(#[trigger] r[j], mid) by {
                if j == s.len() {
                    assert(r[i] == s[i]);
                } else {
                    assert(r[i] == s[i] && r[j] == s[j]);
                }
            }
        }
    }
}

/// A detection reports each incident once (distinct ids), newest first, all for the
/// machine asked about, each seen once: first and last sighting are the observation.
pub proof fn law_detected_incidents_newest_first_unique(
    rs: Seq<IncidentRecord>,
    mid: Seq<char>,
    cs: Seq<CollectorResult>,
    profile: CompanyProfile,
    apps: Seq<FreezeV>,
    now: UtcTime,
)
    requires
        incs_match(rs, incidents_spec(mid, cs, profile, apps, now), mid),
    ensures
        forall|i: int, j: int| 0 <= i < j < rs.len() ==> (#[trigger] rs[i]).id@ != (#[trigger] rs[j]).id@,
        forall|i: int, j: int| 0 <= i < j < rs.len() ==> !(#[trigger] rs[j]).observed_at.later((#[trigger] rs[i]).observed_at),
        forall|i: int| 0 <= i < rs.len() ==> {
            &&& (#[trigger] rs[i]).machine_id@ == mid
            &&& rs[i].first_seen == rs[i].observed_at
            &&& rs[i].last_seen == rs[i].observed_at
            &&& rs[i].occurrence_count == 1
        },
{
    let d = inc_dedupe(incident_cands(cs, profile, apps, now), mid);
    law_incident_ids_unique(incident_cands(cs, profile, apps, now), mid);
    lemma_newest_first_distinct(d, mid);
    lemma_newest_first_sorted(d);
    let n = newest_first(d);
    assert forall|i: int, j: int| 0 <= i < j < rs.len() implies (#[trigger] rs[i]).id@ != (#[trigger] rs[j]).id@ by {
        assert(inc_matches(rs[i], n[i], mid));
        assert(inc_matches(rs[j], n[j], mid));
    }
    assert forall|i: int, j: int| 0 <= i < j < rs.len() implies !(#[trigger] rs[j]).observed_at.later((#[trigger] rs[i]).observed_at) by {
        assert(inc_matches(rs[i], n[i], mid));
        assert(inc_matches(rs[j], n[j], mid));
    }
    assert forall|i: int| 0 <= i < rs.len() implies {
        &&& (#[trigger] rs[i]).machine_id@ == mid
        &&& rs[i].first_seen == rs[i].observed_at
        &&& rs[i].last_seen == rs[i].observed_at
        &&& rs[i].occurrence_count == 1
    } by {
        assert(inc_matches(rs[i], n[i], mid));
    }
}

proof fn lemma_concat_map_contains(s: Seq<Json>, f: spec_fn(Json) -> Seq<IncCand>, i: int, c: IncCand)
    requires
        0 <= i < s.len(),
        f(s[i]).contains(c),
    ensures
        concat_map(s, f).contains(c),
    decreases s.len(),
{
    let t = s.drop_last();
    let a = concat_map(t, f);
    let b = f(s.last());
    if i == s.len() - 1 {
        let k = choose|k: int| 0 <= k < b.len() && b[k] == c;
        assert((a + b)[a.len() + k] == c);
    } else {
        assert(t[i] == s[i]);
        lemma_concat_map_contains(t, f, i, c);
        let k = choose|k: int| 0 <= k < a.len() && a[k] == c;
        assert((a + b)[k] == c);
    }
}

/// The health text a disk reports: `health_status`, or `status` where that is absent.
pub open spec fn reports_health(d: Json, health: Seq<char>) -> bool {
    match d.get_spec("health_status"@) {
        Some(x) => x.str_spec() == Some(health),
        None => d.get_spec("status"@) matches Some(x) && x.str_spec() == Some(health),
    }
}

/// The SMART incident a disk with a bad health status raises.
pub open spec fn smart_incident(model: Seq<char>, health: Seq<char>, now: UtcTime) -> IncCand {
    (
        "smart_unhealthy"@,
        model,
        AlertSeverity::Critical,
        "Disco SMART com alerta"@,
        model + ": status "@ + health,
        None,
        None,
        Some("Backup imediato e substituição do disco planejada."@),
        "hardware"@,
        now,
    )
}

/// A physical disk whose health status is `Unhealthy` or `Warning` (ASCII case aside)
/// raises a critical SMART incident keyed by its model (`disco` where it has none),
/// whatever the other disks and its temperature report.
pub proof fn law_bad_disk_health_raises_smart_incident(data: Json, now: UtcTime, disks: Seq<Json>, i: int, health: Seq<char>)
    requires
        get_array(data, "physical_disks"@) == Some(disks),
        0 <= i < disks.len(),
        reports_health(disks[i], health),
        eq_ignore_case(health, "Unhealthy"@) || eq_ignore_case(health, "Warning"@),
    ensures
        hardware_cands(data, now).contains(smart_incident(str_or(disks[i], "model"@, "disco"@), health, now)),
{
    let c = smart_incident(str_or(disks[i], "model"@, "disco"@), health, now);
    let d = disks[i];
    assert(disk_health(d) == health);
    let f = |x: Json| disk_health_cand(x, now);
    let dc = disk_health_cand(d, now);
    assert(dc[dc.len() - 1] == c);
    assert(dc.contains(c));
    assert(f(d) == dc);
    assert(first_n(disks, None) == disks);
    lemma_concat_map_contains(disks, f, i, c);
}

proof fn lemma_dedupe_has_id(cs: Seq<IncCand>, mid: Seq<char>, k: int)
    requires
        0 <= k < cs.len(),
    ensures
        has_id(inc_dedupe(cs, mid), mid, cand_id(cs[k], mid)),
    decreases cs.len(),
{
    let p = cs.drop_last();
    let d = inc_dedupe(p, mid);
    if k == cs.len() - 1 {
        if !has_id(d, mid, cand_id(cs.last(), mid)) {
            assert(inc_dedupe(cs, mid)[d.len() as int] == cs.last());
        }
    } else {
        assert(p[k] == cs[k]);
        lemma_dedupe_has_id(p, mid, k);
        let w = choose|w: int| 0 <= w < d.len() && cand_id(#[trigger] d[w], mid) == cand_id(cs[k], mid);
        assert(inc_dedupe(cs, mid)[w] == d[w]);
    }
}

proof fn lemma_insert_contains(s: Seq<IncCand>, x: IncCand)
    ensures
        insert_newest_first(s, x).contains(x),
        forall|k: int| 0 <= k < s.len() ==> insert_newest_first(s, x).contains(#[trigger] s[k]),
    decreases s.len(),
{
    let r = insert_newest_first(s, x);
    if s.len() == 0 {
        assert(r[0] == x);
    } else if newer(x, s.last()) {
        let t = s.drop_last();
        lemma_insert_contains(t, x);
        let u = insert_newest_first(t, x);
        let j = choose|j: int| 0 <= j < u.len() && u[j] == x;
        assert(r[j] == u[j]);
        assert forall|k: int| 0 <= k < s.len() implies r.contains(#[trigger] s[k]) by {
            if k == s.len() - 1 {
                assert(r[u.len() as int] == s[k]);
            } else {
                assert(t[k] == s[k]);
                let m = choose|m: int| 0 <= m < u.len() && u[m] == t[k];
                assert(r[m] == u[m]);
            }
        }
    } else {
        assert(r[s.len() as int] == x);
        assert forall|k: int| 0 <= k < s.len() implies r.contains(#[trigger] s[k]) by {
            assert(r[k] == s[k]);
        }
    }
}

proof fn lemma_newest_first_contains(s: Seq<IncCand>)
    ensures
        forall|k: int| 0 <= k < s.len() ==> newest_first(s).contains(#[trigger] s[k]),
    decreases s.len(),
{
    if s.len() > 0 {
        let t = s.drop_last();
        lemma_newest_first_contains(t);
        let u = newest_first(t);
        lemma_insert_contains(u, s.last());
        assert forall|k: int| 0 <= k < s.len() implies newest_first(s).contains(#[trigger] s[k]) by {
            if k < t.len() {
                assert(t[k] == s[k]);
                let m = choose|m: int| 0 <= m < u.len() && u[m] == t[k];
                assert(insert_newest_first(u, s.last()).contains(u[m]));
            }
        }
    }
}

/// A detection reports a physical disk whose health status is `Unhealthy` or
/// `Warning` (ASCII case aside): among the incidents is one with the stable id of the
/// SMART category and the disk's model.
pub proof fn law_bad_disk_health_is_reported(
    rs: Seq<IncidentRecord>,
    mid: Seq<char>,
    cs: Seq<CollectorResult>,
    profile: CompanyProfile,
    apps: Seq<FreezeV>,
    now: UtcTime,
    hw: CollectorResult,
    disks: Seq<Json>,
    i: int,
    health: Seq<char>,
)
    requires
        incs_match(rs, incidents_spec(mid, cs, profile, apps, now), mid),
        find_collector(cs, "hardware"@) == Some(hw),
        get_array(hw.data, "physical_disks"@) == Some(disks),
        0 <= i < disks.len(),
        reports_health(disks[i], health),
        eq_ignore_case(health, "Unhealthy"@) || eq_ignore_case(health, "Warning"@),
    ensures
        exists|j: int|
            0 <= j < rs.len() && (#[trigger] rs[j]).id@ == incident_id_spec(
                mid,
                "smart_unhealthy"@,
                str_or(disks[i], "model"@, "disco"@),
            ),
{
    law_bad_disk_health_raises_smart_incident(hw.data, now, disks, i, health);
    let c = smart_incident(str_or(disks[i], "model"@, "disco"@), health, now);
    let p1 = match find_collector(cs, "performance"@) {
        Some(p) => perf_cands(p.data, profile, apps, now),
        None => Seq::empty(),
    };
    let p2 = match find_collector(cs, "event_logs"@) {
        Some(e) => event_cands(e.data, apps, now),
        None => Seq::empty(),
    };
    let h = hardware_cands(hw.data, now);
    let all = incident_cands(cs, profile, apps, now);
    assert(all == p1 + p2 + h);
    let m = choose|m: int| 0 <= m < h.len() && h[m] == c;
    assert(all[p1.len() + p2.len() + m] == c);
    lemma_dedupe_has_id(all, mid, p1.len() + p2.len() + m);
    let d = inc_dedupe(all, mid);
    let w = choose|w: int| 0 <= w < d.len() && cand_id(#[trigger] d[w], mid) == cand_id(c, mid);
    lemma_newest_first_contains(d);
    let n = newest_first(d);
    let j = choose|j: int| 0 <= j < n.len() && n[j] == d[w];
    lemma_newest_first_members(d);
    assert(inc_matches(rs[j], n[j], mid));
}

// ---------------------------------------------------------------------------
// Keeping the history of an incident
// ---------------------------------------------------------------------------

/// What storing a detected incident leaves: a new incident as detected; one already
/// stored under the same id keeps its machine, category, title, source and first
/// sighting, takes the new severity, message, metric, threshold, recommendation and
/// last sighting, and counts one more occurrence.
pub open spec fn merged_incident_ok(stored: Option<IncidentRecord>, inc: IncidentRecord, r: IncidentRecord) -> bool {
    match stored {
        None => r == inc,
        Some(old) => {
            &&& r.id == old.id && r.machine_id == old.machine_id && r.category == old.category
            &&& r.title == old.title && r.source_collector == old.source_collector
            &&& r.observed_at == old.observed_at && r.first_seen == old.first_seen
            &&& r.severity == inc.severity && r.message == inc.message && r.metric_value == inc.metric_value
            &&& r.threshold == inc.threshold && r.recommendation == inc.recommendation
            &&& r.last_seen == inc.last_seen
            &&& r.occurrence_count == old.occurrence_count + 1
        },
    }
}

pub fn merge_incident(stored: Option<IncidentRecord>, inc: IncidentRecord) -> (r: IncidentRecord)
    requires
        stored matches Some(old) ==> old.occurrence_count < u32::MAX,
    ensures
        merged_incident_ok(stored, inc, r),
{
    match stored {
        None => inc,
        Some(old) => IncidentRecord {
            id: old.id,
            machine_id: old.machine_id,
            category: old.category,
            severity: inc.severity,
            title: old.title,
            message: inc.message,
            metric_value: inc.metric_value,
            threshold: inc.threshold,
            recommendation: inc.recommendation,
            source_collector: old.source_collector,
            observed_at: old.observed_at,
            first_seen: old.first_seen,
            last_seen: inc.last_seen,
            occurrence_count: old.occurrence_count + 1,
        },
    }
}

/// An incident's history is kept: detected again, it counts one more occurrence,
/// keeps its id and its first sighting, and takes the last sighting of the new
/// detection, whatever that detection brings.
pub proof fn law_incident_history_kept(
    first: IncidentRecord,
    stored: IncidentRecord,
    again: IncidentRecord,
    restored: IncidentRecord,
)
    requires
        merged_incident_ok(None, first, stored),
        merged_incident_ok(Some(stored), again, restored),
    ensures
        restored.id == first.id,
        restored.first_seen == first.first_seen,
        restored.occurrence_count == first.occurrence_count + 1,
        restored.last_seen == again.last_seen,
{
}

} // verus!
