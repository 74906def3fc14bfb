//! Corporate compliance score: seven categories with fixed weights, each read from
//! one collector, with the notes that explain every deduction.

use vstd::prelude::*;
use crate::json::{
    get_array, get_bool, get_num, get_str, json_array, json_bool, json_num, json_str, Decimal,
    Json,
};
use crate::models::{find_collector, find_collector_exec, CollectorResult, MachineSummary};
use crate::certs::{
    array_or_empty, cert_keys, classify_spec, lemma_fold_without_corporate, CertClass, best_days_spec, certs_sliceable, corporate_entities_best_days, ents_view,
};
use crate::num::{fmt_decimal, fmt_fixed, pct_of, sat_add, sat_pct, sat_sub};
use crate::text::{
    join, join_v, vviews, chars, eq_ignore_case, eq_ignore_case_v, extend, extend_str, fmt_u64, nat_digits, parse_u32,
    parse_u32_v, to_string,
};

verus! {

pub const WEIGHT_SMART_DISK: u8 = 30;
pub const WEIGHT_SECURITY: u8 = 25;
pub const WEIGHT_WINDOWS_UPDATE: u8 = 15;
pub const WEIGHT_CRITICAL_EVENTS: u8 = 10;
pub const WEIGHT_DISK_FREE: u8 = 10;
pub const WEIGHT_TEMPERATURE: u8 = 5;
pub const WEIGHT_CERTIFICATES: u8 = 5;

/// The texts of a list of strings.
pub open spec fn views(v: Seq<String>) -> Seq<Seq<char>> {
    v.map_values(|s: String| s@)
}

pub fn push_note(notes: &mut Vec<String>, s: String)
    ensures
        views(final(notes)@) == views(old(notes)@).push(s@),
{
    notes.push(s);
    assert(views(notes@) =~= views(old(notes)@).push(s@));
}

pub fn push_lit(notes: &mut Vec<String>, s: &str)
    ensures
        views(final(notes)@) == views(old(notes)@).push(s@),
{
    push_note(notes, s.to_owned());
}

pub open spec fn opt(c: Option<&CollectorResult>) -> Option<CollectorResult> {
    match c {
        Some(x) => Some(*x),
        None => None,
    }
}

/// `v.get(outer).and_then(|e| e.get(inner)).and_then(as_bool).unwrap_or(false)`.
pub open spec fn nested_flag(v: Json, outer: Seq<char>, inner: Seq<char>) -> bool {
    match v.get_spec(outer) {
        Some(e) => get_bool(e, inner) == Some(true),
        None => false,
    }
}

fn nested_flag_v(v: &Json, outer: &str, inner: &str) -> (r: bool)
    ensures
        r == nested_flag(*v, outer@, inner@),
{
    match v.get(outer) {
        Some(e) => match json_bool(e, inner) {
            Some(b) => b,
            None => false,
        },
        None => false,
    }
}

/// A count read as compliance does: `as_u64`, else a negative integer counts as 0.
pub open spec fn count_of(v: Json) -> Option<u64> {
    match v {
        Json::UInt(n) => Some(n),
        Json::NegInt(_) => Some(0),
        _ => None,
    }
}

pub open spec fn get_count(v: Json, key: Seq<char>) -> u64 {
    match v.get_spec(key) {
        Some(x) => match count_of(x) {
            Some(n) => n,
            None => 0,
        },
        None => 0,
    }
}

fn get_count_v(v: &Json, key: &str) -> (r: u64)
    ensures
        r == get_count(*v, key@),
{
    match v.get(key) {
        Some(x) => match x {
            Json::UInt(n) => *n,
            Json::NegInt(_) => 0,
            _ => 0,
        },
        None => 0,
    }
}

// ---------------------------------------------------------------------------
// Band
// ---------------------------------------------------------------------------

pub open spec fn band_spec(total: u8) -> Seq<char> {
    if 90 <= total && total <= 100 {
        "Excelente"@
    } else if 75 <= total && total <= 89 {
        "Bom"@
    } else if 50 <= total && total <= 74 {
        "Atenção"@
    } else if 25 <= total && total <= 49 {
        "Problema"@
    } else {
        "Crítico"@
    }
}

/// The band name of a total score.
pub fn score_band(total: u8) -> (r: &'static str)
    ensures
        r@ == band_spec(total),
{
    if 90 <= total && total <= 100 {
        "Excelente"
    } else if 75 <= total && total <= 89 {
        "Bom"
    } else if 50 <= total && total <= 74 {
        "Atenção"
    } else if 25 <= total && total <= 49 {
        "Problema"
    } else {
        "Crítico"
    }
}

/// The band name of a total score, as the diagnosis prompt shows it.
pub fn band_label(total: u8) -> (r: &'static str)
    ensures
        r@ == band_spec(total),
{
    score_band(total)
}

// ---------------------------------------------------------------------------
// SMART
// ---------------------------------------------------------------------------

pub open spec fn health_of(pd: Json) -> Seq<char> {
    match get_str(pd, "health_status"@) {
        Some(h) => h,
        None => Seq::empty(),
    }
}

pub open spec fn is_unhealthy(pd: Json) -> bool {
    eq_ignore_case(health_of(pd), "Unhealthy"@)
}

pub open spec fn is_warning(pd: Json) -> bool {
    !is_unhealthy(pd) && eq_ignore_case(health_of(pd), "Warning"@)
}

pub open spec fn smart_disk_spec(hw: Option<CollectorResult>) -> (u8, Seq<Seq<char>>) {
    match hw {
        None => (22, seq!["SMART: dados indisponíveis — neutro."@]),
        Some(h) => match get_array(h.data, "physical_disks"@) {
            Some(p) => if p.len() == 0 {
                (22, seq!["SMART: sem discos físicos — neutro."@])
            } else if exists|i: int| 0 <= i < p.len() && #[trigger] is_unhealthy(p[i]) {
                (0, seq!["SMART: falha iminente detectada."@])
            } else if exists|i: int| 0 <= i < p.len() && #[trigger] is_warning(p[i]) {
                (sat_pct(WEIGHT_SMART_DISK, 40), seq!["SMART: alerta de saúde no disco."@])
            } else {
                (WEIGHT_SMART_DISK, seq!["SMART: discos saudáveis."@])
            },
            None => (22, seq!["SMART: sem discos físicos — neutro."@]),
        },
    }
}

fn health_v(pd: &Json) -> (r: Vec<char>)
    ensures
        r@ == health_of(*pd),
{
    match json_str(pd, "health_status") {
        Some(h) => chars(h),
        None => Vec::new(),
    }
}

fn score_smart_disk(hw: Option<&CollectorResult>, notes: &mut Vec<String>) -> (r: u8)
    ensures
        r == smart_disk_spec(opt(hw)).0,
        views(final(notes)@) == views(old(notes)@) + smart_disk_spec(opt(hw)).1,
{
    let ghost n0 = views(notes@);
    let hw = match hw {
        Some(h) => h,
        None => {
            push_lit(notes, "SMART: dados indisponíveis — neutro.");
            return 22;
        },
    };
    let physical = match json_array(&hw.data, "physical_disks") {
        Some(p) => {
            if p.len() == 0 {
                push_lit(notes, "SMART: sem discos físicos — neutro.");
                return 22;
            }
            p
        },
        None => {
            push_lit(notes, "SMART: sem discos físicos — neutro.");
            return 22;
        },
    };
    let unhealthy_word = chars("Unhealthy");
    let warning_word = chars("Warning");
    let mut any_unhealthy = false;
    let mut any_warning = false;
    let mut i: usize = 0;
    while i < physical.len()
        invariant
            i <= physical@.len(),
            unhealthy_word@ == "Unhealthy"@,
            warning_word@ == "Warning"@,
            any_unhealthy == exists|j: int| 0 <= j < i && #[trigger] is_unhealthy(physical@[j]),
            any_warning == exists|j: int| 0 <= j < i && #[trigger] is_warning(physical@[j]),
        decreases physical@.len() - i,
    {
        let h = health_v(&physical[i]);
        let u = eq_ignore_case_v(&h, &unhealthy_word);
        let w = !u && eq_ignore_case_v(&h, &warning_word);
        if u {
            any_unhealthy = true;
        } else if w {
            any_warning = true;
        }
        proof {
            assert(is_unhealthy(physical@[i as int]) == u);
            assert(is_warning(physical@[i as int]) == w);
        }
        i = i + 1;
    }
    if any_unhealthy {
        push_lit(notes, "SMART: falha iminente detectada.");
        return 0;
    }
    if any_warning {
        push_lit(notes, "SMART: alerta de saúde no disco.");
        return pct_of(WEIGHT_SMART_DISK, 40);
    }
    push_lit(notes, "SMART: discos saudáveis.");
    WEIGHT_SMART_DISK
}

// ---------------------------------------------------------------------------
// Security (antivirus + firewall)
// ---------------------------------------------------------------------------

pub open spec fn enabled_flag(p: Json) -> bool {
    get_bool(p, "enabled"@) == Some(true)
}

pub open spec fn security_spec(sec: Option<CollectorResult>) -> (u8, Seq<Seq<char>>) {
    match sec {
        None => (0, seq!["Segurança: dados indisponíveis."@]),
        Some(s) => {
            let d = s.data;
            let inst = nested_flag(d, "eset"@, "installed"@);
            let run = nested_flag(d, "eset"@, "service_running"@);
            let empty = Seq::<Seq<char>>::empty();
            let (av1, sc1, n1) = if inst && run {
                (true, WEIGHT_SECURITY, empty)
            } else {
                match d.get_spec("defender"@) {
                    Some(def) => if enabled_flag(def) {
                        if !inst {
                            (
                                true,
                                sat_sub(WEIGHT_SECURITY, 5),
                                empty.push("Segurança: Defender ativo (ESET ausente)."@),
                            )
                        } else {
                            (true, WEIGHT_SECURITY, empty)
                        }
                    } else {
                        (false, WEIGHT_SECURITY, empty)
                    },
                    None => (false, WEIGHT_SECURITY, empty),
                }
            };
            let (av2, n2) = if !av1 {
                match get_array(d, "av_products"@) {
                    Some(ps) => if exists|i: int| 0 <= i < ps.len() && #[trigger] enabled_flag(ps[i]) {
                        (true, n1.push("Segurança: antivírus de terceiros ativo (WSC)."@))
                    } else {
                        (false, n1)
                    },
                    None => (false, n1),
                }
            } else {
                (true, n1)
            };
            let (sc3, n3) = if !av2 {
                (sat_sub(sc1, 20), n2.push("Segurança: antivírus desativado."@))
            } else if inst && !run {
                (sat_sub(sc1, 12), n2.push("Segurança: ESET instalado mas serviço parado."@))
            } else {
                (sc1, n2)
            };
            match d.get_spec("firewall"@) {
                Some(fw) => if get_bool(fw, "enabled"@) == Some(false) {
                    if inst && run {
                        (sat_sub(sc3, 2), n3.push("Segurança: firewall Windows off (ESET ativo)."@))
                    } else {
                        (sat_sub(sc3, 8), n3.push("Segurança: firewall desativado."@))
                    }
                } else {
                    (sc3, n3)
                },
                None => (sc3, n3),
            }
        },
    }
}

fn score_security(security: Option<&CollectorResult>, notes: &mut Vec<String>) -> (r: u8)
    ensures
        r == security_spec(opt(security)).0,
        views(final(notes)@) == views(old(notes)@) + security_spec(opt(security)).1,
{
    let ghost n0 = views(notes@);
    let sec = match security {
        Some(s) => s,
        None => {
            push_lit(notes, "Segurança: dados indisponíveis.");
            return 0;
        },
    };
    let ghost d = sec.data;
    let mut score = WEIGHT_SECURITY;
    let inst = nested_flag_v(&sec.data, "eset", "installed");
    let run = nested_flag_v(&sec.data, "eset", "service_running");
    let ghost empty = Seq::<Seq<char>>::empty();
    let ghost stage1 = if inst && run {
        (true, WEIGHT_SECURITY, empty)
    } else {
        match d.get_spec("defender"@) {
            Some(def) => if enabled_flag(def) {
                if !inst {
                    (
                        true,
                        sat_sub(WEIGHT_SECURITY, 5),
                        empty.push("Segurança: Defender ativo (ESET ausente)."@),
                    )
                } else {
                    (true, WEIGHT_SECURITY, empty)
                }
            } else {
                (false, WEIGHT_SECURITY, empty)
            },
            None => (false, WEIGHT_SECURITY, empty),
        }
    };
    let mut av_ok = false;
    if inst && run {
        av_ok = true;
    } else if let Some(defender) = sec.data.get("defender") {
        let enabled = match json_bool(defender, "enabled") {
            Some(b) => b,
            None => false,
        };
        if enabled {
            av_ok = true;
            if !inst {
                push_lit(notes, "Segurança: Defender ativo (ESET ausente).");
                score = score.saturating_sub(5);
            }
        }
    }
    assert(av_ok == stage1.0 && score == stage1.1);
    assert(views(notes@) =~= n0 + stage1.2);
    let ghost stage2 = if !stage1.0 {
        match get_array(d, "av_products"@) {
            Some(ps) => if exists|i: int| 0 <= i < ps.len() && #[trigger] enabled_flag(ps[i]) {
                (true, stage1.2.push("Segurança: antivírus de terceiros ativo (WSC)."@))
            } else {
                (false, stage1.2)
            },
            None => (false, stage1.2),
        }
    } else {
        (true, stage1.2)
    };
    if !av_ok {
        if let Some(products) = json_array(&sec.data, "av_products") {
            let mut found = false;
            let mut i: usize = 0;
            while i < products.len()
                invariant
                    i <= products@.len(),
                    found == exists|j: int| 0 <= j < i && #[trigger] enabled_flag(products@[j]),
                decreases products@.len() - i,
            {
                let e = match json_bool(&products[i], "enabled") {
                    Some(b) => b,
                    None => false,
                };
                assert(enabled_flag(products@[i as int]) == e);
                if e {
                    found = true;
                }
                i = i + 1;
            }
            av_ok = found;
            if av_ok {
                push_lit(notes, "Segurança: antivírus de terceiros ativo (WSC).");
            }
        }
    }
    assert(av_ok == stage2.0);
    assert(views(notes@) =~= n0 + stage2.1);
    let ghost stage3 = if !stage2.0 {
        (sat_sub(stage1.1, 20), stage2.1.push("Segurança: antivírus desativado."@))
    } else if inst && !run {
        (sat_sub(stage1.1, 12), stage2.1.push("Segurança: ESET instalado mas serviço parado."@))
    } else {
        (stage1.1, stage2.1)
    };
    if !av_ok {
        push_lit(notes, "Segurança: antivírus desativado.");
        score = score.saturating_sub(20);
    } else if inst && !run {
        push_lit(notes, "Segurança: ESET instalado mas serviço parado.");
        score = score.saturating_sub(12);
    }
    assert(score == stage3.0);
    assert(views(notes@) =~= n0 + stage3.1);
    if let Some(firewall) = sec.data.get("firewall") {
        let enabled = match json_bool(firewall, "enabled") {
            Some(b) => b,
            None => true,
        };
        if !enabled {
            if inst && run {
                push_lit(notes, "Segurança: firewall Windows off (ESET ativo).");
                score = score.saturating_sub(2);
            } else {
                push_lit(notes, "Segurança: firewall desativado.");
                score = score.saturating_sub(8);
            }
        }
    }
    assert(views(notes@) =~= n0 + security_spec(opt(security)).1);
    score
}

// ---------------------------------------------------------------------------
// Windows Update
// ---------------------------------------------------------------------------

pub open spec fn build_of(os: Option<CollectorResult>) -> Option<(Seq<char>, u32)> {
    match os {
        Some(o) => match get_str(o.data, "build"@) {
            Some(b) => match parse_u32(b) {
                Some(n) => Some((b, n)),
                None => None,
            },
            None => None,
        },
        None => None,
    }
}

pub open spec fn pending_of(comp: Option<CollectorResult>) -> u64 {
    match comp {
        Some(c) => get_count(c.data, "pending_updates"@),
        None => 0,
    }
}

pub open spec fn windows_update_spec(
    os: Option<CollectorResult>,
    comp: Option<CollectorResult>,
) -> (u8, Seq<Seq<char>>) {
    let empty = Seq::<Seq<char>>::empty();
    let (s1, n1) = match build_of(os) {
        Some((b, n)) => if n < 19041 {
            (
                sat_sub(WEIGHT_WINDOWS_UPDATE, 10),
                empty.push("Windows Update: build antiga ("@ + b + ")."@),
            )
        } else {
            (WEIGHT_WINDOWS_UPDATE, empty)
        },
        None => (WEIGHT_WINDOWS_UPDATE, empty),
    };
    let p = pending_of(comp);
    if p > 20 {
        (sat_sub(s1, 12), n1.push("Windows Update: "@ + nat_digits(p as nat) + " pendentes."@))
    } else if p > 5 {
        (sat_sub(s1, 6), n1)
    } else if p > 0 {
        (sat_sub(s1, 3), n1)
    } else {
        (s1, n1)
    }
}

fn score_windows_update(
    os_col: Option<&CollectorResult>,
    compliance: Option<&CollectorResult>,
    notes: &mut Vec<String>,
) -> (r: u8)
    ensures
        r == windows_update_spec(opt(os_col), opt(compliance)).0,
        views(final(notes)@) == views(old(notes)@) + windows_update_spec(
            opt(os_col),
            opt(compliance),
        ).1,
{
    let ghost n0 = views(notes@);
    let mut score = WEIGHT_WINDOWS_UPDATE;
    let pending = match compliance {
        Some(c) => get_count_v(&c.data, "pending_updates"),
        None => 0,
    };
    if let Some(os) = os_col {
        if let Some(build) = json_str(&os.data, "build") {
            let bc = chars(build);
            if let Some(build_n) = parse_u32_v(&bc) {
                if build_n < 19041 {
                    let mut m = chars("Windows Update: build antiga (");
                    extend(&mut m, &bc);
                    extend_str(&mut m, ").");
                    push_note(notes, to_string(&m));
                    score = score.saturating_sub(10);
                }
            }
        }
    }
    if pending > 20 {
        let mut m = chars("Windows Update: ");
        let d = fmt_u64(pending);
        extend(&mut m, &d);
        extend_str(&mut m, " pendentes.");
        push_note(notes, to_string(&m));
        score = score.saturating_sub(12);
    } else if pending > 5 {
        score = score.saturating_sub(6);
    } else if pending > 0 {
        score = score.saturating_sub(3);
    }
    assert(views(notes@) =~= n0 + windows_update_spec(opt(os_col), opt(compliance)).1);
    score
}

// ---------------------------------------------------------------------------
// Free disk space
// ---------------------------------------------------------------------------

/// `data.get("logical_disks").or_else(|| data.get("disks")).and_then(as_array)`.
pub open spec fn disks_of(data: Json) -> Option<Seq<Json>> {
    let v = match data.get_spec("logical_disks"@) {
        Some(x) => Some(x),
        None => data.get_spec("disks"@),
    };
    match v {
        Some(x) => x.array_spec(),
        None => None,
    }
}

fn disks_of_v(data: &Json) -> (r: Option<&Vec<Json>>)
    ensures
        match r {
            Some(a) => disks_of(*data) == Some(a@),
            None => disks_of(*data) is None,
        },
{
    let v = match data.get("logical_disks") {
        Some(x) => Some(x),
        None => data.get("disks"),
    };
    match v {
        Some(x) => x.as_array(),
        None => None,
    }
}

pub open spec fn free_of(disk: Json) -> Decimal {
    match get_num(disk, "free_percent"@) {
        Some(d) => d,
        None => Decimal::spec_of_int(100),
    }
}

/// `f64::min`.
pub open spec fn dmin(a: Decimal, b: Decimal) -> Decimal {
    if a.le(b) {
        a
    } else {
        b
    }
}

/// `f64::max`.
pub open spec fn dmax(a: Decimal, b: Decimal) -> Decimal {
    if b.le(a) {
        a
    } else {
        b
    }
}

/// The lowest free percentage over the disks, starting from 100.
pub open spec fn min_free(ds: Seq<Json>) -> Decimal
    decreases ds.len(),
{
    if ds.len() == 0 {
        Decimal::spec_of_int(100)
    } else {
        dmin(min_free(ds.drop_last()), free_of(ds.last()))
    }
}

fn free_of_v(disk: &Json) -> (r: Decimal)
    ensures
        r == free_of(*disk),
{
    match json_num(disk, "free_percent") {
        Some(d) => d,
        None => Decimal::of_u64(100),
    }
}

fn min_free_v(ds: &Vec<Json>) -> (r: Decimal)
    ensures
        r == min_free(ds@),
{
    let mut w = Decimal::of_u64(100);
    let mut i: usize = 0;
    while i < ds.len()
        invariant
            i <= ds@.len(),
            w == min_free(ds@.take(i as int)),
        decreases ds@.len() - i,
    {
        let f = free_of_v(&ds[i]);
        assert(ds@.take(i + 1).drop_last() =~= ds@.take(i as int));
        w = if w.is_le(&f) {
            w
        } else {
            f
        };
        i = i + 1;
    }
    assert(ds@.take(ds@.len() as int) =~= ds@);
    w
}

pub open spec fn disk_free_spec(hw: Option<CollectorResult>) -> (u8, Seq<Seq<char>>) {
    match hw {
        None => (7, Seq::empty()),
        Some(h) => match disks_of(h.data) {
            None => (7, Seq::empty()),
            Some(ds) => {
                let w = min_free(ds);
                if w.lt_milli(5000) {
                    (0, seq!["Disco: "@ + fmt_fixed(w, 1, false) + "% livre — crítico."@])
                } else if w.lt_milli(10000) {
                    (sat_pct(WEIGHT_DISK_FREE, 30), Seq::empty())
                } else if w.lt_milli(15000) {
                    (sat_pct(WEIGHT_DISK_FREE, 50), Seq::empty())
                } else if w.lt_milli(25000) {
                    (sat_pct(WEIGHT_DISK_FREE, 75), Seq::empty())
                } else {
                    (WEIGHT_DISK_FREE, Seq::empty())
                }
            },
        },
    }
}

fn score_disk_free(hw: Option<&CollectorResult>, notes: &mut Vec<String>) -> (r: u8)
    ensures
        r == disk_free_spec(opt(hw)).0,
        views(final(notes)@) == views(old(notes)@) + disk_free_spec(opt(hw)).1,
{
    let ghost n0 = views(notes@);
    let hw = match hw {
        Some(h) => h,
        None => {
            assert(views(notes@) =~= n0 + Seq::<Seq<char>>::empty());
            return 7;
        },
    };
    let disks = match disks_of_v(&hw.data) {
        Some(d) => d,
        None => {
            assert(views(notes@) =~= n0 + Seq::<Seq<char>>::empty());
            return 7;
        },
    };
    let w = min_free_v(disks);
    if w.is_lt_milli(5000) {
        let mut m = chars("Disco: ");
        let f = fmt_decimal(w, 1, false);
        extend(&mut m, &f);
        extend_str(&mut m, "% livre — crítico.");
        push_note(notes, to_string(&m));
        assert(views(notes@) =~= n0 + disk_free_spec(opt(Some(hw))).1);
        return 0;
    }
    assert(views(notes@) =~= n0 + Seq::<Seq<char>>::empty());
    if w.is_lt_milli(10000) {
        return pct_of(WEIGHT_DISK_FREE, 30);
    }
    if w.is_lt_milli(15000) {
        return pct_of(WEIGHT_DISK_FREE, 50);
    }
    if w.is_lt_milli(25000) {
        return pct_of(WEIGHT_DISK_FREE, 75);
    }
    WEIGHT_DISK_FREE
}

// ---------------------------------------------------------------------------
// Critical events
// ---------------------------------------------------------------------------

pub open spec fn critical_events_spec(ev: Option<CollectorResult>) -> (u8, Seq<Seq<char>>) {
    match ev {
        None => (WEIGHT_CRITICAL_EVENTS, Seq::empty()),
        Some(e) => match e.data.get_spec("summary"@) {
            None => (WEIGHT_CRITICAL_EVENTS, Seq::empty()),
            Some(sm) => {
                let b = get_count(sm, "bsod_count"@);
                let u = get_count(sm, "unexpected_shutdowns"@);
                let se = get_count(sm, "system_errors_count"@);
                let empty = Seq::<Seq<char>>::empty();
                let (s1, n1) = if b > 0 {
                    (0u8, empty.push("Eventos: BSOD recente."@))
                } else if u > 0 {
                    (
                        sat_sub(WEIGHT_CRITICAL_EVENTS, 3),
                        empty.push(
                            "Eventos: "@ + nat_digits(u as nat)
                                + " desligamento(s) inesperado(s)."@,
                        ),
                    )
                } else {
                    (WEIGHT_CRITICAL_EVENTS, empty)
                };
                if se > 50 {
                    (
                        sat_sub(s1, 4),
                        n1.push("Eventos: "@ + nat_digits(se as nat) + " erros System (14d)."@),
                    )
                } else if se > 20 {
                    (sat_sub(s1, 2), n1)
                } else {
                    (s1, n1)
                }
            },
        },
    }
}

fn score_critical_events(event_logs: Option<&CollectorResult>, notes: &mut Vec<String>) -> (r:
    u8)
    ensures
        r == critical_events_spec(opt(event_logs)).0,
        views(final(notes)@) == views(old(notes)@) + critical_events_spec(opt(event_logs)).1,
{
    let ghost n0 = views(notes@);
    let mut score = WEIGHT_CRITICAL_EVENTS;
    if let Some(ev) = event_logs {
        if let Some(summary) = ev.data.get("summary") {
            let bsod_count = get_count_v(summary, "bsod_count");
            let unexpected = get_count_v(summary, "unexpected_shutdowns");
            let sys_err = get_count_v(summary, "system_errors_count");
            if bsod_count > 0 {
                push_lit(notes, "Eventos: BSOD recente.");
                score = 0;
            } else if unexpected > 0 {
                let mut m = chars("Eventos: ");
                let d = fmt_u64(unexpected);
                extend(&mut m, &d);
                extend_str(&mut m, " desligamento(s) inesperado(s).");
                push_note(notes, to_string(&m));
                score = score.saturating_sub(3);
            }
            if sys_err > 50 {
                let mut m = chars("Eventos: ");
                let d = fmt_u64(sys_err);
                extend(&mut m, &d);
                extend_str(&mut m, " erros System (14d).");
                push_note(notes, to_string(&m));
                score = score.saturating_sub(4);
            } else if sys_err > 20 {
                score = score.saturating_sub(2);
            }
        }
    }
    assert(views(notes@) =~= n0 + critical_events_spec(opt(event_logs)).1);
    score
}

// ---------------------------------------------------------------------------
// Temperatures
// ---------------------------------------------------------------------------

/// The highest `celsius` reading, starting from 0.
pub open spec fn max_temp(ts: Seq<Json>) -> Decimal
    decreases ts.len(),
{
    if ts.len() == 0 {
        Decimal::spec_of_int(0)
    } else {
        match get_num(ts.last(), "celsius"@) {
            Some(v) => dmax(max_temp(ts.drop_last()), v),
            None => max_temp(ts.drop_last()),
        }
    }
}

fn max_temp_v(ts: &Vec<Json>) -> (r: Decimal)
    ensures
        r == max_temp(ts@),
{
    let mut w = Decimal::of_u64(0);
    let mut i: usize = 0;
    while i < ts.len()
        invariant
            i <= ts@.len(),
            w == max_temp(ts@.take(i as int)),
        decreases ts@.len() - i,
    {
        assert(ts@.take(i + 1).drop_last() =~= ts@.take(i as int));
        if let Some(v) = json_num(&ts[i], "celsius") {
            w = if v.is_le(&w) {
                w
            } else {
                v
            };
        }
        i = i + 1;
    }
    assert(ts@.take(ts@.len() as int) =~= ts@);
    w
}

pub open spec fn temperature_neutral() -> (u8, Seq<Seq<char>>) {
    (sat_pct(WEIGHT_TEMPERATURE, 90), seq!["Temperatura: coletor indisponível — neutro."@])
}

pub open spec fn temperature_spec(hw: Option<CollectorResult>) -> (u8, Seq<Seq<char>>) {
    match hw {
        None => temperature_neutral(),
        Some(h) => match get_array(h.data, "temperatures"@) {
            None => temperature_neutral(),
            Some(ts) => if ts.len() == 0 {
                temperature_neutral()
            } else {
                let w = max_temp(ts);
                if w.gt_milli(90000) {
                    (0, seq!["Temperatura: "@ + fmt_fixed(w, 0, false) + "°C — crítico."@])
                } else if w.gt_milli(80000) {
                    (2, seq!["Temperatura: "@ + fmt_fixed(w, 0, false) + "°C — alta."@])
                } else {
                    (WEIGHT_TEMPERATURE, Seq::empty())
                }
            },
        },
    }
}

fn score_temperature(hw: Option<&CollectorResult>, notes: &mut Vec<String>) -> (r: u8)
    ensures
        r == temperature_spec(opt(hw)).0,
        views(final(notes)@) == views(old(notes)@) + temperature_spec(opt(hw)).1,
{
    let ghost n0 = views(notes@);
    if let Some(hw) = hw {
        if let Some(temps) = json_array(&hw.data, "temperatures") {
            if temps.len() > 0 {
                let worst = max_temp_v(temps);
                if worst.is_gt_milli(90000) {
                    let mut m = chars("Temperatura: ");
                    let f = fmt_decimal(worst, 0, false);
                    extend(&mut m, &f);
                    extend_str(&mut m, "°C — crítico.");
                    push_note(notes, to_string(&m));
                    assert(views(notes@) =~= n0 + temperature_spec(opt(Some(hw))).1);
                    return 0;
                }
                if worst.is_gt_milli(80000) {
                    let mut m = chars("Temperatura: ");
                    let f = fmt_decimal(worst, 0, false);
                    extend(&mut m, &f);
                    extend_str(&mut m, "°C — alta.");
                    push_note(notes, to_string(&m));
                    assert(views(notes@) =~= n0 + temperature_spec(opt(Some(hw))).1);
                    return 2;
                }
                assert(views(notes@) =~= n0 + Seq::<Seq<char>>::empty());
                return WEIGHT_TEMPERATURE;
            }
        }
    }
    push_lit(notes, "Temperatura: coletor indisponível — neutro.");
    pct_of(WEIGHT_TEMPERATURE, 90)
}

// ---------------------------------------------------------------------------
// Corporate certificates
// ---------------------------------------------------------------------------

/// The lowest `days_left` over the entities (365 when there are none).
pub open spec fn worst_days(m: Seq<(Seq<char>, i64, Seq<char>)>) -> i64
    decreases m.len(),
{
    if m.len() == 0 {
        365
    } else if m.len() == 1 {
        m[0].1
    } else {
        let w = worst_days(m.drop_last());
        if m.last().1 < w {
            m.last().1
        } else {
            w
        }
    }
}

/// Names of the entities whose validity is below zero.
pub open spec fn expired_names(m: Seq<(Seq<char>, i64, Seq<char>)>) -> Seq<Seq<char>>
    decreases m.len(),
{
    if m.len() == 0 {
        Seq::empty()
    } else if m.last().1 < 0 {
        expired_names(m.drop_last()).push(m.last().2)
    } else {
        expired_names(m.drop_last())
    }
}

/// Names of the entities whose validity is between 0 and 30 days.
pub open spec fn expiring_names(m: Seq<(Seq<char>, i64, Seq<char>)>) -> Seq<Seq<char>>
    decreases m.len(),
{
    if m.len() == 0 {
        Seq::empty()
    } else if 0 <= m.last().1 && m.last().1 <= 30 {
        expiring_names(m.drop_last()).push(m.last().2)
    } else {
        expiring_names(m.drop_last())
    }
}

pub open spec fn certificates_spec(certs: Option<CollectorResult>) -> (u8, Seq<Seq<char>>) {
    match certs {
        None => (
            sat_pct(WEIGHT_CERTIFICATES, 80),
            seq!["Certificados: dados indisponíveis — neutro."@],
        ),
        Some(c) => {
            let m = best_days_spec(c.data);
            let w = worst_days(m);
            let expired = expired_names(m);
            let expiring = expiring_names(m);
            if m.len() == 0 || w >= 31 {
                (WEIGHT_CERTIFICATES, Seq::empty())
            } else if w >= 0 {
                (
                    sat_pct(WEIGHT_CERTIFICATES, 60),
                    seq![
                        "Certificado corporativo expirando em breve: "@ + join(expiring, ", "@)
                            + "."@,
                    ],
                )
            } else if expired.len() == 1 {
                (
                    sat_pct(WEIGHT_CERTIFICATES, 40),
                    seq![
                        "Certificado corporativo expirado: "@ + expired[0]
                            + " — renovar ou remover do repositório."@,
                    ],
                )
            } else {
                (0, seq!["Certificados corporativos expirados: "@ + join(expired, ", "@) + "."@])
            }
        },
    }
}

fn score_certificates(certs: Option<&CollectorResult>, notes: &mut Vec<String>) -> (r: u8)
    requires
        certs matches Some(c) ==> certs_sliceable(c.data),
    ensures
        r == certificates_spec(opt(certs)).0,
        views(final(notes)@) == views(old(notes)@) + certificates_spec(opt(certs)).1,
{
    let ghost n0 = views(notes@);
    let c = match certs {
        Some(c) => c,
        None => {
            push_lit(notes, "Certificados: dados indisponíveis — neutro.");
            return pct_of(WEIGHT_CERTIFICATES, 80);
        },
    };
    let entities = corporate_entities_best_days(&c.data);
    let ghost m = ents_view(entities@);
    if entities.len() == 0 {
        assert(views(notes@) =~= n0 + Seq::<Seq<char>>::empty());
        return WEIGHT_CERTIFICATES;
    }
    let mut worst: i64 = 365;
    let mut expired: Vec<Vec<char>> = Vec::new();
    let mut expiring: Vec<Vec<char>> = Vec::new();
    let mut i: usize = 0;
    while i < entities.len()
        invariant
            i <= entities@.len(),
            m == ents_view(entities@),
            worst == worst_days(m.take(i as int)),
            vviews(expired@) == expired_names(m.take(i as int)),
            vviews(expiring@) == expiring_names(m.take(i as int)),
        decreases entities@.len() - i,
    {
        let d = entities[i].1;
        assert(m.take(i + 1).drop_last() =~= m.take(i as int));
        assert(m.take(i + 1).last() == m[i as int]);
        assert(m[i as int] == (entities@[i as int].0@, entities@[i as int].1, entities@[i as int].2@));
        if i == 0 {
            worst = d;
        } else if d < worst {
            worst = d;
        }
        if d < 0 {
            expired.push(entities[i].2.clone());
            assert(vviews(expired@) =~= expired_names(m.take(i + 1)));
        } else {
            assert(vviews(expired@) =~= expired_names(m.take(i + 1)));
        }
        if 0 <= d && d <= 30 {
            expiring.push(entities[i].2.clone());
            assert(vviews(expiring@) =~= expiring_names(m.take(i + 1)));
        } else {
            assert(vviews(expiring@) =~= expiring_names(m.take(i + 1)));
        }
        i = i + 1;
    }
    assert(m.take(m.len() as int) =~= m);
    if worst >= 31 {
        assert(views(notes@) =~= n0 + Seq::<Seq<char>>::empty());
        return WEIGHT_CERTIFICATES;
    }
    if worst >= 0 {
        let mut t = chars("Certificado corporativo expirando em breve: ");
        let j = join_v(&expiring, ", ");
        extend(&mut t, &j);
        extend_str(&mut t, ".");
        push_note(notes, to_string(&t));
        return pct_of(WEIGHT_CERTIFICATES, 60);
    }
    if expired.len() == 1 {
        let mut t = chars("Certificado corporativo expirado: ");
        assert(vviews(expired@)[0] == expired@[0]@);
        extend(&mut t, &expired[0]);
        extend_str(&mut t, " — renovar ou remover do repositório.");
        push_note(notes, to_string(&t));
        return pct_of(WEIGHT_CERTIFICATES, 40);
    }
    let mut t = chars("Certificados corporativos expirados: ");
    let j = join_v(&expired, ", ");
    extend(&mut t, &j);
    extend_str(&mut t, ".");
    push_note(notes, to_string(&t));
    0
}

// ---------------------------------------------------------------------------
// Breakdown
// ---------------------------------------------------------------------------

pub struct ScoreBreakdown {
    pub total: u8,
    pub band: String,
    pub smart_disk: u8,
    pub security: u8,
    pub windows_update: u8,
    pub critical_events: u8,
    pub disk_free: u8,
    pub temperature: u8,
    pub certificates: u8,
    pub notes: Vec<String>,
}

/// The certificate rules can read every corporate certificate of the collectors
/// (its short name does not cut a character in two).
pub open spec fn collectors_sliceable(cs: Seq<CollectorResult>) -> bool {
    match find_collector(cs, "certificates"@) {
        Some(c) => certs_sliceable(c.data),
        None => true,
    }
}

/// Whether the certificate rules can read the collectors (see
/// [`collectors_sliceable`]); where this is false the certificate rules have no
/// defined result.
pub fn collectors_sliceable_v(cs: &[CollectorResult]) -> (r: bool)
    ensures
        r == collectors_sliceable(cs@),
{
    match find_collector_exec(cs, "certificates") {
        Some(c) => crate::certs::certs_sliceable_v(&c.data),
        None => true,
    }
}

pub open spec fn smart_of(cs: Seq<CollectorResult>) -> (u8, Seq<Seq<char>>) {
    smart_disk_spec(find_collector(cs, "hardware"@))
}

pub open spec fn security_of(cs: Seq<CollectorResult>) -> (u8, Seq<Seq<char>>) {
    security_spec(find_collector(cs, "security"@))
}

pub open spec fn windows_update_of(cs: Seq<CollectorResult>) -> (u8, Seq<Seq<char>>) {
    windows_update_spec(find_collector(cs, "os"@), find_collector(cs, "compliance"@))
}

pub open spec fn critical_events_of(cs: Seq<CollectorResult>) -> (u8, Seq<Seq<char>>) {
    critical_events_spec(find_collector(cs, "event_logs"@))
}

pub open spec fn disk_free_of(cs: Seq<CollectorResult>) -> (u8, Seq<Seq<char>>) {
    disk_free_spec(find_collector(cs, "hardware"@))
}

pub open spec fn temperature_of(cs: Seq<CollectorResult>) -> (u8, Seq<Seq<char>>) {
    temperature_spec(find_collector(cs, "hardware"@))
}

pub open spec fn certificates_of(cs: Seq<CollectorResult>) -> (u8, Seq<Seq<char>>) {
    certificates_spec(find_collector(cs, "certificates"@))
}

/// The total: the saturating sum of the seven parts, capped at 100.
pub open spec fn total_spec(cs: Seq<CollectorResult>) -> u8 {
    let t = sat_add(
        sat_add(
            sat_add(
                sat_add(
                    sat_add(
                        sat_add(smart_of(cs).0, security_of(cs).0),
                        windows_update_of(cs).0,
                    ),
                    critical_events_of(cs).0,
                ),
                disk_free_of(cs).0,
            ),
            temperature_of(cs).0,
        ),
        certificates_of(cs).0,
    );
    if t > 100 {
        100
    } else {
        t
    }
}

/// All notes, in category order.
pub open spec fn notes_spec(cs: Seq<CollectorResult>) -> Seq<Seq<char>> {
    smart_of(cs).1 + security_of(cs).1 + windows_update_of(cs).1 + critical_events_of(cs).1
        + disk_free_of(cs).1 + temperature_of(cs).1 + certificates_of(cs).1
}

pub open spec fn breakdown_matches(b: ScoreBreakdown, cs: Seq<CollectorResult>) -> bool {
    &&& b.smart_disk == smart_of(cs).0
    &&& b.security == security_of(cs).0
    &&& b.windows_update == windows_update_of(cs).0
    &&& b.critical_events == critical_events_of(cs).0
    &&& b.disk_free == disk_free_of(cs).0
    &&& b.temperature == temperature_of(cs).0
    &&& b.certificates == certificates_of(cs).0
    &&& b.total == total_spec(cs)
    &&& b.band@ == band_spec(b.total)
    &&& views(b.notes@) == notes_spec(cs)
}

/// Scores a machine from its latest collector results.
pub fn compute_score_breakdown(machine: &MachineSummary, collectors: &[CollectorResult]) -> (r:
    ScoreBreakdown)
    requires
        collectors_sliceable(collectors@),
    ensures
        breakdown_matches(r, collectors@),
{
    let hardware = find_collector_exec(collectors, "hardware");
    let security = find_collector_exec(collectors, "security");
    let certificates = find_collector_exec(collectors, "certificates");
    let event_logs = find_collector_exec(collectors, "event_logs");
    let os_col = find_collector_exec(collectors, "os");
    let compliance_col = find_collector_exec(collectors, "compliance");
    let mut notes: Vec<String> = Vec::new();
    assert(views(notes@) =~= Seq::<Seq<char>>::empty());
    let smart_disk = score_smart_disk(hardware, &mut notes);
    let security_score = score_security(security, &mut notes);
    let windows_update = score_windows_update(os_col, compliance_col, &mut notes);
    let critical_events = score_critical_events(event_logs, &mut notes);
    let disk_free = score_disk_free(hardware, &mut notes);
    let temperature = score_temperature(hardware, &mut notes);
    let certificates_score = score_certificates(certificates, &mut notes);
    let t = smart_disk.saturating_add(security_score).saturating_add(windows_update).saturating_add(
        critical_events,
    ).saturating_add(disk_free).saturating_add(temperature).saturating_add(certificates_score);
    let total = if t > 100 {
        100
    } else {
        t
    };
    let band = score_band(total).to_owned();
    assert(views(notes@) =~= notes_spec(collectors@));
    ScoreBreakdown {
        total,
        band,
        smart_disk,
        security: security_score,
        windows_update,
        critical_events,
        disk_free,
        temperature,
        certificates: certificates_score,
        notes,
    }
}

// ---------------------------------------------------------------------------
// Markdown
// ---------------------------------------------------------------------------

pub open spec fn md_row(label: Seq<char>, points: u8, max: u8) -> Seq<char> {
    "| "@ + label + " | "@ + nat_digits(points as nat) + " | "@ + nat_digits(max as nat) + " |\n"@
}

/// One `- {note}` line per note.
pub open spec fn md_bullets(ns: Seq<Seq<char>>) -> Seq<char>
    decreases ns.len(),
{
    if ns.len() == 0 {
        Seq::empty()
    } else {
        md_bullets(ns.drop_last()) + "- "@ + ns.last() + "\n"@
    }
}

/// The heading and the score line of a breakdown.
pub open spec fn breakdown_head(b: ScoreBreakdown) -> Seq<char> {
    "## Conformidade TI\n\n"@ + "**Score: "@ + nat_digits(b.total as nat) + "% — "@ + b.band@ + "**\n\n"@
}

/// The heading, the score line and the table of a breakdown.
pub open spec fn breakdown_table(b: ScoreBreakdown) -> Seq<char> {
    breakdown_head(b)
        + "| Categoria | Pontos | Máximo |\n"@ + "|-----------|-------:|-------:|\n"@
        + md_row("Disco SMART"@, b.smart_disk, WEIGHT_SMART_DISK)
        + md_row("Segurança (AV + firewall)"@, b.security, WEIGHT_SECURITY)
        + md_row("Windows Update"@, b.windows_update, WEIGHT_WINDOWS_UPDATE)
        + md_row("Eventos críticos"@, b.critical_events, WEIGHT_CRITICAL_EVENTS)
        + md_row("Espaço em disco"@, b.disk_free, WEIGHT_DISK_FREE)
        + md_row("Temperaturas"@, b.temperature, WEIGHT_TEMPERATURE)
        + md_row("Certificados corporativos"@, b.certificates, WEIGHT_CERTIFICATES)
}

/// The notes section: nothing without notes, else a title and one line per note.
pub open spec fn breakdown_notes(b: ScoreBreakdown) -> Seq<char> {
    if b.notes@.len() == 0 {
        Seq::empty()
    } else {
        "\n**Observações:**\n"@ + md_bullets(views(b.notes@))
    }
}

pub open spec fn breakdown_md(b: ScoreBreakdown) -> Seq<char> {
    breakdown_table(b) + breakdown_notes(b) + "\n"@
}

/// The compliance section of a machine with these collector results, as
/// [`ScoreBreakdown::to_markdown`] writes the breakdown computed from them.
pub open spec fn breakdown_text(cs: Seq<CollectorResult>) -> Seq<char> {
    let total = total_spec(cs);
    let notes = notes_spec(cs);
    "## Conformidade TI\n\n"@ + "**Score: "@ + nat_digits(total as nat) + "% — "@ + band_spec(total) + "**\n\n"@
        + "| Categoria | Pontos | Máximo |\n"@ + "|-----------|-------:|-------:|\n"@
        + md_row("Disco SMART"@, smart_of(cs).0, WEIGHT_SMART_DISK)
        + md_row("Segurança (AV + firewall)"@, security_of(cs).0, WEIGHT_SECURITY)
        + md_row("Windows Update"@, windows_update_of(cs).0, WEIGHT_WINDOWS_UPDATE)
        + md_row("Eventos críticos"@, critical_events_of(cs).0, WEIGHT_CRITICAL_EVENTS)
        + md_row("Espaço em disco"@, disk_free_of(cs).0, WEIGHT_DISK_FREE)
        + md_row("Temperaturas"@, temperature_of(cs).0, WEIGHT_TEMPERATURE)
        + md_row("Certificados corporativos"@, certificates_of(cs).0, WEIGHT_CERTIFICATES)
        + (if notes.len() == 0 {
        Seq::empty()
    } else {
        "\n**Observações:**\n"@ + md_bullets(notes)
    }) + "\n"@
}

/// The Markdown of a breakdown depends on the collector results alone.
pub proof fn lemma_breakdown_text(b: ScoreBreakdown, cs: Seq<CollectorResult>)
    requires
        breakdown_matches(b, cs),
    ensures
        breakdown_md(b) == breakdown_text(cs),
{
    assert(views(b.notes@).len() == b.notes@.len());
}

fn push_row(md: &mut Vec<char>, label: &str, points: u8, max: u8)
    ensures
        final(md)@ == old(md)@ + md_row(label@, points, max),
{
    extend_str(md, "| ");
    extend_str(md, label);
    extend_str(md, " | ");
    let p = fmt_u64(points as u64);
    extend(md, &p);
    extend_str(md, " | ");
    let m = fmt_u64(max as u64);
    extend(md, &m);
    extend_str(md, " |\n");
    assert(final(md)@ =~= old(md)@ + md_row(label@, points, max));
}

pub fn push_bullets(md: &mut Vec<char>, notes: &Vec<String>)
    ensures
        final(md)@ == old(md)@ + md_bullets(views(notes@)),
{
    let ghost m0 = md@;
    let mut i: usize = 0;
    assert(views(notes@).take(0) =~= Seq::<Seq<char>>::empty());
    while i < notes.len()
        invariant
            i <= notes@.len(),
            md@ == m0 + md_bullets(views(notes@).take(i as int)),
        decreases notes@.len() - i,
    {
        let ghost vs = views(notes@);
        assert(vs.take(i + 1).drop_last() =~= vs.take(i as int));
        assert(vs.take(i + 1).last() == notes@[i as int]@);
        extend_str(md, "- ");
        extend_str(md, notes[i].as_str());
        extend_str(md, "\n");
        i = i + 1;
        assert(md@ =~= m0 + md_bullets(vs.take(i as int)));
    }
    assert(views(notes@).take(notes@.len() as int) =~= views(notes@));
}

impl ScoreBreakdown {
    /// The breakdown as a Markdown section: score and band, one table row per
    /// category with its weight, then the notes.
    pub fn to_markdown(&self) -> (r: String)
        ensures
            r@ == breakdown_md(*self),
    {
        let mut md = chars("## Conformidade TI\n\n");
        extend_str(&mut md, "**Score: ");
        let t = fmt_u64(self.total as u64);
        extend(&mut md, &t);
        extend_str(&mut md, "% — ");
        extend_str(&mut md, self.band.as_str());
        extend_str(&mut md, "**\n\n");
        extend_str(&mut md, "| Categoria | Pontos | Máximo |\n");
        extend_str(&mut md, "|-----------|-------:|-------:|\n");
        push_row(&mut md, "Disco SMART", self.smart_disk, WEIGHT_SMART_DISK);
        push_row(&mut md, "Segurança (AV + firewall)", self.security, WEIGHT_SECURITY);
        push_row(&mut md, "Windows Update", self.windows_update, WEIGHT_WINDOWS_UPDATE);
        push_row(&mut md, "Eventos críticos", self.critical_events, WEIGHT_CRITICAL_EVENTS);
        push_row(&mut md, "Espaço em disco", self.disk_free, WEIGHT_DISK_FREE);
        push_row(&mut md, "Temperaturas", self.temperature, WEIGHT_TEMPERATURE);
        push_row(&mut md, "Certificados corporativos", self.certificates, WEIGHT_CERTIFICATES);
        let ghost before = md@;
        if self.notes.len() > 0 {
            extend_str(&mut md, "\n**Observações:**\n");
            push_bullets(&mut md, &self.notes);
        }
        extend_str(&mut md, "\n");
        proof {
            reveal_strlit("");
        }
        assert(md@ =~= breakdown_md(*self));
        to_string(&md)
    }
}

// ---------------------------------------------------------------------------
// Laws
// ---------------------------------------------------------------------------

/// Every category scores within its weight, and the total is the plain sum of the
/// seven categories (the weights add up to 100, so nothing saturates or is capped).
pub proof fn law_score_within_weights(cs: Seq<CollectorResult>)
    ensures
        smart_of(cs).0 <= WEIGHT_SMART_DISK,
        security_of(cs).0 <= WEIGHT_SECURITY,
        windows_update_of(cs).0 <= WEIGHT_WINDOWS_UPDATE,
        critical_events_of(cs).0 <= WEIGHT_CRITICAL_EVENTS,
        disk_free_of(cs).0 <= WEIGHT_DISK_FREE,
        temperature_of(cs).0 <= WEIGHT_TEMPERATURE,
        certificates_of(cs).0 <= WEIGHT_CERTIFICATES,
        total_spec(cs) == smart_of(cs).0 + security_of(cs).0 + windows_update_of(cs).0
            + critical_events_of(cs).0 + disk_free_of(cs).0 + temperature_of(cs).0
            + certificates_of(cs).0,
        total_spec(cs) <= 100,
{
    assert(sat_pct(WEIGHT_SMART_DISK, 40) <= 30);
    assert(sat_pct(WEIGHT_DISK_FREE, 30) <= 10);
    assert(sat_pct(WEIGHT_DISK_FREE, 50) <= 10);
    assert(sat_pct(WEIGHT_DISK_FREE, 75) <= 10);
    assert(sat_pct(WEIGHT_TEMPERATURE, 90) <= 5);
    assert(sat_pct(WEIGHT_CERTIFICATES, 80) <= 5);
    assert(sat_pct(WEIGHT_CERTIFICATES, 60) <= 5);
    assert(sat_pct(WEIGHT_CERTIFICATES, 40) <= 5);
}

/// Certificates that are not corporate (historical roots, self-signed, others) never
/// cost points: with no corporate certificate the category keeps its full weight
/// and adds no note.
pub proof fn law_non_corporate_certificates_cost_nothing(c: CollectorResult)
    requires
        forall|k: int, i: int|
            0 <= k < 3 && 0 <= i < array_or_empty(c.data, cert_keys()[k]).len() ==> classify_spec(
                #[trigger] array_or_empty(c.data, cert_keys()[k])[i],
            ) != CertClass::Corporate,
    ensures
        certificates_spec(Some(c)).0 == WEIGHT_CERTIFICATES,
        certificates_spec(Some(c)).1.len() == 0,
{
    let empty = Seq::<(Seq<char>, i64, Seq<char>)>::empty();
    assert(cert_keys()[0] == "certificates"@);
    assert(cert_keys()[1] == "expiring_soon"@);
    assert(cert_keys()[2] == "expired"@);
    let a1 = array_or_empty(c.data, "certificates"@);
    let a2 = array_or_empty(c.data, "expiring_soon"@);
    let a3 = array_or_empty(c.data, "expired"@);
    assert forall|i: int| 0 <= i < a1.len() implies classify_spec(#[trigger] a1[i])
        != CertClass::Corporate by {
        assert(a1[i] == array_or_empty(c.data, cert_keys()[0])[i]);
    }
    assert forall|i: int| 0 <= i < a2.len() implies classify_spec(#[trigger] a2[i])
        != CertClass::Corporate by {
        assert(a2[i] == array_or_empty(c.data, cert_keys()[1])[i]);
    }
    assert forall|i: int| 0 <= i < a3.len() implies classify_spec(#[trigger] a3[i])
        != CertClass::Corporate by {
        assert(a3[i] == array_or_empty(c.data, cert_keys()[2])[i]);
    }
    lemma_fold_without_corporate(empty, a1, 30);
    lemma_fold_without_corporate(empty, a2, 30);
    lemma_fold_without_corporate(empty, a3, -1i64);
}


/// Two lists of collector results whose names agree place by place find each collector
/// at the same place.
proof fn lemma_same_names_same_index(cs: Seq<CollectorResult>, cs2: Seq<CollectorResult>, name: Seq<char>)
    requires
        cs.len() == cs2.len(),
        forall|i: int| 0 <= i < cs.len() ==> #[trigger] cs2[i].name@ == cs[i].name@,
    ensures
        crate::models::find_collector_index(cs, name) == crate::models::find_collector_index(cs2, name),
        -1 <= crate::models::find_collector_index(cs, name) < cs.len(),
        crate::models::find_collector_index(cs, name) >= 0 ==> cs[crate::models::find_collector_index(cs, name)].name@ == name,
    decreases cs.len(),
{
    if cs.len() > 0 {
        assert(cs2[0].name@ == cs[0].name@);
        let t = cs.drop_first();
        let t2 = cs2.drop_first();
        assert forall|i: int| 0 <= i < t.len() implies #[trigger] t2[i].name@ == t[i].name@ by {
            assert(t2[i] == cs2[i + 1]);
            assert(t[i] == cs[i + 1]);
        }
        lemma_same_names_same_index(t, t2, name);
    }
}

/// The security score and its notes read the security data only through its `eset`,
/// `defender`, `av_products` and `firewall` entries.
proof fn lemma_security_reads_four_entries(s: CollectorResult, s2: CollectorResult)
    requires
        s2.data.get_spec("eset"@) == s.data.get_spec("eset"@),
        s2.data.get_spec("defender"@) == s.data.get_spec("defender"@),
        s2.data.get_spec("av_products"@) == s.data.get_spec("av_products"@),
        s2.data.get_spec("firewall"@) == s.data.get_spec("firewall"@),
    ensures
        security_spec(Some(s2)) == security_spec(Some(s)),
{
}

/// The BitLocker state never moves the score: two sets of collector results that
/// differ only in the security collector's `bitlocker` entry get the same seven
/// category scores, the same total and the same notes.
pub proof fn law_bitlocker_never_scores(cs: Seq<CollectorResult>, cs2: Seq<CollectorResult>, k: int)
    requires
        0 <= k < cs.len(),
        cs2.len() == cs.len(),
        cs[k].name@ == "security"@,
        forall|i: int| 0 <= i < cs.len() && i != k ==> #[trigger] cs2[i] == cs[i],
        cs2[k].name@ == cs[k].name@,
        forall|key: Seq<char>| key != "bitlocker"@ ==> #[trigger] cs2[k].data.get_spec(key) == cs[k].data.get_spec(key),
    ensures
        smart_of(cs2) == smart_of(cs),
        security_of(cs2) == security_of(cs),
        windows_update_of(cs2) == windows_update_of(cs),
        critical_events_of(cs2) == critical_events_of(cs),
        disk_free_of(cs2) == disk_free_of(cs),
        temperature_of(cs2) == temperature_of(cs),
        certificates_of(cs2) == certificates_of(cs),
        total_spec(cs2) == total_spec(cs),
        notes_spec(cs2) == notes_spec(cs),
{
    assert forall|i: int| 0 <= i < cs.len() implies #[trigger] cs2[i].name@ == cs[i].name@ by {
        if i != k {
            assert(cs2[i] == cs[i]);
        }
    }
    reveal_strlit("security");
    reveal_strlit("hardware");
    reveal_strlit("os");
    reveal_strlit("compliance");
    reveal_strlit("event_logs");
    reveal_strlit("certificates");
    reveal_strlit("bitlocker");
    reveal_strlit("eset");
    reveal_strlit("defender");
    reveal_strlit("av_products");
    reveal_strlit("firewall");
    assert("hardware"@[0] != "security"@[0]);
    assert("os"@.len() != "security"@.len());
    assert("compliance"@.len() != "security"@.len());
    assert("event_logs"@.len() != "security"@.len());
    assert("certificates"@.len() != "security"@.len());
    assert("eset"@.len() != "bitlocker"@.len());
    assert("defender"@.len() != "bitlocker"@.len());
    assert("av_products"@.len() != "bitlocker"@.len());
    assert("firewall"@.len() != "bitlocker"@.len());
    let names = seq!["hardware"@, "os"@, "compliance"@, "event_logs"@, "certificates"@];
    assert(forall|j: int| 0 <= j < names.len() ==> #[trigger] names[j] != "security"@);
    assert forall|j: int| 0 <= j < names.len() implies find_collector(cs2, #[trigger] names[j]) == find_collector(cs, names[j]) by {
        lemma_same_names_same_index(cs, cs2, names[j]);
        let i = crate::models::find_collector_index(cs, names[j]);
        if i >= 0 {
            assert(i != k);
            assert(cs2[i] == cs[i]);
        }
    }
    assert(names[0] == "hardware"@);
    assert(names[1] == "os"@);
    assert(names[2] == "compliance"@);
    assert(names[3] == "event_logs"@);
    assert(names[4] == "certificates"@);
    lemma_same_names_same_index(cs, cs2, "security"@);
    let i = crate::models::find_collector_index(cs, "security"@);
    if i >= 0 {
        if i == k {
            assert(cs2[k].data.get_spec("eset"@) == cs[k].data.get_spec("eset"@));
            assert(cs2[k].data.get_spec("defender"@) == cs[k].data.get_spec("defender"@));
            assert(cs2[k].data.get_spec("av_products"@) == cs[k].data.get_spec("av_products"@));
            assert(cs2[k].data.get_spec("firewall"@) == cs[k].data.get_spec("firewall"@));
            lemma_security_reads_four_entries(cs[k], cs2[k]);
        } else {
            assert(cs2[i] == cs[i]);
        }
    }
}


proof fn lemma_contains_left(x: Seq<char>, y: Seq<char>, p: Seq<char>)
    requires
        crate::text::contains(x, p),
    ensures
        crate::text::contains(x + y, p),
{
    let i = choose|i: int| #[trigger] crate::text::occurs_at(x, p, i);
    assert((x + y).subrange(i, i + p.len()) =~= x.subrange(i, i + p.len()));
    assert(crate::text::occurs_at(x + y, p, i));
}

proof fn lemma_contains_right(x: Seq<char>, y: Seq<char>, p: Seq<char>)
    requires
        crate::text::contains(y, p),
    ensures
        crate::text::contains(x + y, p),
{
    let i = choose|i: int| #[trigger] crate::text::occurs_at(y, p, i);
    assert((x + y).subrange(x.len() + i, x.len() + i + p.len()) =~= y.subrange(i, i + p.len()));
    assert(crate::text::occurs_at(x + y, p, x.len() + i));
}

proof fn lemma_contains_self(p: Seq<char>)
    ensures
        crate::text::contains(p, p),
{
    assert(p.subrange(0, p.len() as int) =~= p);
    assert(crate::text::occurs_at(p, p, 0));
}

proof fn lemma_contains_end(x: Seq<char>, p: Seq<char>)
    ensures
        crate::text::contains(x + p, p),
{
    lemma_contains_self(p);
    lemma_contains_right(x, p, p);
}

proof fn lemma_bullets_contain(ns: Seq<Seq<char>>, i: int)
    requires
        0 <= i < ns.len(),
    ensures
        crate::text::contains(md_bullets(ns), "- "@ + ns[i] + "\n"@),
    decreases ns.len(),
{
    let d = ns.drop_last();
    assert(md_bullets(ns) =~= md_bullets(d) + ("- "@ + ns.last() + "\n"@));
    if i == ns.len() - 1 {
        lemma_contains_end(md_bullets(d), "- "@ + ns.last() + "\n"@);
    } else {
        assert(d[i] == ns[i]);
        lemma_bullets_contain(d, i);
        lemma_contains_left(md_bullets(d), "- "@ + ns.last() + "\n"@, "- "@ + ns[i] + "\n"@);
    }
}

/// The compliance section opens with its heading and score line, shows every
/// category as a table row with its points and weight, lists each note as a
/// `- note` line under the notes title when there are notes, ends right after the
/// table when there are none, and always ends with a line break.
pub proof fn law_breakdown_markdown_layout(b: ScoreBreakdown)
    ensures
        crate::text::starts_with(breakdown_md(b), breakdown_head(b)),
        crate::text::contains(breakdown_md(b), md_row("Disco SMART"@, b.smart_disk, WEIGHT_SMART_DISK)),
        crate::text::contains(breakdown_md(b), md_row("Segurança (AV + firewall)"@, b.security, WEIGHT_SECURITY)),
        crate::text::contains(breakdown_md(b), md_row("Windows Update"@, b.windows_update, WEIGHT_WINDOWS_UPDATE)),
        crate::text::contains(breakdown_md(b), md_row("Eventos críticos"@, b.critical_events, WEIGHT_CRITICAL_EVENTS)),
        crate::text::contains(breakdown_md(b), md_row("Espaço em disco"@, b.disk_free, WEIGHT_DISK_FREE)),
        crate::text::contains(breakdown_md(b), md_row("Temperaturas"@, b.temperature, WEIGHT_TEMPERATURE)),
        crate::text::contains(breakdown_md(b), md_row("Certificados corporativos"@, b.certificates, WEIGHT_CERTIFICATES)),
        b.notes@.len() > 0 ==> crate::text::contains(breakdown_md(b), "\n**Observações:**\n"@),
        forall|i: int| 0 <= i < b.notes@.len() ==> crate::text::contains(breakdown_md(b), "- "@ + (#[trigger] b.notes@[i])@ + "\n"@),
        b.notes@.len() == 0 ==> breakdown_md(b) == breakdown_table(b) + "\n"@,
        crate::text::ends_with(breakdown_md(b), "\n"@),
{
    let md = breakdown_md(b);
    let h = breakdown_head(b);
    let t0 = h + "| Categoria | Pontos | Máximo |\n"@ + "|-----------|-------:|-------:|\n"@;
    let r1 = md_row("Disco SMART"@, b.smart_disk, WEIGHT_SMART_DISK);
    let r2 = md_row("Segurança (AV + firewall)"@, b.security, WEIGHT_SECURITY);
    let r3 = md_row("Windows Update"@, b.windows_update, WEIGHT_WINDOWS_UPDATE);
    let r4 = md_row("Eventos críticos"@, b.critical_events, WEIGHT_CRITICAL_EVENTS);
    let r5 = md_row("Espaço em disco"@, b.disk_free, WEIGHT_DISK_FREE);
    let r6 = md_row("Temperaturas"@, b.temperature, WEIGHT_TEMPERATURE);
    let r7 = md_row("Certificados corporativos"@, b.certificates, WEIGHT_CERTIFICATES);
    let t1 = t0 + r1;
    let t2 = t1 + r2;
    let t3 = t2 + r3;
    let t4 = t3 + r4;
    let t5 = t4 + r5;
    let t6 = t5 + r6;
    let t7 = t6 + r7;
    let n = breakdown_notes(b);
    assert(breakdown_table(b) == t7);
    let rest = n + "\n"@;
    assert(md =~= t7 + rest);
    // the head
    assert(md.subrange(0, h.len() as int) =~= h);
    // the rows
    lemma_contains_end(t0, r1);
    lemma_contains_left(t1, r2, r1);
    lemma_contains_end(t1, r2);
    lemma_contains_left(t2, r3, r1);
    lemma_contains_left(t2, r3, r2);
    lemma_contains_end(t2, r3);
    lemma_contains_left(t3, r4, r1);
    lemma_contains_left(t3, r4, r2);
    lemma_contains_left(t3, r4, r3);
    lemma_contains_end(t3, r4);
    lemma_contains_left(t4, r5, r1);
    lemma_contains_left(t4, r5, r2);
    lemma_contains_left(t4, r5, r3);
    lemma_contains_left(t4, r5, r4);
    lemma_contains_end(t4, r5);
    lemma_contains_left(t5, r6, r1);
    lemma_contains_left(t5, r6, r2);
    lemma_contains_left(t5, r6, r3);
    lemma_contains_left(t5, r6, r4);
    lemma_contains_left(t5, r6, r5);
    lemma_contains_end(t5, r6);
    lemma_contains_left(t6, r7, r1);
    lemma_contains_left(t6, r7, r2);
    lemma_contains_left(t6, r7, r3);
    lemma_contains_left(t6, r7, r4);
    lemma_contains_left(t6, r7, r5);
    lemma_contains_left(t6, r7, r6);
    lemma_contains_end(t6, r7);
    lemma_contains_left(t7, rest, r1);
    lemma_contains_left(t7, rest, r2);
    lemma_contains_left(t7, rest, r3);
    lemma_contains_left(t7, rest, r4);
    lemma_contains_left(t7, rest, r5);
    lemma_contains_left(t7, rest, r6);
    lemma_contains_left(t7, rest, r7);
    // the notes
    if b.notes@.len() > 0 {
        let title = "\n**Observações:**\n"@;
        let bl = md_bullets(views(b.notes@));
        assert(md =~= t7 + (title + bl + "\n"@));
        lemma_contains_self(title);
        lemma_contains_left(title, bl + "\n"@, title);
        assert(title + (bl + "\n"@) =~= title + bl + "\n"@);
        lemma_contains_right(t7, title + bl + "\n"@, title);
        assert forall|i: int| 0 <= i < b.notes@.len() implies crate::text::contains(md, "- "@ + (#[trigger] b.notes@[i])@ + "\n"@) by {
            let p = "- "@ + b.notes@[i]@ + "\n"@;
            assert(views(b.notes@)[i] == b.notes@[i]@);
            lemma_bullets_contain(views(b.notes@), i);
            lemma_contains_left(bl, "\n"@, p);
            lemma_contains_right(title, bl + "\n"@, p);
            lemma_contains_right(t7, title + bl + "\n"@, p);
        }
    }
    // the end
    assert(md =~= (t7 + n) + "\n"@);
    reveal_strlit("\n");
    assert(md.subrange(md.len() - 1, md.len() as int) =~= "\n"@);
}


proof fn lemma_digits_lack(n: nat, c: char)
    requires
        (c as u32) < 48 || (c as u32) > 57,
    ensures
        !nat_digits(n).contains(c),
    decreases n,
{
    if n < 10 {
        assert(nat_digits(n)[0] as u32 == 48 + n);
    } else {
        lemma_digits_lack(n / 10, c);
        let d = nat_digits(n / 10);
        assert(nat_digits(n)[d.len() as int] as u32 == 48 + n % 10);
        assert forall|i: int| 0 <= i < nat_digits(n).len() implies nat_digits(n)[i] != c by {
            if i < d.len() {
                assert(nat_digits(n)[i] == d[i]);
            }
        }
    }
}

proof fn lemma_concat_lacks(x: Seq<char>, y: Seq<char>, c: char)
    requires
        !x.contains(c),
        !y.contains(c),
    ensures
        !(x + y).contains(c),
{
    assert forall|i: int| 0 <= i < (x + y).len() implies (x + y)[i] != c by {
        if i < x.len() {
            assert((x + y)[i] == x[i]);
        } else {
            assert((x + y)[i] == y[i - x.len()]);
        }
    }
}

proof fn lemma_row_lacks(label: Seq<char>, points: u8, max: u8, c: char)
    requires
        !label.contains(c),
        (c as u32) >= 128,
    ensures
        !md_row(label, points, max).contains(c),
{
    reveal_strlit("| ");
    reveal_strlit(" | ");
    reveal_strlit(" |\n");
    assert(!"| "@.contains(c));
    assert(!" | "@.contains(c));
    assert(!" |\n"@.contains(c));
    lemma_digits_lack(points as nat, c);
    lemma_digits_lack(max as nat, c);
    lemma_concat_lacks("| "@, label, c);
    lemma_concat_lacks("| "@ + label, " | "@, c);
    lemma_concat_lacks("| "@ + label + " | "@, nat_digits(points as nat), c);
    lemma_concat_lacks("| "@ + label + " | "@ + nat_digits(points as nat), " | "@, c);
    lemma_concat_lacks("| "@ + label + " | "@ + nat_digits(points as nat) + " | "@, nat_digits(max as nat), c);
    lemma_concat_lacks("| "@ + label + " | "@ + nat_digits(points as nat) + " | "@ + nat_digits(max as nat), " |\n"@, c);
}

/// The text of a breakdown before its band.
spec fn before_band(total: u8) -> Seq<char> {
    "## Conformidade TI\n\n"@ + "**Score: "@ + nat_digits(total as nat) + "% — "@
}

/// The text of a breakdown without notes after its band.
spec fn after_band(b: ScoreBreakdown) -> Seq<char> {
    "**\n\n"@ + "| Categoria | Pontos | Máximo |\n"@ + "|-----------|-------:|-------:|\n"@
        + md_row("Disco SMART"@, b.smart_disk, WEIGHT_SMART_DISK)
        + md_row("Segurança (AV + firewall)"@, b.security, WEIGHT_SECURITY)
        + md_row("Windows Update"@, b.windows_update, WEIGHT_WINDOWS_UPDATE)
        + md_row("Eventos críticos"@, b.critical_events, WEIGHT_CRITICAL_EVENTS)
        + md_row("Espaço em disco"@, b.disk_free, WEIGHT_DISK_FREE)
        + md_row("Temperaturas"@, b.temperature, WEIGHT_TEMPERATURE)
        + md_row("Certificados corporativos"@, b.certificates, WEIGHT_CERTIFICATES) + "\n"@
}

proof fn lemma_split_at_band(b: ScoreBreakdown)
    requires
        b.notes@.len() == 0,
    ensures
        breakdown_md(b) == before_band(b.total) + b.band@ + after_band(b),
{
    assert(breakdown_md(b) =~= before_band(b.total) + b.band@ + after_band(b));
}

proof fn lemma_head_literals_lack()
    ensures
        !"## Conformidade TI\n\n"@.contains('õ'),
        !"**Score: "@.contains('õ'),
        !"% — "@.contains('õ'),
        "% — "@.len() > 0 && "% — "@.last() == ' ',
{
    reveal_strlit("## Conformidade TI\n\n");
    reveal_strlit("**Score: ");
    reveal_strlit("% — ");
}

proof fn lemma_table_literals_lack()
    ensures
        !"**\n\n"@.contains('õ'),
        "**\n\n"@.len() > 0 && "**\n\n"@[0] == '*',
        !"| Categoria | Pontos | Máximo |\n"@.contains('õ'),
        !"|-----------|-------:|-------:|\n"@.contains('õ'),
        !"\n"@.contains('õ'),
{
    reveal_strlit("**\n\n");
    reveal_strlit("| Categoria | Pontos | Máximo |\n");
    reveal_strlit("|-----------|-------:|-------:|\n");
    reveal_strlit("\n");
}

proof fn lemma_labels_lack()
    ensures
        !"Disco SMART"@.contains('õ'),
        !"Segurança (AV + firewall)"@.contains('õ'),
        !"Windows Update"@.contains('õ'),
        !"Eventos críticos"@.contains('õ'),
        !"Espaço em disco"@.contains('õ'),
        !"Temperaturas"@.contains('õ'),
        !"Certificados corporativos"@.contains('õ'),
{
    reveal_strlit("Disco SMART");
    reveal_strlit("Segurança (AV + firewall)");
    reveal_strlit("Windows Update");
    reveal_strlit("Eventos críticos");
    reveal_strlit("Espaço em disco");
    reveal_strlit("Temperaturas");
    reveal_strlit("Certificados corporativos");
}

proof fn lemma_before_band(total: u8)
    ensures
        !before_band(total).contains('õ'),
        before_band(total).len() > 0,
        before_band(total).last() == ' ',
{
    let c = 'õ';
    lemma_head_literals_lack();
    lemma_digits_lack(total as nat, c);
    let x = "## Conformidade TI\n\n"@ + "**Score: "@ + nat_digits(total as nat);
    lemma_concat_lacks("## Conformidade TI\n\n"@, "**Score: "@, c);
    lemma_concat_lacks("## Conformidade TI\n\n"@ + "**Score: "@, nat_digits(total as nat), c);
    lemma_concat_lacks(x, "% — "@, c);
    assert((x + "% — "@).last() == "% — "@.last());
}

proof fn lemma_after_band(b: ScoreBreakdown)
    ensures
        !after_band(b).contains('õ'),
        after_band(b).len() > 0,
        after_band(b)[0] == '*',
{
    let c = 'õ';
    lemma_table_literals_lack();
    lemma_labels_lack();
    let t1 = "**\n\n"@ + "| Categoria | Pontos | Máximo |\n"@ + "|-----------|-------:|-------:|\n"@;
    let r1 = md_row("Disco SMART"@, b.smart_disk, WEIGHT_SMART_DISK);
    let r2 = md_row("Segurança (AV + firewall)"@, b.security, WEIGHT_SECURITY);
    let r3 = md_row("Windows Update"@, b.windows_update, WEIGHT_WINDOWS_UPDATE);
    let r4 = md_row("Eventos críticos"@, b.critical_events, WEIGHT_CRITICAL_EVENTS);
    let r5 = md_row("Espaço em disco"@, b.disk_free, WEIGHT_DISK_FREE);
    let r6 = md_row("Temperaturas"@, b.temperature, WEIGHT_TEMPERATURE);
    let r7 = md_row("Certificados corporativos"@, b.certificates, WEIGHT_CERTIFICATES);
    lemma_row_lacks("Disco SMART"@, b.smart_disk, WEIGHT_SMART_DISK, c);
    lemma_row_lacks("Segurança (AV + firewall)"@, b.security, WEIGHT_SECURITY, c);
    lemma_row_lacks("Windows Update"@, b.windows_update, WEIGHT_WINDOWS_UPDATE, c);
    lemma_row_lacks("Eventos críticos"@, b.critical_events, WEIGHT_CRITICAL_EVENTS, c);
    lemma_row_lacks("Espaço em disco"@, b.disk_free, WEIGHT_DISK_FREE, c);
    lemma_row_lacks("Temperaturas"@, b.temperature, WEIGHT_TEMPERATURE, c);
    lemma_row_lacks("Certificados corporativos"@, b.certificates, WEIGHT_CERTIFICATES, c);
    lemma_concat_lacks("**\n\n"@, "| Categoria | Pontos | Máximo |\n"@, c);
    lemma_concat_lacks("**\n\n"@ + "| Categoria | Pontos | Máximo |\n"@, "|-----------|-------:|-------:|\n"@, c);
    lemma_concat_lacks(t1, r1, c);
    lemma_concat_lacks(t1 + r1, r2, c);
    lemma_concat_lacks(t1 + r1 + r2, r3, c);
    lemma_concat_lacks(t1 + r1 + r2 + r3, r4, c);
    lemma_concat_lacks(t1 + r1 + r2 + r3 + r4, r5, c);
    lemma_concat_lacks(t1 + r1 + r2 + r3 + r4 + r5, r6, c);
    lemma_concat_lacks(t1 + r1 + r2 + r3 + r4 + r5 + r6, r7, c);
    lemma_concat_lacks(t1 + r1 + r2 + r3 + r4 + r5 + r6 + r7, "\n"@, c);
    assert(after_band(b) == t1 + r1 + r2 + r3 + r4 + r5 + r6 + r7 + "\n"@);
    assert(after_band(b)[0] == "**\n\n"@[0]);
}

/// A text whose only `õ` lie in a middle part that lacks "Observações", between a
/// part ending in a space and one starting with `*`, lacks the notes title.
proof fn lemma_no_title(pre: Seq<char>, band: Seq<char>, post: Seq<char>)
    requires
        !pre.contains('õ'),
        !post.contains('õ'),
        pre.len() > 0 && pre.last() == ' ',
        post.len() > 0 && post[0] == '*',
        !crate::text::contains(band, "Observações"@),
    ensures
        !crate::text::contains(pre + band + post, "**Observações:**"@),
{
    let q = "**Observações:**"@;
    reveal_strlit("**Observações:**");
    reveal_strlit("Observações");
    let md = pre + band + post;
    let a = pre.len() as int;
    let bl = band.len() as int;
    if crate::text::contains(md, q) {
        let i = choose|i: int| #[trigger] crate::text::occurs_at(md, q, i);
        assert(md.subrange(i, i + q.len()) == q);
        assert(md[i + 10] == q[10]);
        if i + 10 < a {
            assert(md[i + 10] == pre[i + 10]);
            assert(pre.contains('õ'));
        }
        if i + 10 >= a + bl {
            assert(md[i + 10] == post[i + 10 - a - bl]);
            assert(post.contains('õ'));
        }
        if i + 2 < a {
            assert(md[a - 1] == pre[a - 1]);
            assert(md[a - 1] == q[a - 1 - i]);
        }
        if i + 13 > a + bl {
            assert(md[a + bl] == post[0]);
            assert(md[a + bl] == q[a + bl - i]);
        }
        assert(band.subrange(i + 2 - a, i + 13 - a) =~= q.subrange(2, 13));
        assert(q.subrange(2, 13) =~= "Observações"@);
        assert(crate::text::occurs_at(band, "Observações"@, i + 2 - a));
    }
}

proof fn lemma_title_inside(md: Seq<char>)
    requires
        crate::text::contains(md, "\n**Observações:**\n"@),
    ensures
        crate::text::contains(md, "**Observações:**"@),
{
    let q = "**Observações:**"@;
    let big = "\n**Observações:**\n"@;
    reveal_strlit("**Observações:**");
    reveal_strlit("\n**Observações:**\n");
    let i = choose|i: int| #[trigger] crate::text::occurs_at(md, big, i);
    assert(md.subrange(i, i + big.len()) == big);
    assert(big.len() == q.len() + 2);
    assert forall|k: int| 0 <= k < q.len() implies #[trigger] md.subrange(i + 1, i + 1 + q.len())[k] == q[k] by {
        assert(big[k + 1] == q[k]);
        assert(md.subrange(i, i + big.len())[k + 1] == md[i + 1 + k]);
    }
    assert(md.subrange(i + 1, i + 1 + q.len()) =~= q);
    assert(crate::text::occurs_at(md, q, i + 1));
}

/// The notes title appears in the compliance section exactly when there are notes,
/// provided the band's text does not itself hold the word "Observações".
pub proof fn law_breakdown_notes_title_iff_notes(b: ScoreBreakdown)
    requires
        !crate::text::contains(b.band@, "Observações"@),
    ensures
        crate::text::contains(breakdown_md(b), "**Observações:**"@) == (b.notes@.len() > 0),
{
    if b.notes@.len() > 0 {
        law_breakdown_markdown_layout(b);
        lemma_title_inside(breakdown_md(b));
    } else {
        lemma_split_at_band(b);
        lemma_before_band(b.total);
        lemma_after_band(b);
        lemma_no_title(before_band(b.total), b.band@, after_band(b));
    }
}


/// A failing disk takes all the SMART points: when any physical disk the hardware
/// collector lists reports the health status `Unhealthy` (ASCII case aside), the SMART
/// category scores 0 and notes the imminent failure, whatever the other disks report.
pub proof fn law_unhealthy_disk_zeroes_smart(cs: Seq<CollectorResult>, hw: CollectorResult, disks: Seq<Json>, i: int, health: Seq<char>)
    requires
        find_collector(cs, "hardware"@) == Some(hw),
        get_array(hw.data, "physical_disks"@) == Some(disks),
        0 <= i < disks.len(),
        get_str(disks[i], "health_status"@) == Some(health),
        eq_ignore_case(health, "Unhealthy"@),
    ensures
        smart_of(cs).0 == 0,
        smart_of(cs).1 == seq!["SMART: falha iminente detectada."@],
        total_spec(cs) == security_of(cs).0 + windows_update_of(cs).0 + critical_events_of(cs).0
            + disk_free_of(cs).0 + temperature_of(cs).0 + certificates_of(cs).0,
{
    assert(is_unhealthy(disks[i]));
    law_score_within_weights(cs);
}

/// A disk with a health warning and no failing disk costs the SMART category nearly
/// all its points: it scores 40% of its weight as the saturating 8-bit arithmetic
/// computes it (30 × 40 saturates at 255, and 255 / 100 is 2).
pub proof fn law_warning_disk_costs_smart(cs: Seq<CollectorResult>, hw: CollectorResult, disks: Seq<Json>, i: int, health: Seq<char>)
    requires
        find_collector(cs, "hardware"@) == Some(hw),
        get_array(hw.data, "physical_disks"@) == Some(disks),
        0 <= i < disks.len(),
        get_str(disks[i], "health_status"@) == Some(health),
        eq_ignore_case(health, "Warning"@),
        forall|k: int| 0 <= k < disks.len() ==> !(get_str(#[trigger] disks[k], "health_status"@) matches Some(h) && eq_ignore_case(h, "Unhealthy"@)),
    ensures
        smart_of(cs).0 == 2,
{
    reveal_strlit("Warning");
    reveal_strlit("Unhealthy");
    assert(crate::text::ascii_lower("Warning"@) != crate::text::ascii_lower("Unhealthy"@)) by {
        assert(crate::text::ascii_lower("Warning"@).len() != crate::text::ascii_lower("Unhealthy"@).len());
    }
    assert(is_warning(disks[i]));
    assert forall|k: int| 0 <= k < disks.len() implies !#[trigger] is_unhealthy(disks[k]) by {
        if get_str(disks[k], "health_status"@) is None {
            assert(crate::text::ascii_lower(health_of(disks[k])).len() == 0);
        }
    }
    assert(!(exists|k: int| 0 <= k < disks.len() && #[trigger] is_unhealthy(disks[k])));
    assert(exists|k: int| 0 <= k < disks.len() && #[trigger] is_warning(disks[k]));
    assert(sat_pct(WEIGHT_SMART_DISK, 40) == 2);
}


/// Healthy disks keep the full SMART weight: when the hardware collector lists at
/// least one physical disk and none reports `Unhealthy` or `Warning` (ASCII case
/// aside), the SMART category scores all its 30 points.
pub proof fn law_healthy_disks_keep_smart(cs: Seq<CollectorResult>, hw: CollectorResult, disks: Seq<Json>)
    requires
        find_collector(cs, "hardware"@) == Some(hw),
        get_array(hw.data, "physical_disks"@) == Some(disks),
        disks.len() > 0,
        forall|k: int| 0 <= k < disks.len() ==> !(get_str(#[trigger] disks[k], "health_status"@) matches Some(h)
            && (eq_ignore_case(h, "Unhealthy"@) || eq_ignore_case(h, "Warning"@))),
    ensures
        smart_of(cs).0 == WEIGHT_SMART_DISK,
{
    reveal_strlit("Warning");
    reveal_strlit("Unhealthy");
    assert forall|k: int| 0 <= k < disks.len() implies !#[trigger] is_unhealthy(disks[k]) && !is_warning(disks[k]) by {
        if get_str(disks[k], "health_status"@) is None {
            assert(crate::text::ascii_lower(health_of(disks[k])).len() == 0);
        }
    }
    assert(!(exists|k: int| 0 <= k < disks.len() && #[trigger] is_unhealthy(disks[k])));
    assert(!(exists|k: int| 0 <= k < disks.len() && #[trigger] is_warning(disks[k])));
}

/// Without disk health data the SMART category is neutral: with no hardware
/// collector, or one that lists no physical disk, it scores 22 of 30.
pub proof fn law_no_smart_data_is_neutral(cs: Seq<CollectorResult>)
    requires
        match find_collector(cs, "hardware"@) {
            None => true,
            Some(hw) => match get_array(hw.data, "physical_disks"@) {
                None => true,
                Some(d) => d.len() == 0,
            },
        },
    ensures
        smart_of(cs).0 == 22,
{
}

} // verus!
