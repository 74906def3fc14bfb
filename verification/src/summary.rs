//! The dashboard's summary of a machine: network, remote access, identity, system,
//! e-mail, licences and stability read from its collectors, then its standard
//! programs, licence keys, antivirus and contact e-mail.

use vstd::prelude::*;
use crate::admin::{copy_admin, copy_opt, display_email, display_email_spec, ostr, MachineAdmin};
use crate::compliance::views;
use crate::json::{get_array, get_bool, get_str, get_u64, json_array, json_bool, json_str, json_u64, Json};
use crate::models::{CollectorResult, CompanyProfile, MachineSummary};
use crate::standard_apps::{
    apps_view, detect_spec, detect_standard_apps, eset_info_spec, eset_status, eset_status_spec,
    extract_eset_info, extract_license_keys, keys_view, license_spec, AppV, EsetInfo,
    LicenseKeysSummary, StandardAppStatus,
};
use crate::text::{chars, contains, eq_v, extend_str, lt_v, seq_lt, str_eq, to_string, vviews};

verus! {

pub struct MachineHighlight {
    pub machine: MachineSummary,
    pub lan_ip: Option<String>,
    pub lan_ips: Vec<String>,
    pub tailscale_installed: bool,
    pub tailscale_connected: bool,
    pub tailscale_ip: Option<String>,
    pub tailscale_dns: Option<String>,
    pub tailscale_startup: bool,
    pub anydesk_id: Option<String>,
    pub anydesk_running: bool,
    pub os_version: Option<String>,
    pub model: Option<String>,
    pub has_recent_bsod: bool,
    pub last_bsod_summary: Option<String>,
    pub last_bugcheck_code: Option<String>,
    pub system_errors_count: u32,
    pub windows_product_key: Option<String>,
    pub windows_key_partial: Option<String>,
    pub office_licenses: Vec<String>,
    pub thunderbird_emails: Vec<String>,
    pub thunderbird_profile: Option<String>,
    pub admin: MachineAdmin,
    pub display_email: Option<String>,
    pub standard_apps: Vec<StandardAppStatus>,
    pub standard_apps_installed: u32,
    pub license_keys: LicenseKeysSummary,
    pub eset_installed: bool,
    pub eset_product: Option<String>,
    pub eset_info: EsetInfo,
    pub banking_app_installed: bool,
    pub banking_app_version: Option<String>,
    pub folder_access: Vec<String>,
    pub installed_apps: Vec<String>,
}

/// What the collectors tell of a machine, as texts.
pub struct Facts {
    pub logged_user: Option<Seq<char>>,
    pub uptime_seconds: Option<u64>,
    pub ip_address: Option<Seq<char>>,
    pub lan_ip: Option<Seq<char>>,
    pub lan_ips: Seq<Seq<char>>,
    pub tailscale_installed: bool,
    pub tailscale_connected: bool,
    pub tailscale_ip: Option<Seq<char>>,
    pub tailscale_dns: Option<Seq<char>>,
    pub tailscale_startup: bool,
    pub anydesk_id: Option<Seq<char>>,
    pub anydesk_running: bool,
    pub os_version: Option<Seq<char>>,
    pub model: Option<Seq<char>>,
    pub has_recent_bsod: bool,
    pub last_bsod_summary: Option<Seq<char>>,
    pub last_bugcheck_code: Option<Seq<char>>,
    pub system_errors_count: u32,
    pub windows_product_key: Option<Seq<char>>,
    pub windows_key_partial: Option<Seq<char>>,
    pub office_licenses: Seq<Seq<char>>,
    pub thunderbird_emails: Seq<Seq<char>>,
    pub thunderbird_profile: Option<Seq<char>>,
    pub folder_access: Seq<Seq<char>>,
}

pub open spec fn facts(h: MachineHighlight) -> Facts {
    Facts {
        logged_user: ostr(h.machine.logged_user),
        uptime_seconds: h.machine.uptime_seconds,
        ip_address: ostr(h.machine.ip_address),
        lan_ip: ostr(h.lan_ip),
        lan_ips: views(h.lan_ips@),
        tailscale_installed: h.tailscale_installed,
        tailscale_connected: h.tailscale_connected,
        tailscale_ip: ostr(h.tailscale_ip),
        tailscale_dns: ostr(h.tailscale_dns),
        tailscale_startup: h.tailscale_startup,
        anydesk_id: ostr(h.anydesk_id),
        anydesk_running: h.anydesk_running,
        os_version: ostr(h.os_version),
        model: ostr(h.model),
        has_recent_bsod: h.has_recent_bsod,
        last_bsod_summary: ostr(h.last_bsod_summary),
        last_bugcheck_code: ostr(h.last_bugcheck_code),
        system_errors_count: h.system_errors_count,
        windows_product_key: ostr(h.windows_product_key),
        windows_key_partial: ostr(h.windows_key_partial),
        office_licenses: views(h.office_licenses@),
        thunderbird_emails: views(h.thunderbird_emails@),
        thunderbird_profile: ostr(h.thunderbird_profile),
        folder_access: views(h.folder_access@),
    }
}

/// The facts before any collector is read: what the machine record has, nothing else.
pub open spec fn initial_facts(m: MachineSummary) -> Facts {
    Facts {
        logged_user: ostr(m.logged_user),
        uptime_seconds: m.uptime_seconds,
        ip_address: ostr(m.ip_address),
        lan_ip: None,
        lan_ips: Seq::empty(),
        tailscale_installed: false,
        tailscale_connected: false,
        tailscale_ip: None,
        tailscale_dns: None,
        tailscale_startup: false,
        anydesk_id: None,
        anydesk_running: false,
        os_version: None,
        model: None,
        has_recent_bsod: false,
        last_bsod_summary: None,
        last_bugcheck_code: None,
        system_errors_count: 0,
        windows_product_key: None,
        windows_key_partial: None,
        office_licenses: Seq::empty(),
        thunderbird_emails: Seq::empty(),
        thunderbird_profile: None,
        folder_access: Seq::empty(),
    }
}

// ---------------------------------------------------------------------------
// Lists read from arrays
// ---------------------------------------------------------------------------

/// The texts of an array, in order (other values skipped).
pub open spec fn texts(arr: Seq<Json>) -> Seq<Seq<char>>
    decreases arr.len(),
{
    if arr.len() == 0 {
        Seq::empty()
    } else {
        let p = texts(arr.drop_last());
        match arr.last().str_spec() {
            Some(s) => p.push(s),
            None => p,
        }
    }
}

fn texts_v(arr: &Vec<Json>) -> (r: Vec<String>)
    ensures
        views(r@) == texts(arr@),
{
    let mut r: Vec<String> = Vec::new();
    let mut i: usize = 0;
    assert(views(r@) =~= texts(arr@.take(0)));
    while i < arr.len()
        invariant
            i <= arr@.len(),
            views(r@) == texts(arr@.take(i as int)),
        decreases arr@.len() - i,
    {
        assert(arr@.take(i + 1).drop_last() =~= arr@.take(i as int));
        assert(arr@.take(i + 1).last() == arr@[i as int]);
        if let Some(s) = arr[i].as_str() {
            let ghost r0 = r@;
            r.push(s.to_owned());
            assert(views(r@) =~= views(r0).push(s@)) by {
                assert forall|k: int| 0 <= k < r0.len() implies #[trigger] views(r@)[k] == views(r0)[k] by {
                    assert(r@[k] == r0[k]);
                }
            }
        }
        i = i + 1;
    }
    assert(arr@.take(arr@.len() as int) =~= arr@);
    r
}

/// A mapped folder: `local → remote`, or whichever of the two is there.
pub open spec fn folder_entry(m: Json) -> Option<Seq<char>> {
    match (get_str(m, "local"@), get_str(m, "remote"@)) {
        (Some(l), Some(r)) => Some(l + " → "@ + r),
        (_, Some(r)) => Some(r),
        (Some(l), None) => Some(l),
        _ => None,
    }
}

/// An Office licence: its name or product id, with the key's last digits.
pub open spec fn office_entry(o: Json) -> Option<Seq<char>> {
    match (get_str(o, "license_name"@), get_str(o, "product_id"@), get_str(o, "key_partial"@)) {
        (Some(n), _, Some(k)) => Some(n + " (***-"@ + k + ")"@),
        (Some(n), _, _) => Some(n),
        (_, Some(i), Some(k)) => Some(i + " (***-"@ + k + ")"@),
        (_, Some(i), _) => Some(i),
        _ => None,
    }
}

pub open spec fn entries(arr: Seq<Json>, office: bool) -> Seq<Seq<char>>
    decreases arr.len(),
{
    if arr.len() == 0 {
        Seq::empty()
    } else {
        let p = entries(arr.drop_last(), office);
        match if office {
            office_entry(arr.last())
        } else {
            folder_entry(arr.last())
        } {
            Some(s) => p.push(s),
            None => p,
        }
    }
}

fn folder_entry_v(m: &Json) -> (r: Option<String>)
    ensures
        ostr(r) == folder_entry(*m),
{
    match (json_str(m, "local"), json_str(m, "remote")) {
        (Some(l), Some(r)) => {
            let mut t = chars(l);
            extend_str(&mut t, " → ");
            extend_str(&mut t, r);
            Some(to_string(&t))
        },
        (_, Some(r)) => Some(r.to_owned()),
        (Some(l), None) => Some(l.to_owned()),
        _ => None,
    }
}

fn office_entry_v(o: &Json) -> (r: Option<String>)
    ensures
        ostr(r) == office_entry(*o),
{
    let name = json_str(o, "license_name");
    let id = json_str(o, "product_id");
    let key = json_str(o, "key_partial");
    let head = match name {
        Some(n) => Some(n),
        None => id,
    };
    match head {
        Some(h) => match key {
            Some(k) => {
                let mut t = chars(h);
                extend_str(&mut t, " (***-");
                extend_str(&mut t, k);
                extend_str(&mut t, ")");
                Some(to_string(&t))
            },
            None => Some(h.to_owned()),
        },
        None => None,
    }
}

fn entries_v(arr: &Vec<Json>, office: bool) -> (r: Vec<String>)
    ensures
        views(r@) == entries(arr@, office),
{
    let mut r: Vec<String> = Vec::new();
    let mut i: usize = 0;
    assert(views(r@) =~= entries(arr@.take(0), office));
    while i < arr.len()
        invariant
            i <= arr@.len(),
            views(r@) == entries(arr@.take(i as int), office),
        decreases arr@.len() - i,
    {
        assert(arr@.take(i + 1).drop_last() =~= arr@.take(i as int));
        assert(arr@.take(i + 1).last() == arr@[i as int]);
        let e = if office {
            office_entry_v(&arr[i])
        } else {
            folder_entry_v(&arr[i])
        };
        if let Some(s) = e {
            let ghost r0 = r@;
            r.push(s);
            assert(views(r@) =~= views(r0).push(r@[r0.len() as int]@)) by {
                assert forall|k: int| 0 <= k < r0.len() implies #[trigger] views(r@)[k] == views(r0)[k] by {
                    assert(r@[k] == r0[k]);
                }
            }
        }
        i = i + 1;
    }
    assert(arr@.take(arr@.len() as int) =~= arr@);
    r
}

/// Index of the first address without `:` (IPv4), or -1.
pub open spec fn first_ipv4(all: Seq<Seq<char>>) -> int
    decreases all.len(),
{
    if all.len() == 0 {
        -1
    } else if !contains(all[0], ":"@) {
        0
    } else {
        let r = first_ipv4(all.drop_first());
        if r < 0 {
            -1
        } else {
            r + 1
        }
    }
}

/// The first address without `:` (IPv4), else the first one.
pub open spec fn pick_ipv4(all: Seq<Seq<char>>) -> Option<Seq<char>> {
    let i = first_ipv4(all);
    if i >= 0 {
        Some(all[i])
    } else if all.len() > 0 {
        Some(all[0])
    } else {
        None
    }
}

proof fn lemma_first_ipv4_at(all: Seq<Seq<char>>, i: int)
    requires
        0 <= i <= all.len(),
        forall|j: int| 0 <= j < i ==> contains(#[trigger] all[j], ":"@),
        i == all.len() || !contains(all[i], ":"@),
    ensures
        first_ipv4(all) == if i == all.len() {
            -1
        } else {
            i
        },
    decreases i,
{
    if i > 0 {
        let t = all.drop_first();
        assert forall|j: int| 0 <= j < i - 1 implies contains(#[trigger] t[j], ":"@) by {
            assert(t[j] == all[j + 1]);
        }
        if i - 1 < t.len() {
            assert(t[i - 1] == all[i]);
        }
        lemma_first_ipv4_at(t, i - 1);
    }
}

fn pick_ipv4_v(all: &Vec<String>) -> (r: Option<String>)
    ensures
        ostr(r) == pick_ipv4(views(all@)),
{
    let ghost av = views(all@);
    let colon = chars(":");
    let mut i: usize = 0;
    while i < all.len()
        invariant
            i <= all@.len(),
            av == views(all@),
            colon@ == ":"@,
            forall|j: int| 0 <= j < i ==> contains(#[trigger] av[j], ":"@),
        decreases all@.len() - i,
    {
        assert(av[i as int] == all@[i as int]@);
        let a = chars(all[i].as_str());
        if !crate::text::contains_v(&a, &colon) {
            proof {
                lemma_first_ipv4_at(av, i as int);
            }
            return Some(all[i].clone());
        }
        i = i + 1;
    }
    proof {
        lemma_first_ipv4_at(av, i as int);
    }
    if all.len() > 0 {
        assert(av[0] == all@[0]@);
        Some(all[0].clone())
    } else {
        None
    }
}

// ---------------------------------------------------------------------------
// Sorted addresses without duplicates
// ---------------------------------------------------------------------------

/// Inserts a text into a list sorted by `seq_lt`, unless it is already there.
pub open spec fn insert_unique(acc: Seq<Seq<char>>, x: Seq<char>) -> Seq<Seq<char>>
    decreases acc.len(),
{
    if acc.len() == 0 {
        seq![x]
    } else if acc.last() == x {
        acc
    } else if seq_lt(acc.last(), x) {
        acc.push(x)
    } else {
        insert_unique(acc.drop_last(), x).push(acc.last())
    }
}

/// The texts sorted (`Ord` for strings), duplicates removed (`sort` then `dedup`).
pub open spec fn sort_dedup(s: Seq<Seq<char>>) -> Seq<Seq<char>>
    decreases s.len(),
{
    if s.len() == 0 {
        s
    } else {
        insert_unique(sort_dedup(s.drop_last()), s.last())
    }
}

proof fn lemma_insert_unique_at(acc: Seq<Seq<char>>, x: Seq<char>, j: int)
    requires
        0 <= j <= acc.len(),
        forall|k: int| j <= k < acc.len() ==> #[trigger] acc[k] != x && !seq_lt(acc[k], x),
        j == 0 || acc[j - 1] == x || seq_lt(acc[j - 1], x),
    ensures
        insert_unique(acc, x) == if j > 0 && acc[j - 1] == x {
            acc
        } else {
            acc.insert(j, x)
        },
    decreases acc.len(),
{
    if acc.len() == 0 {
        assert(acc.insert(j, x) =~= seq![x]);
    } else if j == acc.len() {
        if acc.last() != x {
            assert(acc.insert(j, x) =~= acc.push(x));
        }
    } else {
        let t = acc.drop_last();
        assert(acc.last() == acc[acc.len() - 1]);
        assert forall|k: int| j <= k < t.len() implies #[trigger] t[k] != x && !seq_lt(t[k], x) by {
            assert(t[k] == acc[k]);
        }
        if j > 0 {
            assert(t[j - 1] == acc[j - 1]);
        }
        lemma_insert_unique_at(t, x, j);
        if !(j > 0 && acc[j - 1] == x) {
            assert(t.insert(j, x).push(acc.last()) =~= acc.insert(j, x));
        } else {
            assert(t.push(acc.last()) =~= acc);
        }
    }
}

fn sort_dedup_v(v: Vec<String>) -> (r: Vec<String>)
    ensures
        views(r@) == sort_dedup(views(v@)),
{
    let ghost vv = views(v@);
    let mut out: Vec<Vec<char>> = Vec::new();
    let mut i: usize = 0;
    assert(vviews(out@) =~= sort_dedup(vv.take(0)));
    while i < v.len()
        invariant
            i <= v@.len(),
            vv == views(v@),
            vviews(out@) == sort_dedup(vv.take(i as int)),
        decreases v@.len() - i,
    {
        let x = chars(v[i].as_str());
        assert(vv.take(i + 1).drop_last() =~= vv.take(i as int));
        assert(vv.take(i + 1).last() == x@);
        let ghost cur = vviews(out@);
        let mut j: usize = out.len();
        while j > 0 && !eq_v(&out[j - 1], &x) && !lt_v(&out[j - 1], &x)
            invariant
                j <= out@.len(),
                cur == vviews(out@),
                forall|k: int| j <= k < out@.len() ==> #[trigger] cur[k] != x@ && !seq_lt(cur[k], x@),
            decreases j,
        {
            assert(cur[j - 1] == out@[j - 1]@);
            j = j - 1;
        }
        proof {
            if j > 0 {
                assert(cur[j - 1] == out@[j - 1]@);
            }
            lemma_insert_unique_at(cur, x@, j as int);
        }
        if !(j > 0 && eq_v(&out[j - 1], &x)) {
            let ghost xv = x@;
            out.insert(j, x);
            assert(vviews(out@) =~= cur.insert(j as int, xv));
        }
        i = i + 1;
    }
    assert(vv.take(v@.len() as int) =~= vv);
    let mut r: Vec<String> = Vec::new();
    let mut k: usize = 0;
    while k < out.len()
        invariant
            k <= out@.len(),
            r@.len() == k,
            forall|m: int| 0 <= m < k ==> #[trigger] r@[m]@ == out@[m]@,
        decreases out@.len() - k,
    {
        r.push(to_string(&out[k]));
        k = k + 1;
    }
    assert(views(r@) =~= vviews(out@));
    r
}

// ---------------------------------------------------------------------------
// What each collector tells
// ---------------------------------------------------------------------------

pub open spec fn flag(v: Json, key: Seq<char>) -> bool {
    get_bool(v, key) == Some(true)
}

pub open spec fn network_step(f: Facts, d: Json) -> Facts {
    let lan_ips = match get_array(d, "lan_ips"@) {
        Some(a) => texts(a),
        None => f.lan_ips,
    };
    let lan_ip = match get_str(d, "primary_lan_ip"@) {
        Some(ip) => Some(ip),
        None => if lan_ips.len() > 0 {
            Some(lan_ips[0])
        } else {
            None
        },
    };
    let folders = match get_array(d, "smb_mappings"@) {
        Some(a) => entries(a, false),
        None => f.folder_access,
    };
    Facts { lan_ip: lan_ip, lan_ips: lan_ips, folder_access: folders, ..f }
}

pub open spec fn remote_step(f: Facts, d: Json) -> Facts {
    let f1 = match d.get_spec("tailscale"@) {
        Some(ts) => Facts {
            tailscale_installed: flag(ts, "installed"@),
            tailscale_connected: flag(ts, "connected"@),
            tailscale_startup: flag(ts, "startup_automatic"@),
            tailscale_dns: get_str(ts, "dns_name"@),
            tailscale_ip: match get_array(ts, "tailscale_ips"@) {
                Some(a) => pick_ipv4(texts(a)),
                None => f.tailscale_ip,
            },
            ..f
        },
        None => f,
    };
    match d.get_spec("anydesk"@) {
        Some(ad) => Facts {
            anydesk_id: get_str(ad, "client_id"@),
            anydesk_running: flag(ad, "service_running"@),
            ..f1
        },
        None => f1,
    }
}

pub open spec fn identity_step(f: Facts, d: Json) -> Facts {
    Facts {
        model: get_str(d, "model"@),
        lan_ip: if f.lan_ip is None {
            get_str(d, "ip_primary"@)
        } else {
            f.lan_ip
        },
        logged_user: if f.logged_user is None {
            get_str(d, "logged_user"@)
        } else {
            f.logged_user
        },
        uptime_seconds: if f.uptime_seconds is None {
            get_u64(d, "uptime_seconds"@)
        } else {
            f.uptime_seconds
        },
        ip_address: if f.ip_address is None {
            get_str(d, "ip_primary"@)
        } else {
            f.ip_address
        },
        ..f
    }
}

pub open spec fn hardware_step(f: Facts, d: Json) -> Facts {
    if f.model is None {
        Facts {
            model: match d.get_spec("system"@) {
                Some(sys) => get_str(sys, "model"@),
                None => None,
            },
            ..f
        }
    } else {
        f
    }
}

pub open spec fn os_step(f: Facts, d: Json) -> Facts {
    Facts { os_version: get_str(d, "caption"@), ..f }
}

/// Every address of every Thunderbird profile, in order.
pub open spec fn profile_emails(ps: Seq<Json>) -> Seq<Seq<char>>
    decreases ps.len(),
{
    if ps.len() == 0 {
        Seq::empty()
    } else {
        profile_emails(ps.drop_last()) + match get_array(ps.last(), "emails"@) {
            Some(es) => texts(es),
            None => Seq::empty(),
        }
    }
}

pub open spec fn email_step(f: Facts, d: Json) -> Facts {
    let f1 = match d.get_spec("thunderbird_summary"@) {
        Some(sm) => Facts {
            thunderbird_profile: get_str(sm, "default_profile"@),
            thunderbird_emails: match get_array(sm, "all_emails"@) {
                Some(a) => texts(a),
                None => f.thunderbird_emails,
            },
            ..f
        },
        None => f,
    };
    if f1.thunderbird_emails.len() == 0 {
        match get_array(d, "thunderbird"@) {
            Some(ps) => Facts { thunderbird_emails: sort_dedup(profile_emails(ps)), ..f1 },
            None => f1,
        }
    } else {
        f1
    }
}

pub open spec fn licensing_step(f: Facts, d: Json) -> Facts {
    let f1 = match d.get_spec("windows"@) {
        Some(w) => Facts {
            windows_product_key: get_str(w, "product_key"@),
            windows_key_partial: get_str(w, "product_key_partial"@),
            ..f
        },
        None => f,
    };
    match get_array(d, "office"@) {
        Some(a) => Facts { office_licenses: entries(a, true), ..f1 },
        None => f1,
    }
}

pub open spec fn events_step(f: Facts, d: Json) -> Facts {
    match d.get_spec("summary"@) {
        Some(s) => Facts {
            has_recent_bsod: flag(s, "has_recent_bsod"@),
            last_bsod_summary: get_str(s, "last_bsod_summary"@),
            last_bugcheck_code: get_str(s, "last_bugcheck_code"@),
            system_errors_count: (match get_u64(s, "system_errors_count"@) {
                Some(n) => n,
                None => 0,
            }) as u32,
            ..f
        },
        None => f,
    }
}

/// What one collector result changes, by its name.
pub open spec fn facts_step(f: Facts, c: CollectorResult) -> Facts {
    let n = c.name@;
    if n == "network"@ {
        network_step(f, c.data)
    } else if n == "remote_access"@ {
        remote_step(f, c.data)
    } else if n == "identity"@ {
        identity_step(f, c.data)
    } else if n == "hardware"@ {
        hardware_step(f, c.data)
    } else if n == "os"@ {
        os_step(f, c.data)
    } else if n == "email"@ {
        email_step(f, c.data)
    } else if n == "licensing"@ {
        licensing_step(f, c.data)
    } else if n == "event_logs"@ {
        events_step(f, c.data)
    } else {
        f
    }
}

/// The facts after reading every result in order (a later result of a name wins).
pub open spec fn facts_fold(f: Facts, cs: Seq<CollectorResult>) -> Facts
    decreases cs.len(),
{
    if cs.len() == 0 {
        f
    } else {
        facts_step(facts_fold(f, cs.drop_last()), cs.last())
    }
}

// ---------------------------------------------------------------------------
// Reading the collectors
// ---------------------------------------------------------------------------

/// Everything of the summary but the facts is as it was.
pub open spec fn same_rest(a: MachineHighlight, b: MachineHighlight) -> bool {
    &&& a.machine.id == b.machine.id
    &&& a.machine.hostname == b.machine.hostname
    &&& a.machine.serial == b.machine.serial
    &&& a.machine.status == b.machine.status
    &&& a.machine.last_seen == b.machine.last_seen
    &&& a.machine.first_seen == b.machine.first_seen
    &&& a.machine.health_score == b.machine.health_score
    &&& a.admin == b.admin
    &&& a.display_email == b.display_email
    &&& a.standard_apps == b.standard_apps
    &&& a.standard_apps_installed == b.standard_apps_installed
    &&& a.license_keys == b.license_keys
    &&& a.eset_installed == b.eset_installed
    &&& a.eset_product == b.eset_product
    &&& a.eset_info == b.eset_info
    &&& a.banking_app_installed == b.banking_app_installed
    &&& a.banking_app_version == b.banking_app_version
    &&& a.installed_apps == b.installed_apps
}

fn opt_text(v: &Json, key: &str) -> (r: Option<String>)
    ensures
        ostr(r) == get_str(*v, key@),
{
    match json_str(v, key) {
        Some(s) => Some(s.to_owned()),
        None => None,
    }
}

fn flag_v(v: &Json, key: &str) -> (r: bool)
    ensures
        r == flag(*v, key@),
{
    match json_bool(v, key) {
        Some(b) => b,
        None => false,
    }
}

fn network_v(h: &mut MachineHighlight, d: &Json)
    ensures
        facts(*final(h)) == network_step(facts(*old(h)), *d),
        same_rest(*old(h), *final(h)),
{
    h.lan_ip = opt_text(d, "primary_lan_ip");
    if let Some(arr) = json_array(d, "lan_ips") {
        h.lan_ips = texts_v(arr);
    }
    if h.lan_ip.is_none() {
        h.lan_ip = if h.lan_ips.len() > 0 {
            Some(h.lan_ips[0].clone())
        } else {
            None
        };
    }
    if let Some(smb) = json_array(d, "smb_mappings") {
        h.folder_access = entries_v(smb, false);
    }
    assert(facts(*h) == network_step(facts(*old(h)), *d));
}

fn remote_v(h: &mut MachineHighlight, d: &Json)
    ensures
        facts(*final(h)) == remote_step(facts(*old(h)), *d),
        same_rest(*old(h), *final(h)),
{
    if let Some(ts) = d.get("tailscale") {
        h.tailscale_installed = flag_v(ts, "installed");
        h.tailscale_connected = flag_v(ts, "connected");
        h.tailscale_startup = flag_v(ts, "startup_automatic");
        h.tailscale_dns = opt_text(ts, "dns_name");
        if let Some(ips) = json_array(ts, "tailscale_ips") {
            let all = texts_v(ips);
            h.tailscale_ip = pick_ipv4_v(&all);
        }
    }
    let ghost mid = facts(*h);
    if let Some(ad) = d.get("anydesk") {
        h.anydesk_id = opt_text(ad, "client_id");
        h.anydesk_running = flag_v(ad, "service_running");
    }
    assert(facts(*h) == remote_step(facts(*old(h)), *d));
}

fn identity_v(h: &mut MachineHighlight, d: &Json)
    ensures
        facts(*final(h)) == identity_step(facts(*old(h)), *d),
        same_rest(*old(h), *final(h)),
{
    h.model = opt_text(d, "model");
    if h.lan_ip.is_none() {
        h.lan_ip = opt_text(d, "ip_primary");
    }
    if h.machine.logged_user.is_none() {
        h.machine.logged_user = opt_text(d, "logged_user");
    }
    if h.machine.uptime_seconds.is_none() {
        h.machine.uptime_seconds = json_u64(d, "uptime_seconds");
    }
    if h.machine.ip_address.is_none() {
        h.machine.ip_address = opt_text(d, "ip_primary");
    }
    assert(facts(*h) == identity_step(facts(*old(h)), *d));
}

fn hardware_v(h: &mut MachineHighlight, d: &Json)
    ensures
        facts(*final(h)) == hardware_step(facts(*old(h)), *d),
        same_rest(*old(h), *final(h)),
{
    if h.model.is_none() {
        h.model = match d.get("system") {
            Some(sys) => opt_text(sys, "model"),
            None => None,
        };
    }
    assert(facts(*h) == hardware_step(facts(*old(h)), *d));
}

fn os_v(h: &mut MachineHighlight, d: &Json)
    ensures
        facts(*final(h)) == os_step(facts(*old(h)), *d),
        same_rest(*old(h), *final(h)),
{
    h.os_version = opt_text(d, "caption");
    assert(facts(*h) == os_step(facts(*old(h)), *d));
}

fn profile_emails_v(ps: &Vec<Json>) -> (r: Vec<String>)
    ensures
        views(r@) == profile_emails(ps@),
{
    let mut r: Vec<String> = Vec::new();
    let mut i: usize = 0;
    assert(views(r@) =~= profile_emails(ps@.take(0)));
    while i < ps.len()
        invariant
            i <= ps@.len(),
            views(r@) == profile_emails(ps@.take(i as int)),
        decreases ps@.len() - i,
    {
        assert(ps@.take(i + 1).drop_last() =~= ps@.take(i as int));
        assert(ps@.take(i + 1).last() == ps@[i as int]);
        if let Some(es) = json_array(&ps[i], "emails") {
            let t = texts_v(es);
            let ghost r0 = r@;
            let mut k: usize = 0;
            while k < t.len()
                invariant
                    k <= t@.len(),
                    r@.len() == r0.len() + k,
                    views(r@) == views(r0) + views(t@).take(k as int),
                decreases t@.len() - k,
            {
                let ghost r1 = r@;
                r.push(t[k].clone());
                k = k + 1;
                assert(views(r@) =~= views(r0) + views(t@).take(k as int)) by {
                    assert forall|m: int| 0 <= m < r1.len() implies #[trigger] views(r@)[m] == views(r1)[m] by {
                        assert(r@[m] == r1[m]);
                    }
                }
            }
            assert(views(t@).take(t@.len() as int) =~= views(t@));
        } else {
            assert(profile_emails(ps@.take(i + 1)) =~= profile_emails(ps@.take(i as int)));
        }
        i = i + 1;
    }
    assert(ps@.take(ps@.len() as int) =~= ps@);
    r
}

fn email_v(h: &mut MachineHighlight, d: &Json)
    ensures
        facts(*final(h)) == email_step(facts(*old(h)), *d),
        same_rest(*old(h), *final(h)),
{
    if let Some(sm) = d.get("thunderbird_summary") {
        h.thunderbird_profile = opt_text(sm, "default_profile");
        if let Some(arr) = json_array(sm, "all_emails") {
            h.thunderbird_emails = texts_v(arr);
        }
    }
    if h.thunderbird_emails.len() == 0 {
        if let Some(ps) = json_array(d, "thunderbird") {
            let all = profile_emails_v(ps);
            h.thunderbird_emails = sort_dedup_v(all);
        }
    }
    assert(facts(*h) == email_step(facts(*old(h)), *d));
}

fn licensing_v(h: &mut MachineHighlight, d: &Json)
    ensures
        facts(*final(h)) == licensing_step(facts(*old(h)), *d),
        same_rest(*old(h), *final(h)),
{
    if let Some(w) = d.get("windows") {
        h.windows_product_key = opt_text(w, "product_key");
        h.windows_key_partial = opt_text(w, "product_key_partial");
    }
    if let Some(office) = json_array(d, "office") {
        h.office_licenses = entries_v(office, true);
    }
    assert(facts(*h) == licensing_step(facts(*old(h)), *d));
}

fn events_v(h: &mut MachineHighlight, d: &Json)
    ensures
        facts(*final(h)) == events_step(facts(*old(h)), *d),
        same_rest(*old(h), *final(h)),
{
    if let Some(sm) = d.get("summary") {
        h.has_recent_bsod = flag_v(sm, "has_recent_bsod");
        h.last_bsod_summary = opt_text(sm, "last_bsod_summary");
        h.last_bugcheck_code = opt_text(sm, "last_bugcheck_code");
        let n: u64 = match json_u64(sm, "system_errors_count") {
            Some(n) => n,
            None => 0,
        };
        h.system_errors_count = n as u32;
    }
    assert(facts(*h) == events_step(facts(*old(h)), *d));
}

fn facts_step_v(h: &mut MachineHighlight, c: &CollectorResult)
    ensures
        facts(*final(h)) == facts_step(facts(*old(h)), *c),
        same_rest(*old(h), *final(h)),
{
    let n = c.name.as_str();
    if str_eq(n, "network") {
        network_v(h, &c.data);
    } else if str_eq(n, "remote_access") {
        remote_v(h, &c.data);
    } else if str_eq(n, "identity") {
        identity_v(h, &c.data);
    } else if str_eq(n, "hardware") {
        hardware_v(h, &c.data);
    } else if str_eq(n, "os") {
        os_v(h, &c.data);
    } else if str_eq(n, "email") {
        email_v(h, &c.data);
    } else if str_eq(n, "licensing") {
        licensing_v(h, &c.data);
    } else if str_eq(n, "event_logs") {
        events_v(h, &c.data);
    }
}

// ---------------------------------------------------------------------------
// The summary
// ---------------------------------------------------------------------------

pub open spec fn installed_count(apps: Seq<AppV>) -> nat
    decreases apps.len(),
{
    if apps.len() == 0 {
        0
    } else {
        installed_count(apps.drop_last()) + if apps.last().3 {
            1nat
        } else {
            0nat
        }
    }
}

pub open spec fn installed_labels(apps: Seq<AppV>) -> Seq<Seq<char>>
    decreases apps.len(),
{
    if apps.len() == 0 {
        Seq::empty()
    } else {
        let p = installed_labels(apps.drop_last());
        if apps.last().3 {
            p.push(apps.last().1)
        } else {
            p
        }
    }
}

/// The banking program's state: whether it is installed and its version, from the
/// first standard program with its id.
pub open spec fn banking_spec(apps: Seq<AppV>, id: Seq<char>) -> (bool, Option<Seq<char>>)
    decreases apps.len(),
{
    if apps.len() == 0 {
        (false, None)
    } else if apps[0].0 == id {
        (apps[0].3, apps[0].4)
    } else {
        banking_spec(apps.drop_first(), id)
    }
}

/// The facts of the summary: those the collectors give, with the Windows keys of the
/// licence summary where the `licensing` result has none.
pub open spec fn summary_facts(m: MachineSummary, cs: Seq<CollectorResult>) -> Facts {
    let f = facts_fold(initial_facts(m), cs);
    let lic = license_spec(cs);
    Facts {
        windows_key_partial: if f.windows_key_partial is None {
            lic.0
        } else {
            f.windows_key_partial
        },
        windows_product_key: if f.windows_product_key is None {
            lic.1
        } else {
            f.windows_product_key
        },
        ..f
    }
}

pub open spec fn summary_matches(
    r: MachineHighlight,
    m: MachineSummary,
    cs: Seq<CollectorResult>,
    admin: MachineAdmin,
    profile: CompanyProfile,
) -> bool {
    let apps = detect_spec(cs, profile);
    &&& facts(r) == summary_facts(m, cs)
    &&& r.machine.id@ == m.id@
    &&& r.machine.hostname@ == m.hostname@
    &&& r.machine.serial == m.serial
    &&& r.machine.status == m.status
    &&& r.machine.last_seen == m.last_seen
    &&& r.machine.first_seen == m.first_seen
    &&& r.machine.health_score == m.health_score
    &&& r.admin@ == admin@
    &&& apps_view(r.standard_apps@) == apps
    &&& r.standard_apps_installed == installed_count(apps) as u32
    &&& (r.banking_app_installed, ostr(r.banking_app_version)) == banking_spec(apps, profile.banking_app.id@)
    &&& views(r.installed_apps@) == installed_labels(apps)
    &&& (ostr(r.license_keys.windows_key_partial), ostr(r.license_keys.windows_product_key), keys_view(
        r.license_keys.office_keys@,
    )) == license_spec(cs)
    &&& r.eset_info@ == eset_info_spec(cs)
    &&& (r.eset_installed, ostr(r.eset_product)) == eset_status_spec(cs)
    &&& ostr(r.display_email) == display_email_spec(admin, r.thunderbird_emails@)
}

fn apps_post(apps: &Vec<StandardAppStatus>, banking_id: &str) -> (r: (usize, bool, Option<String>, Vec<String>))
    ensures
        r.0 == installed_count(apps_view(apps@)),
        (r.1, ostr(r.2)) == banking_spec(apps_view(apps@), banking_id@),
        views(r.3@) == installed_labels(apps_view(apps@)),
{
    let ghost av = apps_view(apps@);
    let mut count: usize = 0;
    let mut labels: Vec<String> = Vec::new();
    let mut bank: Option<usize> = None;
    let mut i: usize = 0;
    assert(av.take(0) =~= Seq::<AppV>::empty());
    assert(av.skip(0) =~= av);
    assert(views(labels@) =~= Seq::<Seq<char>>::empty());
    while i < apps.len()
        invariant
            i <= apps@.len(),
            av == apps_view(apps@),
            count == installed_count(av.take(i as int)),
            count <= i,
            views(labels@) == installed_labels(av.take(i as int)),
            match bank {
                Some(k) => k < i && banking_spec(av, banking_id@) == banking_spec(av.skip(k as int), banking_id@)
                    && av[k as int].0 == banking_id@,
                None => banking_spec(av, banking_id@) == banking_spec(av.skip(i as int), banking_id@),
            },
        decreases apps@.len() - i,
    {
        let a = &apps[i];
        assert(av[i as int] == a@);
        assert(av.take(i + 1).drop_last() =~= av.take(i as int));
        assert(av.take(i + 1).last() == a@);
        if a.installed {
            count = count + 1;
            let ghost l0 = labels@;
            labels.push(a.label.clone());
            assert(views(labels@) =~= views(l0).push(a.label@)) by {
                assert forall|m: int| 0 <= m < l0.len() implies #[trigger] views(labels@)[m] == views(l0)[m] by {
                    assert(labels@[m] == l0[m]);
                }
            }
        }
        if bank.is_none() {
            assert(av.skip(i as int)[0] == av[i as int]);
            assert(av.skip(i as int).drop_first() =~= av.skip(i + 1));
            if str_eq(a.id.as_str(), banking_id) {
                bank = Some(i);
            }
        }
        i = i + 1;
    }
    assert(av.take(av.len() as int) =~= av);
    match bank {
        Some(k) => {
            assert(av.skip(k as int)[0] == av[k as int]);
            assert(av[k as int] == apps@[k as int]@);
            (count, apps[k].installed, copy_opt(&apps[k].version), labels)
        },
        None => {
            assert(av.skip(i as int).len() == 0);
            (count, false, None, labels)
        },
    }
}

/// The dashboard's summary of a machine.
pub fn extract_highlights(
    machine: MachineSummary,
    collectors: &[CollectorResult],
    admin: &MachineAdmin,
    profile: &CompanyProfile,
) -> (r: MachineHighlight)
    ensures
        summary_matches(r, machine, collectors@, *admin, *profile),
{
    let ghost m0 = machine;
    let mut h = MachineHighlight {
        machine,
        lan_ip: None,
        lan_ips: Vec::new(),
        tailscale_installed: false,
        tailscale_connected: false,
        tailscale_ip: None,
        tailscale_dns: None,
        tailscale_startup: false,
        anydesk_id: None,
        anydesk_running: false,
        os_version: None,
        model: None,
        has_recent_bsod: false,
        last_bsod_summary: None,
        last_bugcheck_code: None,
        system_errors_count: 0,
        windows_product_key: None,
        windows_key_partial: None,
        office_licenses: Vec::new(),
        thunderbird_emails: Vec::new(),
        thunderbird_profile: None,
        admin: copy_admin(admin),
        display_email: None,
        standard_apps: Vec::new(),
        standard_apps_installed: 0,
        license_keys: LicenseKeysSummary {
            windows_key_partial: None,
            windows_product_key: None,
            office_keys: Vec::new(),
        },
        eset_installed: false,
        eset_product: None,
        eset_info: EsetInfo {
            installed: false,
            product_name: None,
            version: None,
            agent_version: None,
            install_path: None,
            service_running: false,
            real_time_active: None,
        },
        banking_app_installed: false,
        banking_app_version: None,
        folder_access: Vec::new(),
        installed_apps: Vec::new(),
    };
    assert(views(h.lan_ips@) =~= Seq::<Seq<char>>::empty());
    assert(views(h.office_licenses@) =~= Seq::<Seq<char>>::empty());
    assert(views(h.thunderbird_emails@) =~= Seq::<Seq<char>>::empty());
    assert(views(h.folder_access@) =~= Seq::<Seq<char>>::empty());
    assert(facts(h) == initial_facts(m0));
    let ghost h0 = h;
    let mut i: usize = 0;
    assert(collectors@.take(0) =~= Seq::<CollectorResult>::empty());
    while i < collectors.len()
        invariant
            i <= collectors@.len(),
            facts(h) == facts_fold(initial_facts(m0), collectors@.take(i as int)),
            same_rest(h0, h),
        decreases collectors@.len() - i,
    {
        assert(collectors@.take(i + 1).drop_last() =~= collectors@.take(i as int));
        assert(collectors@.take(i + 1).last() == collectors@[i as int]);
        facts_step_v(&mut h, &collectors[i]);
        i = i + 1;
    }
    assert(collectors@.take(collectors@.len() as int) =~= collectors@);
    h.license_keys = extract_license_keys(collectors);
    if h.windows_key_partial.is_none() {
        h.windows_key_partial = copy_opt(&h.license_keys.windows_key_partial);
    }
    if h.windows_product_key.is_none() {
        h.windows_product_key = copy_opt(&h.license_keys.windows_product_key);
    }
    h.standard_apps = detect_standard_apps(collectors, profile);
    let (count, bank_installed, bank_version, labels) = apps_post(&h.standard_apps, profile.banking_app.id.as_str());
    h.standard_apps_installed = count as u32;
    h.banking_app_installed = bank_installed;
    h.banking_app_version = bank_version;
    h.installed_apps = labels;
    h.eset_info = extract_eset_info(collectors);
    let (eset, eset_name) = eset_status(collectors);
    h.eset_installed = eset;
    h.eset_product = eset_name;
    h.display_email = display_email(admin, h.thunderbird_emails.as_slice());
    assert(facts(h) == summary_facts(m0, collectors@));
    h
}

proof fn lemma_lt_irrefl(a: Seq<char>)
    ensures
        !seq_lt(a, a),
    decreases a.len(),
{
    if a.len() > 0 {
        lemma_lt_irrefl(a.drop_first());
    }
}

pub(crate) proof fn lemma_lt_trans(a: Seq<char>, b: Seq<char>, c: Seq<char>)
    requires
        seq_lt(a, b),
        seq_lt(b, c),
    ensures
        seq_lt(a, c),
    decreases a.len(),
{
    if a.len() > 0 && b.len() > 0 && c.len() > 0 && a[0] == b[0] && b[0] == c[0] {
        lemma_lt_trans(a.drop_first(), b.drop_first(), c.drop_first());
    }
}

proof fn lemma_lt_total(a: Seq<char>, b: Seq<char>)
    requires
        a != b,
    ensures
        seq_lt(a, b) || seq_lt(b, a),
    decreases a.len(),
{
    if a.len() > 0 && b.len() > 0 {
        if a[0] == b[0] {
            if a.drop_first() == b.drop_first() {
                assert(a =~= seq![a[0]] + a.drop_first());
                assert(b =~= seq![b[0]] + b.drop_first());
            }
            lemma_lt_total(a.drop_first(), b.drop_first());
        } else {
            let x = a[0];
            let y = b[0];
            if (x as u32) == (y as u32) {
                vstd::utf8::char_u32_cast(x, x as u32);
                vstd::utf8::char_u32_cast(y, y as u32);
            }
        }
    } else if a.len() == 0 && b.len() == 0 {
        assert(a =~= b);
    }
}

/// Each text is before the next: sorted, with no text twice.
pub open spec fn strictly_sorted(s: Seq<Seq<char>>) -> bool {
    forall|i: int, j: int| 0 <= i < j < s.len() ==> seq_lt(#[trigger] s[i], #[trigger] s[j])
}

proof fn lemma_insert_unique(acc: Seq<Seq<char>>, x: Seq<char>)
    requires
        strictly_sorted(acc),
    ensures
        strictly_sorted(insert_unique(acc, x)),
        forall|k: int|
            0 <= k < insert_unique(acc, x).len() ==> #[trigger] insert_unique(acc, x)[k] == x || acc.contains(
                insert_unique(acc, x)[k],
            ),
        insert_unique(acc, x).contains(x),
        forall|k: int| 0 <= k < acc.len() ==> insert_unique(acc, x).contains(#[trigger] acc[k]),
    decreases acc.len(),
{
    let r = insert_unique(acc, x);
    if acc.len() == 0 {
        assert(r[0] == x);
    } else if acc.last() == x {
        assert(r[acc.len() - 1] == x);
    } else if seq_lt(acc.last(), x) {
        assert forall|i: int, j: int| 0 <= i < j < r.len() implies seq_lt(#[trigger] r[i], #[trigger] r[j]) by {
            if j == r.len() - 1 {
                if i < acc.len() - 1 {
                    lemma_lt_trans(acc[i], acc.last(), x);
                }
            }
        }
        assert(r[acc.len() as int] == x);
        assert forall|k: int| 0 <= k < acc.len() implies r.contains(#[trigger] acc[k]) by {
            assert(r[k] == acc[k]);
        }
        assert forall|k: int| 0 <= k < r.len() implies #[trigger] r[k] == x || acc.contains(r[k]) by {
            if k < acc.len() {
                assert(r[k] == acc[k]);
            }
        }
    } else {
        let t = acc.drop_last();
        assert forall|i: int, j: int| 0 <= i < j < t.len() implies seq_lt(#[trigger] t[i], #[trigger] t[j]) by {
            assert(t[i] == acc[i] && t[j] == acc[j]);
        }
        lemma_insert_unique(t, x);
        let u = insert_unique(t, x);
        lemma_lt_total(x, acc.last());
        assert forall|k: int| 0 <= k < u.len() implies seq_lt(#[trigger] u[k], acc.last()) by {
            if u[k] != x {
                assert(t.contains(u[k]));
                let q = choose|q: int| 0 <= q < t.len() && t[q] == u[k];
                assert(acc[q] == t[q]);
            }
        }
        assert forall|i: int, j: int| 0 <= i < j < r.len() implies seq_lt(#[trigger] r[i], #[trigger] r[j]) by {
            if j == r.len() - 1 {
                assert(r[i] == u[i]);
            } else {
                assert(r[i] == u[i] && r[j] == u[j]);
            }
        }
        assert(u.contains(x));
        let w = choose|w: int| 0 <= w < u.len() && u[w] == x;
        assert(r[w] == x);
        assert forall|k: int| 0 <= k < acc.len() implies r.contains(#[trigger] acc[k]) by {
            if k == acc.len() - 1 {
                assert(r[r.len() - 1] == acc[k]);
            } else {
                assert(t[k] == acc[k]);
                assert(u.contains(t[k]));
                let v = choose|v: int| 0 <= v < u.len() && u[v] == t[k];
                assert(r[v] == u[v]);
            }
        }
        assert forall|k: int| 0 <= k < r.len() implies #[trigger] r[k] == x || acc.contains(r[k]) by {
            if k == r.len() - 1 {
                assert(acc[acc.len() - 1] == r[k]);
            } else {
                assert(r[k] == u[k]);
                if u[k] != x {
                    assert(t.contains(u[k]));
                    let q = choose|q: int| 0 <= q < t.len() && t[q] == u[k];
                    assert(acc[q] == t[q]);
                }
            }
        }
    }
}

/// Sorting without duplicates gives each text of the input exactly once, in order:
/// the result is strictly sorted and holds exactly the input's texts.
pub proof fn law_sort_dedup_sorted_and_complete(s: Seq<Seq<char>>)
    ensures
        strictly_sorted(sort_dedup(s)),
        forall|x: Seq<char>| sort_dedup(s).contains(x) <==> s.contains(x),
    decreases s.len(),
{
    if s.len() > 0 {
        let d = s.drop_last();
        law_sort_dedup_sorted_and_complete(d);
        lemma_insert_unique(sort_dedup(d), s.last());
        let r = sort_dedup(s);
        assert forall|x: Seq<char>| r.contains(x) <==> s.contains(x) by {
            if r.contains(x) {
                let k = choose|k: int| 0 <= k < r.len() && r[k] == x;
                if x != s.last() {
                    assert(sort_dedup(d).contains(x));
                    assert(d.contains(x));
                    let q = choose|q: int| 0 <= q < d.len() && d[q] == x;
                    assert(s[q] == d[q]);
                } else {
                    assert(s[s.len() - 1] == x);
                }
            }
            if s.contains(x) {
                let q = choose|q: int| 0 <= q < s.len() && s[q] == x;
                if q < s.len() - 1 {
                    assert(d[q] == s[q]);
                    assert(d.contains(x));
                    assert(sort_dedup(d).contains(x));
                    let k = choose|k: int| 0 <= k < sort_dedup(d).len() && sort_dedup(d)[k] == x;
                    assert(r.contains(sort_dedup(d)[k]));
                }
            }
        }
    }
}

} // verus!
