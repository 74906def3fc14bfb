//! The company's standard software: which programs a machine has, read from the
//! `software`, `remote_access`, `email` and `security` collectors, completed with
//! the programs that every machine must have, and in the dashboard's order.

use vstd::prelude::*;
use crate::admin::{copy_opt, ostr};
use crate::ext::{to_lowercase, lower_text};
use crate::json::{get_array, get_bool, get_str, get_u64, json_array, json_bool, json_str, json_string, json_u64, Json};
use crate::models::{find_collector, find_collector_exec, CollectorResult, CompanyProfile};
use crate::text::{lt_v, seq_lt, chars, contains, contains_v, eq_v, extend, extend_str, fmt_u64, join, join_v, nat_digits, to_string, vviews, str_eq};

verus! {

pub struct StandardAppStatus {
    pub id: String,
    pub label: String,
    pub category: String,
    pub installed: bool,
    pub version: Option<String>,
    pub detail: Option<String>,
}

pub type AppV = (Seq<char>, Seq<char>, Seq<char>, bool, Option<Seq<char>>, Option<Seq<char>>);

impl View for StandardAppStatus {
    type V = AppV;

    open spec fn view(&self) -> AppV {
        (self.id@, self.label@, self.category@, self.installed, ostr(self.version), ostr(self.detail))
    }
}

pub open spec fn apps_view(v: Seq<StandardAppStatus>) -> Seq<AppV> {
    v.map_values(|a: StandardAppStatus| a@)
}

fn copy_app(a: &StandardAppStatus) -> (r: StandardAppStatus)
    ensures
        r@ == a@,
{
    StandardAppStatus {
        id: a.id.clone(),
        label: a.label.clone(),
        category: a.category.clone(),
        installed: a.installed,
        version: copy_opt(&a.version),
        detail: copy_opt(&a.detail),
    }
}

// ---------------------------------------------------------------------------
// Upsert and required programs
// ---------------------------------------------------------------------------

pub open spec fn app_index(apps: Seq<AppV>, id: Seq<char>) -> int
    decreases apps.len(),
{
    if apps.len() == 0 {
        -1
    } else if apps[0].0 == id {
        0
    } else {
        let r = app_index(apps.drop_first(), id);
        if r < 0 {
            -1
        } else {
            r + 1
        }
    }
}

pub proof fn lemma_app_index_at(apps: Seq<AppV>, id: Seq<char>, i: int)
    requires
        0 <= i <= apps.len(),
        forall|j: int| 0 <= j < i ==> apps[j].0 != id,
        i == apps.len() || apps[i].0 == id,
    ensures
        app_index(apps, id) == if i == apps.len() {
            -1
        } else {
            i
        },
    decreases i,
{
    if i > 0 {
        let t = apps.drop_first();
        assert forall|j: int| 0 <= j < i - 1 implies t[j].0 != id by {
            assert(t[j] == apps[j + 1]);
        }
        if i - 1 < t.len() {
            assert(t[i - 1] == apps[i]);
        }
        lemma_app_index_at(t, id, i - 1);
    }
}

/// Replace the first program with the same id, or append.
pub open spec fn upsert_spec(apps: Seq<AppV>, app: AppV) -> Seq<AppV> {
    let i = app_index(apps, app.0);
    if i < 0 {
        apps.push(app)
    } else {
        apps.update(i, app)
    }
}

fn find_app(apps: &Vec<StandardAppStatus>, id: &str) -> (r: Option<usize>)
    ensures
        match r {
            Some(i) => app_index(apps_view(apps@), id@) == i && i < apps@.len(),
            None => app_index(apps_view(apps@), id@) == -1,
        },
{
    let ghost v = apps_view(apps@);
    let mut i: usize = 0;
    while i < apps.len()
        invariant
            i <= apps@.len(),
            v == apps_view(apps@),
            forall|j: int| 0 <= j < i ==> v[j].0 != id@,
        decreases apps@.len() - i,
    {
        assert(v[i as int] == apps@[i as int]@);
        if str_eq(apps[i].id.as_str(), id) {
            proof {
                lemma_app_index_at(v, id@, i as int);
            }
            return Some(i);
        }
        i = i + 1;
    }
    proof {
        lemma_app_index_at(v, id@, i as int);
    }
    None
}

pub fn upsert_app(apps: &mut Vec<StandardAppStatus>, app: StandardAppStatus)
    ensures
        apps_view(final(apps)@) == upsert_spec(apps_view(old(apps)@), app@),
{
    let ghost a = app@;
    match find_app(apps, app.id.as_str()) {
        Some(i) => {
            apps.set(i, app);
            assert(apps_view(apps@) =~= apps_view(old(apps)@).update(i as int, a));
        },
        None => {
            apps.push(app);
            assert(apps_view(apps@) =~= apps_view(old(apps)@).push(a));
        },
    }
}

pub open spec fn missing_app(id: Seq<char>, label: Seq<char>, cat: Seq<char>) -> AppV {
    (id, label, cat, false, None, None)
}

/// Append the program unless one with the same id is already listed.
pub open spec fn ensure_spec(apps: Seq<AppV>, id: Seq<char>, label: Seq<char>, cat: Seq<char>) -> Seq<
    AppV,
> {
    if app_index(apps, id) >= 0 {
        apps
    } else {
        apps.push(missing_app(id, label, cat))
    }
}

/// The programs every machine must list: banking app, Office trio, antivirus,
/// AnyDesk, Thunderbird, Affinity, then one per ERP branch.
pub open spec fn required_list(p: CompanyProfile) -> Seq<(Seq<char>, Seq<char>, Seq<char>)> {
    seq![
        (p.banking_app.id@, p.banking_app.label@, "bancario"@),
        ("office"@, "Microsoft Office"@, "escritorio"@),
        ("excel"@, "Microsoft Excel"@, "escritorio"@),
        ("word"@, "Microsoft Word"@, "escritorio"@),
        ("eset"@, p.antivirus_name@, "seguranca"@),
        ("anydesk"@, "AnyDesk"@, "acesso"@),
        ("thunderbird"@, "Thunderbird"@, "email"@),
        ("affinity"@, "Affinity Canva"@, "design"@),
    ] + p.erp_branches@.map_values(
        |b: crate::models::ErpBranchConfig| (b.id@, b.label@, "erp"@),
    )
}

pub open spec fn ensure_all(apps: Seq<AppV>, req: Seq<(Seq<char>, Seq<char>, Seq<char>)>) -> Seq<
    AppV,
>
    decreases req.len(),
{
    if req.len() == 0 {
        apps
    } else {
        let r = req.last();
        ensure_spec(ensure_all(apps, req.drop_last()), r.0, r.1, r.2)
    }
}

proof fn lemma_ensure_all_step(
    apps: Seq<AppV>,
    req: Seq<(Seq<char>, Seq<char>, Seq<char>)>,
    k: int,
)
    requires
        0 <= k < req.len(),
    ensures
        ensure_all(apps, req.take(k + 1)) == ensure_spec(
            ensure_all(apps, req.take(k)),
            req[k].0,
            req[k].1,
            req[k].2,
        ),
{
    assert(req.take(k + 1).drop_last() =~= req.take(k));
    assert(req.take(k + 1).last() == req[k]);
}

fn ensure_one(apps: &mut Vec<StandardAppStatus>, id: &str, label: &str, cat: &str)
    ensures
        apps_view(final(apps)@) == ensure_spec(apps_view(old(apps)@), id@, label@, cat@),
{
    match find_app(apps, id) {
        Some(_) => {},
        None => {
            let a = StandardAppStatus {
                id: id.to_owned(),
                label: label.to_owned(),
                category: cat.to_owned(),
                installed: false,
                version: None,
                detail: None,
            };
            apps.push(a);
            assert(apps_view(apps@) =~= apps_view(old(apps)@).push(missing_app(id@, label@, cat@)));
        },
    }
}

fn ensure_required_apps(apps: &mut Vec<StandardAppStatus>, profile: &CompanyProfile)
    ensures
        apps_view(final(apps)@) == ensure_all(apps_view(old(apps)@), required_list(*profile)),
{
    let ghost a0 = apps_view(apps@);
    let ghost req = required_list(*profile);
    proof {
        assert(req.take(0) =~= Seq::<(Seq<char>, Seq<char>, Seq<char>)>::empty());
    }
    assert(req[0] == (profile.banking_app.id@, profile.banking_app.label@, "bancario"@));
    proof {
        lemma_ensure_all_step(a0, req, 0);
    }
    ensure_one(apps, profile.banking_app.id.as_str(), profile.banking_app.label.as_str(), "bancario");
    assert(apps_view(apps@) == ensure_all(a0, req.take(1)));
    assert(req[1] == ("office"@, "Microsoft Office"@, "escritorio"@));
    proof {
        lemma_ensure_all_step(a0, req, 1);
    }
    ensure_one(apps, "office", "Microsoft Office", "escritorio");
    assert(apps_view(apps@) == ensure_all(a0, req.take(2)));
    assert(req[2] == ("excel"@, "Microsoft Excel"@, "escritorio"@));
    proof {
        lemma_ensure_all_step(a0, req, 2);
    }
    ensure_one(apps, "excel", "Microsoft Excel", "escritorio");
    assert(apps_view(apps@) == ensure_all(a0, req.take(3)));
    assert(req[3] == ("word"@, "Microsoft Word"@, "escritorio"@));
    proof {
        lemma_ensure_all_step(a0, req, 3);
    }
    ensure_one(apps, "word", "Microsoft Word", "escritorio");
    assert(apps_view(apps@) == ensure_all(a0, req.take(4)));
    assert(req[4] == ("eset"@, profile.antivirus_name@, "seguranca"@));
    proof {
        lemma_ensure_all_step(a0, req, 4);
    }
    ensure_one(apps, "eset", profile.antivirus_name.as_str(), "seguranca");
    assert(apps_view(apps@) == ensure_all(a0, req.take(5)));
    assert(req[5] == ("anydesk"@, "AnyDesk"@, "acesso"@));
    proof {
        lemma_ensure_all_step(a0, req, 5);
    }
    ensure_one(apps, "anydesk", "AnyDesk", "acesso");
    assert(apps_view(apps@) == ensure_all(a0, req.take(6)));
    assert(req[6] == ("thunderbird"@, "Thunderbird"@, "email"@));
    proof {
        lemma_ensure_all_step(a0, req, 6);
    }
    ensure_one(apps, "thunderbird", "Thunderbird", "email");
    assert(apps_view(apps@) == ensure_all(a0, req.take(7)));
    assert(req[7] == ("affinity"@, "Affinity Canva"@, "design"@));
    proof {
        lemma_ensure_all_step(a0, req, 7);
    }
    ensure_one(apps, "affinity", "Affinity Canva", "design");
    assert(apps_view(apps@) == ensure_all(a0, req.take(8)));
    let mut i: usize = 0;
    while i < profile.erp_branches.len()
        invariant
            i <= profile.erp_branches@.len(),
            req == required_list(*profile),
            req.len() == 8 + profile.erp_branches@.len(),
            apps_view(apps@) == ensure_all(a0, req.take(8 + i)),
        decreases profile.erp_branches@.len() - i,
    {
        let b = &profile.erp_branches[i];
        assert(req[8 + i] == (b.id@, b.label@, "erp"@));
        proof {
            lemma_ensure_all_step(a0, req, 8 + i);
        }
        ensure_one(apps, b.id.as_str(), b.label.as_str(), "erp");
        i = i + 1;
    }
    assert(req.take(req.len() as int) =~= req);
}

// ---------------------------------------------------------------------------
// From the software collector
// ---------------------------------------------------------------------------

pub open spec fn flag(v: Json, key: Seq<char>) -> bool {
    get_bool(v, key) == Some(true)
}

fn flag_v(v: &Json, key: &str) -> (r: bool)
    ensures
        r == flag(*v, key@),
{
    match json_bool(v, key) {
        Some(b) => b,
        None => false,
    }
}

/// One entry of `software.standard_apps`, when it has an id, a label and a category.
pub open spec fn software_app(v: Json) -> Option<AppV> {
    match (get_str(v, "id"@), get_str(v, "label"@), get_str(v, "category"@)) {
        (Some(i), Some(l), Some(c)) => Some(
            (i, l, c, flag(v, "installed"@), get_str(v, "version"@), get_str(v, "detail"@)),
        ),
        _ => None,
    }
}

pub open spec fn software_apps(arr: Seq<Json>) -> Seq<AppV>
    decreases arr.len(),
{
    if arr.len() == 0 {
        Seq::empty()
    } else {
        match software_app(arr.last()) {
            Some(a) => software_apps(arr.drop_last()).push(a),
            None => software_apps(arr.drop_last()),
        }
    }
}

/// The software collector's own list, when it has a non-empty one.
pub open spec fn from_software_spec(cs: Seq<CollectorResult>) -> Option<Seq<AppV>> {
    match find_collector(cs, "software"@) {
        Some(sw) => match get_array(sw.data, "standard_apps"@) {
            Some(arr) => if arr.len() == 0 {
                None
            } else {
                Some(software_apps(arr))
            },
            None => None,
        },
        None => None,
    }
}

fn software_app_v(v: &Json) -> (r: Option<StandardAppStatus>)
    ensures
        match r {
            Some(a) => software_app(*v) == Some(a@),
            None => software_app(*v) is None,
        },
{
    let id = json_string(v, "id");
    let label = json_string(v, "label");
    let cat = json_string(v, "category");
    match (id, label, cat) {
        (Some(i), Some(l), Some(c)) => Some(
            StandardAppStatus {
                id: i,
                label: l,
                category: c,
                installed: flag_v(v, "installed"),
                version: json_string(v, "version"),
                detail: json_string(v, "detail"),
            },
        ),
        _ => None,
    }
}

fn load_from_software_collector(collectors: &[CollectorResult]) -> (r: Option<Vec<StandardAppStatus>>)
    ensures
        match r {
            Some(v) => from_software_spec(collectors@) == Some(apps_view(v@)),
            None => from_software_spec(collectors@) is None,
        },
{
    let software = match find_collector_exec(collectors, "software") {
        Some(s) => s,
        None => return None,
    };
    let arr = match json_array(&software.data, "standard_apps") {
        Some(a) => a,
        None => return None,
    };
    if arr.len() == 0 {
        return None;
    }
    let mut out: Vec<StandardAppStatus> = Vec::new();
    let mut i: usize = 0;
    while i < arr.len()
        invariant
            i <= arr@.len(),
            apps_view(out@) == software_apps(arr@.take(i as int)),
        decreases arr@.len() - i,
    {
        assert(arr@.take(i + 1).drop_last() =~= arr@.take(i as int));
        assert(arr@.take(i + 1).last() == arr@[i as int]);
        match software_app_v(&arr[i]) {
            Some(a) => {
                let ghost av = a@;
                out.push(a);
                assert(apps_view(out@) =~= software_apps(arr@.take(i as int)).push(av));
            },
            None => {},
        }
        i = i + 1;
    }
    assert(arr@.take(arr@.len() as int) =~= arr@);
    Some(out)
}

// ---------------------------------------------------------------------------
// Legacy detection from the installed programs
// ---------------------------------------------------------------------------

pub open spec fn legacy_defs() -> Seq<(Seq<char>, Seq<char>, Seq<char>, Seq<Seq<char>>)> {
    seq![
        ("autocad"@, "AutoCAD"@, "engenharia"@, seq!["autocad"@]),
        ("fusion"@, "Fusion 360"@, "engenharia"@, seq!["fusion"@]),
        ("excel"@, "Microsoft Excel"@, "escritorio"@, seq!["microsoft excel"@, "excel"@]),
        ("word"@, "Microsoft Word"@, "escritorio"@, seq!["microsoft word"@]),
        ("eset"@, "ESET"@, "seguranca"@, seq!["eset"@]),
        (
            "affinity"@,
            "Affinity Canva"@,
            "design"@,
            seq!["affinity canva"@, "affinity"@, "canva.affinity"@],
        ),
        ("vscode"@, "VS Code"@, "dev"@, seq!["visual studio code"@, "vscode"@]),
    ]
}

fn legacy_def(i: usize) -> (r: (&'static str, &'static str, &'static str, Vec<&'static str>))
    requires
        i < 7,
    ensures
        r.0@ == legacy_defs()[i as int].0,
        r.1@ == legacy_defs()[i as int].1,
        r.2@ == legacy_defs()[i as int].2,
        r.3@.len() == legacy_defs()[i as int].3.len(),
        forall|k: int| 0 <= k < r.3@.len() ==> #[trigger] r.3@[k]@ == legacy_defs()[i as int].3[k],
{
    if i == 0 {
        ("autocad", "AutoCAD", "engenharia", vec!["autocad"])
    } else if i == 1 {
        ("fusion", "Fusion 360", "engenharia", vec!["fusion"])
    } else if i == 2 {
        ("excel", "Microsoft Excel", "escritorio", vec!["microsoft excel", "excel"])
    } else if i == 3 {
        ("word", "Microsoft Word", "escritorio", vec!["microsoft word"])
    } else if i == 4 {
        ("eset", "ESET", "seguranca", vec!["eset"])
    } else if i == 5 {
        ("affinity", "Affinity Canva", "design", vec!["affinity canva", "affinity", "canva.affinity"])
    } else {
        ("vscode", "VS Code", "dev", vec!["visual studio code", "vscode"])
    }
}

/// The lower-cased display name of a program entry.
pub open spec fn lower_name(p: Json) -> Seq<char> {
    lower_text(
        match get_str(p, "display_name"@) {
            Some(n) => n,
            None => ""@,
        },
    )
}

pub open spec fn hits(p: Json, pats: Seq<Seq<char>>) -> bool {
    exists|k: int| 0 <= k < pats.len() && contains(lower_name(p), #[trigger] pats[k])
}

/// Index of the first program that matches a pattern, or -1.
pub open spec fn first_hit(programs: Seq<Json>, pats: Seq<Seq<char>>) -> int
    decreases programs.len(),
{
    if programs.len() == 0 {
        -1
    } else if hits(programs[0], pats) {
        0
    } else {
        let r = first_hit(programs.drop_first(), pats);
        if r < 0 {
            -1
        } else {
            r + 1
        }
    }
}

pub proof fn lemma_first_hit_at(programs: Seq<Json>, pats: Seq<Seq<char>>, i: int)
    requires
        0 <= i <= programs.len(),
        forall|j: int| 0 <= j < i ==> !hits(#[trigger] programs[j], pats),
        i == programs.len() || hits(programs[i], pats),
    ensures
        first_hit(programs, pats) == if i == programs.len() {
            -1
        } else {
            i
        },
    decreases i,
{
    if i > 0 {
        let t = programs.drop_first();
        assert forall|j: int| 0 <= j < i - 1 implies !hits(#[trigger] t[j], pats) by {
            assert(t[j] == programs[j + 1]);
        }
        if i - 1 < t.len() {
            assert(t[i - 1] == programs[i]);
        }
        lemma_first_hit_at(t, pats, i - 1);
    }
}

pub open spec fn legacy_status(
    def: (Seq<char>, Seq<char>, Seq<char>, Seq<Seq<char>>),
    programs: Seq<Json>,
) -> AppV {
    let h = first_hit(programs, def.3);
    if h < 0 {
        (def.0, def.1, def.2, false, None, None)
    } else {
        (
            def.0,
            def.1,
            def.2,
            true,
            get_str(programs[h], "version"@),
            get_str(programs[h], "display_name"@),
        )
    }
}

pub open spec fn programs_of(cs: Seq<CollectorResult>) -> Seq<Json> {
    match find_collector(cs, "software"@) {
        Some(sw) => match get_array(sw.data, "programs"@) {
            Some(a) => a,
            None => Seq::empty(),
        },
        None => Seq::empty(),
    }
}

pub open spec fn legacy_spec(cs: Seq<CollectorResult>) -> Seq<AppV> {
    legacy_defs().map_values(
        |d: (Seq<char>, Seq<char>, Seq<char>, Seq<Seq<char>>)| legacy_status(d, programs_of(cs)),
    )
}

fn hits_v(p: &Json, pats: &Vec<&'static str>, ghost_pats: Ghost<Seq<Seq<char>>>) -> (r: bool)
    requires
        pats@.len() == ghost_pats@.len(),
        forall|k: int| 0 <= k < pats@.len() ==> #[trigger] pats@[k]@ == ghost_pats@[k],
    ensures
        r == hits(*p, ghost_pats@),
{
    let name = match json_str(p, "display_name") {
        Some(n) => n,
        None => "",
    };
    let lower = chars(to_lowercase(name).as_str());
    let mut k: usize = 0;
    while k < pats.len()
        invariant
            k <= pats@.len(),
            pats@.len() == ghost_pats@.len(),
            forall|k: int| 0 <= k < pats@.len() ==> #[trigger] pats@[k]@ == ghost_pats@[k],
            lower@ == lower_name(*p),
            forall|j: int| 0 <= j < k ==> !contains(lower@, #[trigger] ghost_pats@[j]),
        decreases pats@.len() - k,
    {
        let pc = chars(pats[k]);
        if contains_v(&lower, &pc) {
            return true;
        }
        k = k + 1;
    }
    false
}

fn first_hit_v(programs: &Vec<Json>, pats: &Vec<&'static str>, gp: Ghost<Seq<Seq<char>>>) -> (r:
    Option<usize>)
    requires
        pats@.len() == gp@.len(),
        forall|k: int| 0 <= k < pats@.len() ==> #[trigger] pats@[k]@ == gp@[k],
    ensures
        match r {
            Some(h) => first_hit(programs@, gp@) == h && h < programs@.len(),
            None => first_hit(programs@, gp@) == -1,
        },
{
    let mut i: usize = 0;
    while i < programs.len()
        invariant
            i <= programs@.len(),
            pats@.len() == gp@.len(),
            forall|k: int| 0 <= k < pats@.len() ==> #[trigger] pats@[k]@ == gp@[k],
            forall|j: int| 0 <= j < i ==> !hits(#[trigger] programs@[j], gp@),
        decreases programs@.len() - i,
    {
        if hits_v(&programs[i], pats, Ghost(gp@)) {
            proof {
                lemma_first_hit_at(programs@, gp@, i as int);
            }
            return Some(i);
        }
        i = i + 1;
    }
    proof {
        lemma_first_hit_at(programs@, gp@, i as int);
    }
    None
}

fn legacy_detect(collectors: &[CollectorResult]) -> (r: Vec<StandardAppStatus>)
    ensures
        apps_view(r@) == legacy_spec(collectors@),
{
    let empty: Vec<Json> = Vec::new();
    let programs: &Vec<Json> = match find_collector_exec(collectors, "software") {
        Some(sw) => match json_array(&sw.data, "programs") {
            Some(a) => a,
            None => &empty,
        },
        None => &empty,
    };
    assert(programs@ == programs_of(collectors@));
    let mut out: Vec<StandardAppStatus> = Vec::new();
    let mut d: usize = 0;
    while d < 7
        invariant
            d <= 7,
            programs@ == programs_of(collectors@),
            apps_view(out@) == legacy_spec(collectors@).take(d as int),
        decreases 7 - d,
    {
        let (id, label, cat, pats) = legacy_def(d);
        let ghost def = legacy_defs()[d as int];
        let hit = first_hit_v(programs, &pats, Ghost(def.3));
        let app = match hit {
            Some(h) => StandardAppStatus {
                id: id.to_owned(),
                label: label.to_owned(),
                category: cat.to_owned(),
                installed: true,
                version: json_string(&programs[h], "version"),
                detail: json_string(&programs[h], "display_name"),
            },
            None => StandardAppStatus {
                id: id.to_owned(),
                label: label.to_owned(),
                category: cat.to_owned(),
                installed: false,
                version: None,
                detail: None,
            },
        };
        assert(app@ == legacy_status(def, programs@));
        assert(legacy_spec(collectors@)[d as int] == legacy_status(def, programs_of(collectors@)));
        let ghost av = app@;
        let ghost prev = out@;
        out.push(app);
        assert(apps_view(out@) =~= apps_view(prev).push(av));
        assert(legacy_defs().len() == 7);
        assert(legacy_spec(collectors@).len() == 7);
        assert(legacy_spec(collectors@).take(d + 1) =~= legacy_spec(collectors@).take(d as int).push(av));
        d = d + 1;
    }
    assert(legacy_spec(collectors@).take(7) =~= legacy_spec(collectors@));
    out
}

// ---------------------------------------------------------------------------
// ESET, licences
// ---------------------------------------------------------------------------

pub struct EsetInfo {
    pub installed: bool,
    pub product_name: Option<String>,
    pub version: Option<String>,
    pub agent_version: Option<String>,
    pub install_path: Option<String>,
    pub service_running: bool,
    pub real_time_active: Option<bool>,
}

pub type EsetV = (bool, Option<Seq<char>>, Option<Seq<char>>, Option<Seq<char>>, Option<Seq<char>>, bool, Option<bool>);

impl View for EsetInfo {
    type V = EsetV;

    open spec fn view(&self) -> EsetV {
        (
            self.installed,
            ostr(self.product_name),
            ostr(self.version),
            ostr(self.agent_version),
            ostr(self.install_path),
            self.service_running,
            self.real_time_active,
        )
    }
}

/// `security.eset` as read by the dashboard (absent fields read as not installed /
/// not running).
pub open spec fn eset_info_spec(cs: Seq<CollectorResult>) -> EsetV {
    let none: EsetV = (false, None, None, None, None, false, None);
    match find_collector(cs, "security"@) {
        Some(sec) => match sec.data.get_spec("eset"@) {
            Some(e) => (
                flag(e, "installed"@),
                get_str(e, "product_name"@),
                get_str(e, "version"@),
                get_str(e, "agent_version"@),
                get_str(e, "install_path"@),
                flag(e, "service_running"@),
                get_bool(e, "real_time_active"@),
            ),
            None => none,
        },
        None => none,
    }
}

pub fn extract_eset_info(collectors: &[CollectorResult]) -> (r: EsetInfo)
    ensures
        r@ == eset_info_spec(collectors@),
{
    if let Some(sec) = find_collector_exec(collectors, "security") {
        if let Some(eset) = sec.data.get("eset") {
            return EsetInfo {
                installed: flag_v(eset, "installed"),
                product_name: json_string(eset, "product_name"),
                version: json_string(eset, "version"),
                agent_version: json_string(eset, "agent_version"),
                install_path: json_string(eset, "install_path"),
                service_running: flag_v(eset, "service_running"),
                real_time_active: json_bool(eset, "real_time_active"),
            };
        }
    }
    EsetInfo {
        installed: false,
        product_name: None,
        version: None,
        agent_version: None,
        install_path: None,
        service_running: false,
        real_time_active: None,
    }
}

/// Whether ESET is installed, and the name to show: the product name, else
/// `ESET v<version>`, else `ESET instalado`.
pub open spec fn eset_status_spec(cs: Seq<CollectorResult>) -> (bool, Option<Seq<char>>) {
    let info = eset_info_spec(cs);
    if !info.0 {
        (false, None)
    } else {
        match info.1 {
            Some(n) => (true, Some(n)),
            None => match info.2 {
                Some(v) => (true, Some("ESET v"@ + v)),
                None => (true, Some("ESET instalado"@)),
            },
        }
    }
}

pub fn eset_status(collectors: &[CollectorResult]) -> (r: (bool, Option<String>))
    ensures
        r.0 == eset_status_spec(collectors@).0,
        ostr(r.1) == eset_status_spec(collectors@).1,
{
    let info = extract_eset_info(collectors);
    if !info.installed {
        return (false, None);
    }
    match info.product_name {
        Some(n) => (true, Some(n)),
        None => match info.version {
            Some(v) => {
                let mut t = chars("ESET v");
                let vc = chars(v.as_str());
                extend(&mut t, &vc);
                (true, Some(to_string(&t)))
            },
            None => (true, Some("ESET instalado".to_owned())),
        },
    }
}

pub struct OfficeKeyInfo {
    pub product: String,
    pub key_partial: Option<String>,
    pub license_status: Option<String>,
}

pub struct LicenseKeysSummary {
    pub windows_key_partial: Option<String>,
    pub windows_product_key: Option<String>,
    pub office_keys: Vec<OfficeKeyInfo>,
}

pub type OfficeKeyV = (Seq<char>, Option<Seq<char>>, Option<Seq<char>>);

pub open spec fn office_key_spec(o: Json) -> OfficeKeyV {
    let name = match get_str(o, "license_name"@) {
        Some(n) => n,
        None => match get_str(o, "product_id"@) {
            Some(p) => p,
            None => "Office"@,
        },
    };
    (name, get_str(o, "key_partial"@), get_str(o, "license_status"@))
}

pub open spec fn keys_view(v: Seq<OfficeKeyInfo>) -> Seq<OfficeKeyV> {
    v.map_values(|k: OfficeKeyInfo| (k.product@, ostr(k.key_partial), ostr(k.license_status)))
}

pub open spec fn license_spec(cs: Seq<CollectorResult>) -> (Option<Seq<char>>, Option<Seq<char>>, Seq<OfficeKeyV>) {
    match find_collector(cs, "licensing"@) {
        None => (None, None, Seq::empty()),
        Some(lic) => {
            let (part, full) = match lic.data.get_spec("windows"@) {
                Some(w) => (get_str(w, "product_key_partial"@), get_str(w, "product_key"@)),
                None => (None, None),
            };
            let office = match get_array(lic.data, "office"@) {
                Some(arr) => arr.map_values(|o: Json| office_key_spec(o)),
                None => Seq::empty(),
            };
            (part, full, office)
        },
    }
}

/// Windows and Office licence keys reported by the `licensing` collector.
pub fn extract_license_keys(collectors: &[CollectorResult]) -> (r: LicenseKeysSummary)
    ensures
        (ostr(r.windows_key_partial), ostr(r.windows_product_key), keys_view(r.office_keys@))
            == license_spec(collectors@),
{
    let mut part: Option<String> = None;
    let mut full: Option<String> = None;
    let mut keys: Vec<OfficeKeyInfo> = Vec::new();
    if let Some(lic) = find_collector_exec(collectors, "licensing") {
        if let Some(win) = lic.data.get("windows") {
            part = json_string(win, "product_key_partial");
            full = json_string(win, "product_key");
        }
        if let Some(office) = json_array(&lic.data, "office") {
            let mut i: usize = 0;
            while i < office.len()
                invariant
                    i <= office@.len(),
                    keys_view(keys@) == office@.take(i as int).map_values(
                        |o: Json| office_key_spec(o),
                    ),
                decreases office@.len() - i,
            {
                let o = &office[i];
                let name = match json_str(o, "license_name") {
                    Some(n) => n,
                    None => match json_str(o, "product_id") {
                        Some(p) => p,
                        None => "Office",
                    },
                };
                let k = OfficeKeyInfo {
                    product: name.to_owned(),
                    key_partial: json_string(o, "key_partial"),
                    license_status: json_string(o, "license_status"),
                };
                let ghost kv = (k.product@, ostr(k.key_partial), ostr(k.license_status));
                assert(kv == office_key_spec(office@[i as int]));
                let ghost prev = keys@;
                keys.push(k);
                assert(keys_view(keys@) =~= keys_view(prev).push(kv));
                assert(office@.take(i + 1).map_values(|o: Json| office_key_spec(o)) =~= office@.take(
                    i as int,
                ).map_values(|o: Json| office_key_spec(o)).push(kv));
                i = i + 1;
            }
            assert(office@.take(office@.len() as int) =~= office@);
        } else {
            assert(keys_view(keys@) =~= Seq::<OfficeKeyV>::empty());
        }
    } else {
        assert(keys_view(keys@) =~= Seq::<OfficeKeyV>::empty());
    }
    LicenseKeysSummary { windows_key_partial: part, windows_product_key: full, office_keys: keys }
}

// ---------------------------------------------------------------------------
// Enrichment from the other collectors
// ---------------------------------------------------------------------------

pub open spec fn enrich_anydesk_spec(apps: Seq<AppV>, cs: Seq<CollectorResult>) -> Seq<AppV> {
    match find_collector(cs, "remote_access"@) {
        None => apps,
        Some(ra) => match ra.data.get_spec("anydesk"@) {
            None => apps,
            Some(ad) => upsert_spec(
                apps,
                (
                    "anydesk"@,
                    "AnyDesk"@,
                    "acesso"@,
                    flag(ad, "installed"@),
                    get_str(ad, "version"@),
                    match get_str(ad, "client_id"@) {
                        Some(id) => Some("ID "@ + id),
                        None => None,
                    },
                ),
            ),
        },
    }
}

fn enrich_anydesk(apps: &mut Vec<StandardAppStatus>, collectors: &[CollectorResult])
    ensures
        apps_view(final(apps)@) == enrich_anydesk_spec(apps_view(old(apps)@), collectors@),
{
    let ra = match find_collector_exec(collectors, "remote_access") {
        Some(r) => r,
        None => return,
    };
    let ad = match ra.data.get("anydesk") {
        Some(a) => a,
        None => return,
    };
    let detail = match json_str(ad, "client_id") {
        Some(id) => {
            let mut t = chars("ID ");
            let ic = chars(id);
            extend(&mut t, &ic);
            Some(to_string(&t))
        },
        None => None,
    };
    upsert_app(
        apps,
        StandardAppStatus {
            id: "anydesk".to_owned(),
            label: "AnyDesk".to_owned(),
            category: "acesso".to_owned(),
            installed: flag_v(ad, "installed"),
            version: json_string(ad, "version"),
            detail,
        },
    );
}

pub open spec fn enrich_thunderbird_spec(apps: Seq<AppV>, cs: Seq<CollectorResult>) -> Seq<AppV> {
    match find_collector(cs, "email"@) {
        None => apps,
        Some(em) => match em.data.get_spec("thunderbird_summary"@) {
            None => apps,
            Some(tb) => {
                let count = match get_u64(tb, "profile_count"@) {
                    Some(n) => n,
                    None => 0,
                };
                upsert_spec(
                    apps,
                    (
                        "thunderbird"@,
                        "Thunderbird"@,
                        "email"@,
                        flag(tb, "installed"@),
                        None,
                        if count > 0 {
                            Some(nat_digits(count as nat) + " perfil(is)"@)
                        } else {
                            None
                        },
                    ),
                )
            },
        },
    }
}

fn enrich_thunderbird(apps: &mut Vec<StandardAppStatus>, collectors: &[CollectorResult])
    ensures
        apps_view(final(apps)@) == enrich_thunderbird_spec(apps_view(old(apps)@), collectors@),
{
    let em = match find_collector_exec(collectors, "email") {
        Some(e) => e,
        None => return,
    };
    let tb = match em.data.get("thunderbird_summary") {
        Some(t) => t,
        None => return,
    };
    let count = match json_u64(tb, "profile_count") {
        Some(n) => n,
        None => 0,
    };
    let detail = if count > 0 {
        let mut t = fmt_u64(count);
        extend_str(&mut t, " perfil(is)");
        Some(to_string(&t))
    } else {
        None
    };
    upsert_app(
        apps,
        StandardAppStatus {
            id: "thunderbird".to_owned(),
            label: "Thunderbird".to_owned(),
            category: "email".to_owned(),
            installed: flag_v(tb, "installed"),
            version: None,
            detail,
        },
    );
}

/// The parts of the ESET detail text: product, `v<version>`, `Serviço ativo`, path.
pub open spec fn eset_detail_parts(info: EsetV) -> Seq<Seq<char>> {
    let p1: Seq<Seq<char>> = match info.1 {
        Some(n) => seq![n],
        None => Seq::empty(),
    };
    let p2: Seq<Seq<char>> = match info.2 {
        Some(v) => p1.push("v"@ + v),
        None => p1,
    };
    let p3: Seq<Seq<char>> = if info.5 {
        p2.push("Serviço ativo"@)
    } else {
        p2
    };
    match info.4 {
        Some(p) => p3.push(p),
        None => p3,
    }
}

pub open spec fn enrich_eset_spec(apps: Seq<AppV>, cs: Seq<CollectorResult>, p: CompanyProfile) -> Seq<AppV> {
    let info = eset_info_spec(cs);
    if !info.0 {
        apps
    } else {
        let parts = eset_detail_parts(info);
        upsert_spec(
            apps,
            (
                "eset"@,
                p.antivirus_name@,
                "seguranca"@,
                true,
                info.2,
                if parts.len() == 0 {
                    None
                } else {
                    Some(join(parts, " · "@))
                },
            ),
        )
    }
}

fn enrich_eset_app(apps: &mut Vec<StandardAppStatus>, collectors: &[CollectorResult], profile: &CompanyProfile)
    ensures
        apps_view(final(apps)@) == enrich_eset_spec(apps_view(old(apps)@), collectors@, *profile),
{
    let info = extract_eset_info(collectors);
    if !info.installed {
        return;
    }
    let ghost iv = info@;
    let mut parts: Vec<Vec<char>> = Vec::new();
    if let Some(n) = &info.product_name {
        parts.push(chars(n.as_str()));
    }
    if let Some(v) = &info.version {
        let mut t = chars("v");
        let vc = chars(v.as_str());
        extend(&mut t, &vc);
        parts.push(t);
    }
    if info.service_running {
        parts.push(chars("Serviço ativo"));
    }
    if let Some(p) = &info.install_path {
        parts.push(chars(p.as_str()));
    }
    assert(vviews(parts@) =~= eset_detail_parts(iv));
    let detail = if parts.len() == 0 {
        None
    } else {
        let j = join_v(&parts, " · ");
        Some(to_string(&j))
    };
    upsert_app(
        apps,
        StandardAppStatus {
            id: "eset".to_owned(),
            label: profile.antivirus_name.clone(),
            category: "seguranca".to_owned(),
            installed: true,
            version: copy_opt(&info.version),
            detail,
        },
    );
}

pub open spec fn is_affinity(v: Json) -> bool {
    get_str(v, "id"@) == Some("affinity"@)
}

pub open spec fn first_affinity(arr: Seq<Json>) -> int
    decreases arr.len(),
{
    if arr.len() == 0 {
        -1
    } else if is_affinity(arr[0]) {
        0
    } else {
        let r = first_affinity(arr.drop_first());
        if r < 0 {
            -1
        } else {
            r + 1
        }
    }
}

proof fn lemma_first_affinity_at(arr: Seq<Json>, i: int)
    requires
        0 <= i <= arr.len(),
        forall|j: int| 0 <= j < i ==> !is_affinity(#[trigger] arr[j]),
        i == arr.len() || is_affinity(arr[i]),
    ensures
        first_affinity(arr) == if i == arr.len() {
            -1
        } else {
            i
        },
    decreases i,
{
    if i > 0 {
        let t = arr.drop_first();
        assert forall|j: int| 0 <= j < i - 1 implies !is_affinity(#[trigger] t[j]) by {
            assert(t[j] == arr[j + 1]);
        }
        if i - 1 < t.len() {
            assert(t[i - 1] == arr[i]);
        }
        lemma_first_affinity_at(t, i - 1);
    }
}

pub open spec fn enrich_affinity_spec(apps: Seq<AppV>, cs: Seq<CollectorResult>) -> Seq<AppV> {
    match find_collector(cs, "software"@) {
        None => apps,
        Some(sw) => match get_array(sw.data, "standard_apps"@) {
            None => apps,
            Some(arr) => {
                let i = first_affinity(arr);
                if i < 0 {
                    apps
                } else {
                    let item = arr[i];
                    upsert_spec(
                        apps,
                        (
                            "affinity"@,
                            match get_str(item, "label"@) {
                                Some(l) => l,
                                None => "Affinity Canva"@,
                            },
                            "design"@,
                            flag(item, "installed"@),
                            get_str(item, "version"@),
                            get_str(item, "detail"@),
                        ),
                    )
                }
            },
        },
    }
}

fn enrich_affinity(apps: &mut Vec<StandardAppStatus>, collectors: &[CollectorResult])
    ensures
        apps_view(final(apps)@) == enrich_affinity_spec(apps_view(old(apps)@), collectors@),
{
    let software = match find_collector_exec(collectors, "software") {
        Some(s) => s,
        None => return,
    };
    let arr = match json_array(&software.data, "standard_apps") {
        Some(a) => a,
        None => return,
    };
    let mut i: usize = 0;
    while i < arr.len()
        invariant
            i <= arr@.len(),
            find_collector(collectors@, "software"@) == Some(*software),
            get_array(software.data, "standard_apps"@) == Some(arr@),
            apps_view(apps@) == apps_view(old(apps)@),
            forall|j: int| 0 <= j < i ==> !is_affinity(#[trigger] arr@[j]),
        decreases arr@.len() - i,
    {
        let item = &arr[i];
        let is_aff = match json_str(item, "id") {
            Some(id) => str_eq(id, "affinity"),
            None => false,
        };
        assert(is_affinity(arr@[i as int]) == is_aff);
        if is_aff {
            proof {
                lemma_first_affinity_at(arr@, i as int);
            }
            let label = match json_str(item, "label") {
                Some(l) => l,
                None => "Affinity Canva",
            };
            upsert_app(
                apps,
                StandardAppStatus {
                    id: "affinity".to_owned(),
                    label: label.to_owned(),
                    category: "design".to_owned(),
                    installed: flag_v(item, "installed"),
                    version: json_string(item, "version"),
                    detail: json_string(item, "detail"),
                },
            );
            return;
        }
        i = i + 1;
    }
    proof {
        lemma_first_affinity_at(arr@, i as int);
    }
}

// ---------------------------------------------------------------------------
// Dashboard order
// ---------------------------------------------------------------------------

/// The dashboard order of program ids.
pub open spec fn sort_order(p: CompanyProfile) -> Seq<Seq<char>> {
    seq!["office"@, "excel"@, "word"@] + p.erp_branches@.map_values(
        |b: crate::models::ErpBranchConfig| b.id@,
    ) + seq![
        "eset"@,
        "anydesk"@,
        "thunderbird"@,
        "autocad"@,
        "fusion"@,
        "libredraw"@,
        "lightshot"@,
        "pdf24"@,
        "sumatra"@,
        "gimp"@,
        "affinity"@,
        "vscode"@,
        p.banking_app.id@,
    ]
}

/// Index of the first occurrence of `x`, or -1.
pub open spec fn seq_index(s: Seq<Seq<char>>, x: Seq<char>) -> int
    decreases s.len(),
{
    if s.len() == 0 {
        -1
    } else if s[0] == x {
        0
    } else {
        let r = seq_index(s.drop_first(), x);
        if r < 0 {
            -1
        } else {
            r + 1
        }
    }
}

pub proof fn lemma_seq_index_at(s: Seq<Seq<char>>, x: Seq<char>, i: int)
    requires
        0 <= i <= s.len(),
        forall|j: int| 0 <= j < i ==> s[j] != x,
        i == s.len() || s[i] == x,
    ensures
        seq_index(s, x) == if i == s.len() {
            -1
        } else {
            i
        },
    decreases i,
{
    if i > 0 {
        let t = s.drop_first();
        assert forall|j: int| 0 <= j < i - 1 implies t[j] != x by {
            assert(t[j] == s[j + 1]);
        }
        if i - 1 < t.len() {
            assert(t[i - 1] == s[i]);
        }
        lemma_seq_index_at(t, x, i - 1);
    }
}

/// Position of an id in the order, or 999 when it is not listed.
pub open spec fn order_pos(order: Seq<Seq<char>>, id: Seq<char>) -> int {
    let i = seq_index(order, id);
    if i < 0 {
        999
    } else {
        i
    }
}

/// `a` sorts strictly before `b`: by order position, then by label.
pub open spec fn app_before(order: Seq<Seq<char>>, a: AppV, b: AppV) -> bool {
    let ia = order_pos(order, a.0);
    let ib = order_pos(order, b.0);
    ia < ib || (ia == ib && seq_lt(a.1, b.1))
}

/// Stable insertion of `x` into a sorted list: after every element that does not
/// sort strictly after it.
pub open spec fn insert_sorted(order: Seq<Seq<char>>, s: Seq<AppV>, x: AppV) -> Seq<AppV>
    decreases s.len(),
{
    if s.len() == 0 {
        seq![x]
    } else if app_before(order, x, s.last()) {
        insert_sorted(order, s.drop_last(), x).push(s.last())
    } else {
        s.push(x)
    }
}

/// The stable sort of the programs by (position, label), as `slice::sort_by`.
pub open spec fn sort_spec(order: Seq<Seq<char>>, s: Seq<AppV>) -> Seq<AppV>
    decreases s.len(),
{
    if s.len() == 0 {
        s
    } else {
        insert_sorted(order, sort_spec(order, s.drop_last()), s.last())
    }
}

proof fn lemma_insert_at(order: Seq<Seq<char>>, s: Seq<AppV>, x: AppV, j: int)
    requires
        0 <= j <= s.len(),
        forall|k: int| j <= k < s.len() ==> app_before(order, x, #[trigger] s[k]),
        j == 0 || !app_before(order, x, s[j - 1]),
    ensures
        insert_sorted(order, s, x) == s.insert(j, x),
    decreases s.len(),
{
    if s.len() == 0 {
        assert(s.insert(j, x) =~= seq![x]);
    } else if j == s.len() {
        assert(s.insert(j, x) =~= s.push(x));
    } else {
        let t = s.drop_last();
        assert(app_before(order, x, s.last()));
        assert forall|k: int| j <= k < t.len() implies app_before(order, x, #[trigger] t[k]) by {
            assert(t[k] == s[k]);
        }
        if j > 0 {
            assert(t[j - 1] == s[j - 1]);
        }
        lemma_insert_at(order, t, x, j);
        assert(t.insert(j, x).push(s.last()) =~= s.insert(j, x));
    }
}

fn order_list(profile: &CompanyProfile) -> (r: Vec<Vec<char>>)
    ensures
        vviews(r@) == sort_order(*profile),
{
    let mut r: Vec<Vec<char>> = Vec::new();
    r.push(chars("office"));
    r.push(chars("excel"));
    r.push(chars("word"));
    let ghost so = sort_order(*profile);
    let ghost bs = profile.erp_branches@.map_values(|b: crate::models::ErpBranchConfig| b.id@);
    assert(vviews(r@) =~= seq!["office"@, "excel"@, "word"@]);
    let mut i: usize = 0;
    while i < profile.erp_branches.len()
        invariant
            i <= profile.erp_branches@.len(),
            bs == profile.erp_branches@.map_values(|b: crate::models::ErpBranchConfig| b.id@),
            vviews(r@) == seq!["office"@, "excel"@, "word"@] + bs.take(i as int),
        decreases profile.erp_branches@.len() - i,
    {
        let ghost prev = r@;
        r.push(chars(profile.erp_branches[i].id.as_str()));
        assert(vviews(r@) =~= vviews(prev).push(bs[i as int]));
        assert(bs.take(i + 1) =~= bs.take(i as int).push(bs[i as int]));
        i = i + 1;
    }
    assert(bs.take(bs.len() as int) =~= bs);
    let ghost mid = r@;
    r.push(chars("eset"));
    r.push(chars("anydesk"));
    r.push(chars("thunderbird"));
    r.push(chars("autocad"));
    r.push(chars("fusion"));
    r.push(chars("libredraw"));
    r.push(chars("lightshot"));
    r.push(chars("pdf24"));
    r.push(chars("sumatra"));
    r.push(chars("gimp"));
    r.push(chars("affinity"));
    r.push(chars("vscode"));
    r.push(chars(profile.banking_app.id.as_str()));
    assert(vviews(r@) =~= vviews(mid) + seq![
        "eset"@,
        "anydesk"@,
        "thunderbird"@,
        "autocad"@,
        "fusion"@,
        "libredraw"@,
        "lightshot"@,
        "pdf24"@,
        "sumatra"@,
        "gimp"@,
        "affinity"@,
        "vscode"@,
        profile.banking_app.id@,
    ]);
    r
}

fn order_pos_v(order: &Vec<Vec<char>>, id: &Vec<char>) -> (r: usize)
    ensures
        r == order_pos(vviews(order@), id@),
{
    let ghost o = vviews(order@);
    let mut i: usize = 0;
    while i < order.len()
        invariant
            i <= order@.len(),
            o == vviews(order@),
            forall|j: int| 0 <= j < i ==> o[j] != id@,
        decreases order@.len() - i,
    {
        assert(o[i as int] == order@[i as int]@);
        if eq_v(&order[i], id) {
            proof {
                lemma_seq_index_at(o, id@, i as int);
            }
            return i;
        }
        i = i + 1;
    }
    proof {
        lemma_seq_index_at(o, id@, i as int);
    }
    999
}

fn before_v(order: &Vec<Vec<char>>, a: &StandardAppStatus, b: &StandardAppStatus) -> (r: bool)
    ensures
        r == app_before(vviews(order@), a@, b@),
{
    let ia = order_pos_v(order, &chars(a.id.as_str()));
    let ib = order_pos_v(order, &chars(b.id.as_str()));
    if ia < ib {
        return true;
    }
    if ia == ib {
        let la = chars(a.label.as_str());
        let lb = chars(b.label.as_str());
        return lt_v(&la, &lb);
    }
    false
}

fn sort_standard_apps(apps: Vec<StandardAppStatus>, profile: &CompanyProfile) -> (r: Vec<StandardAppStatus>)
    ensures
        apps_view(r@) == sort_spec(sort_order(*profile), apps_view(apps@)),
{
    let order = order_list(profile);
    let ghost o = sort_order(*profile);
    let ghost av = apps_view(apps@);
    let mut out: Vec<StandardAppStatus> = Vec::new();
    let mut i: usize = 0;
    while i < apps.len()
        invariant
            i <= apps@.len(),
            vviews(order@) == o,
            av == apps_view(apps@),
            apps_view(out@) == sort_spec(o, av.take(i as int)),
        decreases apps@.len() - i,
    {
        let x = copy_app(&apps[i]);
        assert(av.take(i + 1).drop_last() =~= av.take(i as int));
        assert(av.take(i + 1).last() == x@);
        let ghost cur = apps_view(out@);
        let mut j: usize = out.len();
        while j > 0 && before_v(&order, &x, &out[j - 1])
            invariant
                j <= out@.len(),
                vviews(order@) == o,
                cur == apps_view(out@),
                forall|k: int| j <= k < out@.len() ==> app_before(o, x@, #[trigger] cur[k]),
            decreases j,
        {
            assert(cur[j - 1] == out@[j - 1]@);
            j = j - 1;
        }
        proof {
            if j > 0 {
                assert(cur[j - 1] == out@[j - 1]@);
            }
            lemma_insert_at(o, cur, x@, j as int);
        }
        let ghost xv = x@;
        out.insert(j, x);
        assert(apps_view(out@) =~= cur.insert(j as int, xv));
        i = i + 1;
    }
    assert(av.take(av.len() as int) =~= av);
    out
}

/// The standard programs of a machine, in dashboard order: the software collector's
/// list (or detection from installed programs), updated from AnyDesk, Thunderbird,
/// ESET and Affinity data, completed with every required program.
pub open spec fn detect_spec(cs: Seq<CollectorResult>, p: CompanyProfile) -> Seq<AppV> {
    let a0 = match from_software_spec(cs) {
        Some(a) => a,
        None => legacy_spec(cs),
    };
    let a1 = enrich_anydesk_spec(a0, cs);
    let a2 = enrich_thunderbird_spec(a1, cs);
    let a3 = enrich_eset_spec(a2, cs, p);
    let a4 = enrich_affinity_spec(a3, cs);
    let a5 = ensure_all(a4, required_list(p));
    sort_spec(sort_order(p), a5)
}

pub fn detect_standard_apps(collectors: &[CollectorResult], profile: &CompanyProfile) -> (r: Vec<
    StandardAppStatus,
>)
    ensures
        apps_view(r@) == detect_spec(collectors@, *profile),
{
    let mut apps = match load_from_software_collector(collectors) {
        Some(a) => a,
        None => legacy_detect(collectors),
    };
    enrich_anydesk(&mut apps, collectors);
    enrich_thunderbird(&mut apps, collectors);
    enrich_eset_app(&mut apps, collectors, profile);
    enrich_affinity(&mut apps, collectors);
    ensure_required_apps(&mut apps, profile);
    sort_standard_apps(apps, profile)
}

} // verus!
