//! The diagnosis prompt: a Markdown document about one machine, written to be pasted
//! into an assistant for a diagnosis, a repair plan and a check of what improved.

use vstd::prelude::*;
use crate::admin::MachineAdmin;
use crate::compliance::{
    band_spec, breakdown_matches, certificates_of, collectors_sliceable, compute_score_breakdown, critical_events_of,
    disk_free_of, md_bullets, notes_spec, security_of, smart_of, temperature_of, total_spec, views, windows_update_of,
    ScoreBreakdown,
};
use crate::freeze::{freeze_views, FreezeProneApp};
use crate::ext::{debug_str, debug_str_text, format_utc, utc_text_or_empty};
use crate::json::{get_array, get_bool, get_num, json_array, json_bool, json_num, str_or, Json};
use crate::maintenance::{maintenance_playbook, playbook_matches, playbook_profiles, MaintenancePlaybook, MaintenanceProfile, ProfileV, profile_views};
use crate::markdown::{first_n, opt_line, push_str_or};
use crate::models::{AlertRecord, AlertSeverity, CollectorResult, CompanyProfile, IncidentRecord, MachineSummary, UtcTime};
use crate::num::{fmt_decimal, fmt_fixed};
use crate::text::{chars, extend, extend_str, fmt_u64, join, nat_digits, to_string};

verus! {

// ---------------------------------------------------------------------------
// Values
// ---------------------------------------------------------------------------

/// How the prompt shows a value: a number's or a flag's JSON text, a string's text,
/// `—` for anything else.
pub open spec fn val_text(v: Json) -> Seq<char> {
    match v {
        Json::UInt(_) => crate::markdown::json_text(v),
        Json::NegInt(_) => crate::markdown::json_text(v),
        Json::Float(_, _, _) => crate::markdown::json_text(v),
        Json::Bool(_) => crate::markdown::json_text(v),
        Json::Str(s) => s@,
        _ => "—"@,
    }
}

pub fn fmt_val(v: &Json) -> (r: String)
    ensures
        r@ == val_text(*v),
{
    let mut out: Vec<char> = Vec::new();
    match v {
        Json::Str(s) => extend_str(&mut out, s.as_str()),
        Json::Null => extend_str(&mut out, "—"),
        Json::Array(_) => extend_str(&mut out, "—"),
        Json::Object(_) => extend_str(&mut out, "—"),
        _ => crate::markdown::push_json_text(&mut out, v),
    }
    assert(out@ =~= val_text(*v));
    to_string(&out)
}

/// `value.pointer("/a/b")`: the value under `b` of the value under `a`.
pub open spec fn at2(v: Json, a: Seq<char>, b: Seq<char>) -> Option<Json> {
    match v.get_spec(a) {
        Some(x) => x.get_spec(b),
        None => None,
    }
}

fn at2_v<'a>(v: &'a Json, a: &str, b: &str) -> (r: Option<&'a Json>)
    ensures
        match r {
            Some(x) => at2(*v, a@, b@) == Some(*x),
            None => at2(*v, a@, b@) is None,
        },
{
    match v.get(a) {
        Some(x) => x.get(b),
        None => None,
    }
}

/// The strings among the values, in order (`filter_map(as_str)`).
pub open spec fn strs_of(s: Seq<Json>) -> Seq<Seq<char>>
    decreases s.len(),
{
    if s.len() == 0 {
        Seq::empty()
    } else {
        match s.last().str_spec() {
            Some(t) => strs_of(s.drop_last()).push(t),
            None => strs_of(s.drop_last()),
        }
    }
}

fn strs_of_v(s: &Vec<Json>) -> (r: Vec<Vec<char>>)
    ensures
        crate::text::vviews(r@) == strs_of(s@),
{
    let mut out: Vec<Vec<char>> = Vec::new();
    let mut i: usize = 0;
    assert(s@.take(0) =~= Seq::<Json>::empty());
    assert(crate::text::vviews(out@) =~= strs_of(s@.take(0)));
    while i < s.len()
        invariant
            i <= s@.len(),
            crate::text::vviews(out@) == strs_of(s@.take(i as int)),
        decreases s@.len() - i,
    {
        assert(s@.take(i + 1).drop_last() =~= s@.take(i as int));
        assert(s@.take(i + 1).last() == s@[i as int]);
        match s[i].as_str() {
            Some(t) => {
                let ghost o0 = out@;
                out.push(chars(t));
                assert(crate::text::vviews(out@) =~= crate::text::vviews(o0).push(t@));
            },
            None => {},
        }
        i = i + 1;
    }
    assert(s@.take(s@.len() as int) =~= s@);
    out
}

// ---------------------------------------------------------------------------
// Score
// ---------------------------------------------------------------------------

pub open spec fn score_row(label: Seq<char>, points: u8, max: Seq<char>) -> Seq<char> {
    "| "@ + label + " | "@ + nat_digits(points as nat) + " | "@ + max + " |\n"@
}

/// The compliance score as a table, with the notes that explain it.
pub open spec fn breakdown_prompt_md(bd: ScoreBreakdown) -> Seq<char> {
    "## Conformidade TI\n\n"@ + "**Score: "@ + nat_digits(bd.total as nat) + "% — "@ + bd.band@ + "**\n\n"@
        + "| Categoria | Pontos | Max |\n|-----------|-------:|----:|\n"@ + score_row("SMART"@, bd.smart_disk, "30"@)
        + score_row("Seguranca"@, bd.security, "25"@) + score_row("Windows Update"@, bd.windows_update, "15"@)
        + score_row("Eventos"@, bd.critical_events, "10"@) + score_row("Disco livre"@, bd.disk_free, "10"@)
        + score_row("Temperatura"@, bd.temperature, "5"@) + score_row("Certificados"@, bd.certificates, "5"@)
        + (if bd.notes@.len() == 0 {
        Seq::empty()
    } else {
        "\n**Observacoes do score:**\n"@ + md_bullets(views(bd.notes@))
    }) + "\n"@
}

fn push_score_row(out: &mut Vec<char>, label: &str, points: u8, max: &str)
    ensures
        final(out)@ == old(out)@ + score_row(label@, points, max@),
{
    let ghost o0 = out@;
    extend_str(out, "| ");
    extend_str(out, label);
    extend_str(out, " | ");
    extend(out, &fmt_u64(points as u64));
    extend_str(out, " | ");
    extend_str(out, max);
    extend_str(out, " |\n");
    assert(out@ =~= o0 + score_row(label@, points, max@));
}

fn push_bullets(out: &mut Vec<char>, notes: &Vec<String>)
    ensures
        final(out)@ == old(out)@ + md_bullets(views(notes@)),
{
    let ghost o0 = out@;
    let ghost v = views(notes@);
    let mut i: usize = 0;
    assert(v.take(0) =~= Seq::<Seq<char>>::empty());
    assert(out@ =~= o0 + md_bullets(v.take(0)));
    while i < notes.len()
        invariant
            i <= notes@.len(),
            v == views(notes@),
            out@ == o0 + md_bullets(v.take(i as int)),
        decreases notes@.len() - i,
    {
        assert(v.take(i + 1).drop_last() =~= v.take(i as int));
        assert(v.take(i + 1).last() == notes@[i as int]@);
        extend_str(out, "- ");
        extend_str(out, notes[i].as_str());
        extend_str(out, "\n");
        assert(out@ =~= o0 + md_bullets(v.take(i + 1)));
        i = i + 1;
    }
    assert(v.take(notes@.len() as int) =~= v);
}

/// The compliance section of the prompt.
pub fn breakdown_prompt_section(bd: &ScoreBreakdown) -> (r: String)
    ensures
        r@ == breakdown_prompt_md(*bd),
{
    let mut s = chars("## Conformidade TI\n\n");
    extend_str(&mut s, "**Score: ");
    extend(&mut s, &fmt_u64(bd.total as u64));
    extend_str(&mut s, "% — ");
    extend_str(&mut s, bd.band.as_str());
    extend_str(&mut s, "**\n\n");
    extend_str(&mut s, "| Categoria | Pontos | Max |\n|-----------|-------:|----:|\n");
    let ghost s0 = s@;
    push_score_row(&mut s, "SMART", bd.smart_disk, "30");
    push_score_row(&mut s, "Seguranca", bd.security, "25");
    push_score_row(&mut s, "Windows Update", bd.windows_update, "15");
    push_score_row(&mut s, "Eventos", bd.critical_events, "10");
    push_score_row(&mut s, "Disco livre", bd.disk_free, "10");
    push_score_row(&mut s, "Temperatura", bd.temperature, "5");
    push_score_row(&mut s, "Certificados", bd.certificates, "5");
    let ghost s1 = s@;
    if bd.notes.len() > 0 {
        extend_str(&mut s, "\n**Observacoes do score:**\n");
        push_bullets(&mut s, &bd.notes);
    }
    proof {
        reveal_strlit("");
    }
    extend_str(&mut s, "\n");
    assert(s@ =~= breakdown_prompt_md(*bd));
    to_string(&s)
}

// ---------------------------------------------------------------------------
// Alerts and incidents
// ---------------------------------------------------------------------------

pub open spec fn alert_prompt_line(a: AlertRecord) -> Seq<char> {
    "- **["@ + a.severity.debug_name() + "] "@ + debug_str_text(a.category@) + "** — "@ + a.message@ + "\n"@
}

pub open spec fn alert_prompt_lines(s: Seq<AlertRecord>) -> Seq<char>
    decreases s.len(),
{
    if s.len() == 0 {
        Seq::empty()
    } else {
        alert_prompt_lines(s.drop_last()) + alert_prompt_line(s.last())
    }
}

pub open spec fn alerts_prompt_md(s: Seq<AlertRecord>) -> Seq<char> {
    "## Alertas ativos\n\n"@ + if s.len() == 0 {
        "Nenhum alerta ativo.\n\n"@
    } else {
        alert_prompt_lines(s) + "\n"@
    }
}

/// The active alerts, with severity and category as the program writes them.
pub fn alerts_prompt_section(alerts: &[AlertRecord]) -> (r: String)
    ensures
        r@ == alerts_prompt_md(alerts@),
{
    let mut s = chars("## Alertas ativos\n\n");
    let ghost s0 = s@;
    if alerts.len() == 0 {
        extend_str(&mut s, "Nenhum alerta ativo.\n\n");
        assert(s@ =~= alerts_prompt_md(alerts@));
        return to_string(&s);
    }
    let mut i: usize = 0;
    assert(alerts@.take(0) =~= Seq::<AlertRecord>::empty());
    assert(s@ =~= s0 + alert_prompt_lines(alerts@.take(0)));
    while i < alerts.len()
        invariant
            i <= alerts@.len(),
            s@ == s0 + alert_prompt_lines(alerts@.take(i as int)),
        decreases alerts@.len() - i,
    {
        assert(alerts@.take(i + 1).drop_last() =~= alerts@.take(i as int));
        assert(alerts@.take(i + 1).last() == alerts@[i as int]);
        let a = &alerts[i];
        let ghost before = s@;
        extend_str(&mut s, "- **[");
        extend_str(&mut s, a.severity.debug_str());
        extend_str(&mut s, "] ");
        let cat = debug_str(a.category.as_str());
        extend_str(&mut s, cat.as_str());
        extend_str(&mut s, "** — ");
        extend_str(&mut s, a.message.as_str());
        extend_str(&mut s, "\n");
        assert(s@ =~= before + alert_prompt_line(*a));
        i = i + 1;
    }
    assert(alerts@.take(alerts@.len() as int) =~= alerts@);
    extend_str(&mut s, "\n");
    assert(s@ =~= alerts_prompt_md(alerts@));
    to_string(&s)
}

pub open spec fn incident_prompt_line(i: IncidentRecord) -> Seq<char> {
    "- **"@ + i.title@ + "** ("@ + i.category@ + ") — "@ + i.message@ + " | ocorrencias: "@ + nat_digits(
        i.occurrence_count as nat,
    ) + " | ultima: "@ + utc_text_or_empty(i.last_seen, "%Y-%m-%d %H:%M"@) + "\n"@ + match i.recommendation {
        Some(r) => "  - Acao: "@ + r@ + "\n"@,
        None => Seq::empty(),
    }
}

pub open spec fn incident_prompt_lines(s: Seq<IncidentRecord>) -> Seq<char>
    decreases s.len(),
{
    if s.len() == 0 {
        Seq::empty()
    } else {
        incident_prompt_lines(s.drop_last()) + incident_prompt_line(s.last())
    }
}

pub open spec fn incidents_prompt_md(s: Seq<IncidentRecord>) -> Seq<char> {
    "## Registro de incidentes (recentes)\n\n"@ + if s.len() == 0 {
        "Nenhum incidente registrado.\n\n"@
    } else {
        incident_prompt_lines(first_n(s, 25)) + "\n"@
    }
}

fn push_incident_prompt_line(s: &mut Vec<char>, inc: &IncidentRecord)
    ensures
        final(s)@ == old(s)@ + incident_prompt_line(*inc),
{
    let ghost o0 = s@;
    extend_str(s, "- **");
    extend_str(s, inc.title.as_str());
    extend_str(s, "** (");
    extend_str(s, inc.category.as_str());
    extend_str(s, ") — ");
    extend_str(s, inc.message.as_str());
    extend_str(s, " | ocorrencias: ");
    extend(s, &fmt_u64(inc.occurrence_count as u64));
    extend_str(s, " | ultima: ");
    let last = format_utc(inc.last_seen, "%Y-%m-%d %H:%M");
    extend_str(s, last.as_str());
    extend_str(s, "\n");
    match &inc.recommendation {
        Some(r) => {
            extend_str(s, "  - Acao: ");
            extend_str(s, r.as_str());
            extend_str(s, "\n");
        },
        None => {},
    }
    assert(s@ =~= o0 + incident_prompt_line(*inc));
}

/// The most recent incidents, at most 25, with their recommended action.
pub fn incidents_prompt_section(incidents: &[IncidentRecord]) -> (r: String)
    ensures
        r@ == incidents_prompt_md(incidents@),
{
    let mut s = chars("## Registro de incidentes (recentes)\n\n");
    let ghost s0 = s@;
    if incidents.len() == 0 {
        extend_str(&mut s, "Nenhum incidente registrado.\n\n");
        assert(s@ =~= incidents_prompt_md(incidents@));
        return to_string(&s);
    }
    let n: usize = if incidents.len() < 25 {
        incidents.len()
    } else {
        25
    };
    let mut i: usize = 0;
    assert(incidents@.take(0) =~= Seq::<IncidentRecord>::empty());
    assert(s@ =~= s0 + incident_prompt_lines(incidents@.take(0)));
    while i < n
        invariant
            i <= n <= incidents@.len(),
            s@ == s0 + incident_prompt_lines(incidents@.take(i as int)),
        decreases n - i,
    {
        assert(incidents@.take(i + 1).drop_last() =~= incidents@.take(i as int));
        assert(incidents@.take(i + 1).last() == incidents@[i as int]);
        push_incident_prompt_line(&mut s, &incidents[i]);
        i = i + 1;
    }
    assert(incidents@.take(n as int) =~= first_n(incidents@, 25));
    extend_str(&mut s, "\n");
    assert(s@ =~= incidents_prompt_md(incidents@));
    to_string(&s)
}

// ---------------------------------------------------------------------------
// Maintenance commands
// ---------------------------------------------------------------------------

pub open spec fn profile_prompt_lines(s: Seq<ProfileV>) -> Seq<char>
    decreases s.len(),
{
    if s.len() == 0 {
        Seq::empty()
    } else {
        profile_prompt_lines(s.drop_last()) + "- **"@ + s.last().1 + "** — "@ + s.last().2 + " — `"@ + s.last().3 + "`\n"@
    }
}

pub open spec fn playbook_prompt_md(pb: MaintenancePlaybook) -> Seq<char> {
    "## Comandos de manutencao disponiveis\n\n"@ + "O Belarc pode executar automaticamente (tarefa oculta) ou manualmente:\n\n"@
        + profile_prompt_lines(profile_views(pb.profiles@))
        + "\n**Se ERRO detectado**, o agente enfileira reparo com perfil:\n"@
        + "- OperationsSuite/Fusion/AutoCAD/Libre travando → `AppsCriticos`\n"@ + "- Disco cheio → `Completo`\n"@
        + "- Demais → `Rapido`\n\n"@
}

/// The maintenance profiles the machine can run, and which one a detected error queues.
pub fn playbook_prompt_section(pb: &MaintenancePlaybook) -> (r: String)
    ensures
        r@ == playbook_prompt_md(*pb),
{
    let mut s = chars("## Comandos de manutencao disponiveis\n\n");
    extend_str(&mut s, "O Belarc pode executar automaticamente (tarefa oculta) ou manualmente:\n\n");
    let ghost s0 = s@;
    let ghost v = profile_views(pb.profiles@);
    let mut i: usize = 0;
    assert(v.take(0) =~= Seq::<ProfileV>::empty());
    assert(s@ =~= s0 + profile_prompt_lines(v.take(0)));
    while i < pb.profiles.len()
        invariant
            i <= pb.profiles@.len(),
            v == profile_views(pb.profiles@),
            s@ == s0 + profile_prompt_lines(v.take(i as int)),
        decreases pb.profiles@.len() - i,
    {
        assert(v.take(i + 1).drop_last() =~= v.take(i as int));
        assert(v.take(i + 1).last() == pb.profiles@[i as int]@);
        let p: &MaintenanceProfile = &pb.profiles[i];
        let ghost before = s@;
        extend_str(&mut s, "- **");
        extend_str(&mut s, p.label.as_str());
        extend_str(&mut s, "** — ");
        extend_str(&mut s, p.description.as_str());
        extend_str(&mut s, " — `");
        extend_str(&mut s, p.command.as_str());
        extend_str(&mut s, "`\n");
        assert(s@ =~= before + "- **"@ + v[i as int].1 + "** — "@ + v[i as int].2 + " — `"@ + v[i as int].3 + "`\n"@);
        i = i + 1;
    }
    assert(v.take(pb.profiles@.len() as int) =~= v);
    extend_str(&mut s, "\n**Se ERRO detectado**, o agente enfileira reparo com perfil:\n");
    extend_str(&mut s, "- OperationsSuite/Fusion/AutoCAD/Libre travando → `AppsCriticos`\n");
    extend_str(&mut s, "- Disco cheio → `Completo`\n");
    extend_str(&mut s, "- Demais → `Rapido`\n\n");
    assert(s@ =~= playbook_prompt_md(*pb));
    to_string(&s)
}

// ---------------------------------------------------------------------------
// Automatic repair
// ---------------------------------------------------------------------------

/// Each string among the values followed by `, `.
pub open spec fn reason_list(s: Seq<Json>) -> Seq<char>
    decreases s.len(),
{
    if s.len() == 0 {
        Seq::empty()
    } else {
        reason_list(s.drop_last()) + match s.last().str_spec() {
            Some(t) => t + ", "@,
            None => Seq::empty(),
        }
    }
}

/// Each string among the values on a line of its own.
pub open spec fn text_lines(s: Seq<Json>) -> Seq<char>
    decreases s.len(),
{
    if s.len() == 0 {
        Seq::empty()
    } else {
        text_lines(s.drop_last()) + match s.last().str_spec() {
            Some(t) => t + "\n"@,
            None => Seq::empty(),
        }
    }
}

pub open spec fn pending_md(data: Json) -> Seq<char> {
    match data.get_spec("pending"@) {
        Some(p) => if !p.is_null_spec() {
            "- **Fila pendente:** SIM — reparo aguardando execucao\n"@ + match get_array(p, "reasons"@) {
                Some(rs) => "- **Motivos:** "@ + reason_list(rs) + "\n"@,
                None => Seq::empty(),
            }
        } else {
            "- **Fila pendente:** nao\n"@
        },
        None => Seq::empty(),
    }
}

pub open spec fn delta_md(c: Json) -> Seq<char> {
    match c.get_spec("delta"@) {
        Some(d) => (match get_num(d, "disk_free_min_delta"@) {
            Some(x) => "  - Disco livre (min): "@ + fmt_fixed(x, 1, true) + "%\n"@,
            None => Seq::empty(),
        }) + match get_num(d, "disk_time_delta"@) {
            Some(x) => "  - Disk Time: "@ + fmt_fixed(x, 1, true) + "%\n"@,
            None => Seq::empty(),
        },
        None => Seq::empty(),
    }
}

pub open spec fn comparison_head(c: Json) -> Seq<char> {
    "- **"@ + str_or(c, "finished_at"@, "?"@) + "** | perfil `"@ + str_or(c, "profile"@, "?"@) + "` | melhorou: **"@
        + (if get_bool(c, "improved"@) == Some(true) {
        "SIM"@
    } else {
        "NAO"@
    }) + "** | id `"@ + str_or(c, "id"@, "?"@) + "`\n"@
}

pub open spec fn comparison_reasons(c: Json) -> Seq<char> {
    match get_array(c, "reasons"@) {
        Some(rs) => if strs_of(rs).len() > 0 {
            "  - Motivos: "@ + join(strs_of(rs), ", "@) + "\n"@
        } else {
            Seq::empty()
        },
        None => Seq::empty(),
    }
}

/// One repair run: when, with which profile, whether it improved, the deltas and
/// the reasons.
pub open spec fn comparison_md(c: Json) -> Seq<char> {
    comparison_head(c) + delta_md(c) + comparison_reasons(c)
}

pub open spec fn comparisons_md(s: Seq<Json>) -> Seq<char>
    decreases s.len(),
{
    if s.len() == 0 {
        Seq::empty()
    } else {
        comparisons_md(s.drop_last()) + comparison_md(s.last())
    }
}

pub open spec fn history_md(data: Json) -> Seq<char> {
    match get_array(data, "comparisons"@) {
        Some(cs) => if cs.len() > 0 {
            "\n### Historico de comparacao (antes vs depois)\n\n"@ + comparisons_md(first_n(cs, 8))
        } else {
            "\n_Nenhum reparo automatico executado ainda._\n"@
        },
        None => Seq::empty(),
    }
}

pub open spec fn log_tail_md(data: Json) -> Seq<char> {
    match get_array(data, "maintenance_log_tail"@) {
        Some(t) => if t.len() > 0 {
            "\n### Ultimas linhas maintenance.log\n\n```\n"@ + text_lines(first_n(t, 12)) + "```\n"@
        } else {
            Seq::empty()
        },
        None => Seq::empty(),
    }
}

/// The automatic-repair section: whether the task is installed, the queue, the
/// before/after comparisons and the end of the maintenance log.
pub open spec fn repair_prompt_md(repair: Option<CollectorResult>) -> Seq<char> {
    "## Reparo automatico Belarc\n\n"@ + match repair {
        None => "_Coletor repair_status indisponivel — reparo automatico pode nao estar configurado._\n\n"@
            + "Para ativar no PC: `agendar-reparo-automatico.ps1` (Admin) + copiar `reparo-automatico.ps1`.\n\n"@,
        Some(r) => "- **Tarefa oculta BelarcInventoryRepair:** "@ + (if get_bool(r.data, "scheduled_task_installed"@) == Some(
            true,
        ) {
            "instalada"@
        } else {
            "NAO instalada"@
        }) + "\n"@ + pending_md(r.data) + history_md(r.data) + log_tail_md(r.data) + "\n"@,
    }
}

fn push_reason_list(out: &mut Vec<char>, rs: &Vec<Json>)
    ensures
        final(out)@ == old(out)@ + reason_list(rs@),
{
    let ghost o0 = out@;
    let mut i: usize = 0;
    assert(rs@.take(0) =~= Seq::<Json>::empty());
    assert(out@ =~= o0 + reason_list(rs@.take(0)));
    while i < rs.len()
        invariant
            i <= rs@.len(),
            out@ == o0 + reason_list(rs@.take(i as int)),
        decreases rs@.len() - i,
    {
        assert(rs@.take(i + 1).drop_last() =~= rs@.take(i as int));
        assert(rs@.take(i + 1).last() == rs@[i as int]);
        match rs[i].as_str() {
            Some(x) => {
                extend_str(out, x);
                extend_str(out, ", ");
            },
            None => {},
        }
        proof {
            reveal_strlit("");
        }
        assert(out@ =~= o0 + reason_list(rs@.take(i + 1)));
        i = i + 1;
    }
    assert(rs@.take(rs@.len() as int) =~= rs@);
}

fn push_text_lines(out: &mut Vec<char>, t: &Vec<Json>, n: usize)
    requires
        n <= t@.len(),
    ensures
        final(out)@ == old(out)@ + text_lines(t@.take(n as int)),
{
    let ghost o0 = out@;
    let mut i: usize = 0;
    assert(t@.take(0) =~= Seq::<Json>::empty());
    assert(out@ =~= o0 + text_lines(t@.take(0)));
    while i < n
        invariant
            i <= n <= t@.len(),
            out@ == o0 + text_lines(t@.take(i as int)),
        decreases n - i,
    {
        assert(t@.take(i + 1).drop_last() =~= t@.take(i as int));
        assert(t@.take(i + 1).last() == t@[i as int]);
        match t[i].as_str() {
            Some(x) => {
                extend_str(out, x);
                extend_str(out, "\n");
            },
            None => {},
        }
        assert(out@ =~= o0 + text_lines(t@.take(i + 1)));
        i = i + 1;
    }
}

fn push_pending(out: &mut Vec<char>, data: &Json)
    ensures
        final(out)@ == old(out)@ + pending_md(*data),
{
    let ghost o0 = out@;
    match data.get("pending") {
        Some(p) => {
            if !p.is_null() {
                extend_str(out, "- **Fila pendente:** SIM — reparo aguardando execucao\n");
                match json_array(p, "reasons") {
                    Some(rs) => {
                        extend_str(out, "- **Motivos:** ");
                        push_reason_list(out, rs);
                        extend_str(out, "\n");
                    },
                    None => {},
                }
                proof {
                    reveal_strlit("");
                }
            } else {
                extend_str(out, "- **Fila pendente:** nao\n");
            }
        },
        None => {},
    }
    assert(out@ =~= o0 + pending_md(*data));
}

fn push_delta(out: &mut Vec<char>, c: &Json)
    ensures
        final(out)@ == old(out)@ + delta_md(*c),
{
    let ghost o0 = out@;
    match c.get("delta") {
        Some(d) => {
            match json_num(d, "disk_free_min_delta") {
                Some(x) => {
                    extend_str(out, "  - Disco livre (min): ");
                    extend(out, &fmt_decimal(x, 1, true));
                    extend_str(out, "%\n");
                },
                None => {},
            }
            let ghost o1 = out@;
            match json_num(d, "disk_time_delta") {
                Some(x) => {
                    extend_str(out, "  - Disk Time: ");
                    extend(out, &fmt_decimal(x, 1, true));
                    extend_str(out, "%\n");
                },
                None => {},
            }
            proof {
                reveal_strlit("");
            }
        },
        None => {},
    }
    assert(out@ =~= o0 + delta_md(*c));
}

fn push_comparison_head(out: &mut Vec<char>, c: &Json)
    ensures
        final(out)@ == old(out)@ + comparison_head(*c),
{
    let ghost o0 = out@;
    extend_str(out, "- **");
    push_str_or(out, c, "finished_at", "?");
    extend_str(out, "** | perfil `");
    push_str_or(out, c, "profile", "?");
    extend_str(out, "` | melhorou: **");
    let improved = match json_bool(c, "improved") {
        Some(b) => b,
        None => false,
    };
    if improved {
        extend_str(out, "SIM");
    } else {
        extend_str(out, "NAO");
    }
    extend_str(out, "** | id `");
    push_str_or(out, c, "id", "?");
    extend_str(out, "`\n");
    assert(out@ =~= o0 + comparison_head(*c));
}

fn push_comparison_reasons(out: &mut Vec<char>, c: &Json)
    ensures
        final(out)@ == old(out)@ + comparison_reasons(*c),
{
    let ghost o0 = out@;
    match json_array(c, "reasons") {
        Some(rs) => {
            let st = strs_of_v(rs);
            if st.len() > 0 {
                extend_str(out, "  - Motivos: ");
                extend(out, &crate::text::join_v(&st, ", "));
                extend_str(out, "\n");
            }
        },
        None => {},
    }
    proof {
        reveal_strlit("");
    }
    assert(out@ =~= o0 + comparison_reasons(*c));
}

fn push_comparison(out: &mut Vec<char>, c: &Json)
    ensures
        final(out)@ == old(out)@ + comparison_md(*c),
{
    let ghost o0 = out@;
    push_comparison_head(out, c);
    push_delta(out, c);
    push_comparison_reasons(out, c);
    assert(out@ =~= o0 + comparison_md(*c));
}

fn push_history(out: &mut Vec<char>, data: &Json)
    ensures
        final(out)@ == old(out)@ + history_md(*data),
{
    let ghost o0 = out@;
    match json_array(data, "comparisons") {
        Some(cs) => {
            if cs.len() > 0 {
                extend_str(out, "\n### Historico de comparacao (antes vs depois)\n\n");
                let ghost o1 = out@;
                let n: usize = if cs.len() < 8 {
                    cs.len()
                } else {
                    8
                };
                let mut i: usize = 0;
                assert(cs@.take(0) =~= Seq::<Json>::empty());
                assert(out@ =~= o1 + comparisons_md(cs@.take(0)));
                while i < n
                    invariant
                        i <= n <= cs@.len(),
                        out@ == o1 + comparisons_md(cs@.take(i as int)),
                    decreases n - i,
                {
                    assert(cs@.take(i + 1).drop_last() =~= cs@.take(i as int));
                    assert(cs@.take(i + 1).last() == cs@[i as int]);
                    push_comparison(out, &cs[i]);
                    i = i + 1;
                }
                assert(cs@.take(n as int) =~= first_n(cs@, 8));
            } else {
                extend_str(out, "\n_Nenhum reparo automatico executado ainda._\n");
            }
        },
        None => {},
    }
    assert(out@ =~= o0 + history_md(*data));
}

fn push_log_tail(out: &mut Vec<char>, data: &Json)
    ensures
        final(out)@ == old(out)@ + log_tail_md(*data),
{
    let ghost o0 = out@;
    match json_array(data, "maintenance_log_tail") {
        Some(t) => {
            if t.len() > 0 {
                extend_str(out, "\n### Ultimas linhas maintenance.log\n\n```\n");
                let n: usize = if t.len() < 12 {
                    t.len()
                } else {
                    12
                };
                push_text_lines(out, t, n);
                assert(t@.take(n as int) =~= first_n(t@, 12));
                extend_str(out, "```\n");
            }
        },
        None => {},
    }
    assert(out@ =~= o0 + log_tail_md(*data));
}

/// The automatic-repair section of the prompt.
pub fn repair_prompt_section(repair: Option<&CollectorResult>) -> (r: String)
    ensures
        r@ == repair_prompt_md(match repair {
            Some(c) => Some(*c),
            None => None,
        }),
{
    let mut s = chars("## Reparo automatico Belarc\n\n");
    match repair {
        None => {
            extend_str(
                &mut s,
                "_Coletor repair_status indisponivel — reparo automatico pode nao estar configurado._\n\n",
            );
            extend_str(
                &mut s,
                "Para ativar no PC: `agendar-reparo-automatico.ps1` (Admin) + copiar `reparo-automatico.ps1`.\n\n",
            );
        },
        Some(r) => {
            let task = match json_bool(&r.data, "scheduled_task_installed") {
                Some(b) => b,
                None => false,
            };
            extend_str(&mut s, "- **Tarefa oculta BelarcInventoryRepair:** ");
            if task {
                extend_str(&mut s, "instalada");
            } else {
                extend_str(&mut s, "NAO instalada");
            }
            extend_str(&mut s, "\n");
            push_pending(&mut s, &r.data);
            push_history(&mut s, &r.data);
            push_log_tail(&mut s, &r.data);
            extend_str(&mut s, "\n");
        },
    }
    assert(s@ =~= repair_prompt_md(match repair {
        Some(c) => Some(*c),
        None => None,
    }));
    to_string(&s)
}

// ---------------------------------------------------------------------------
// Performance
// ---------------------------------------------------------------------------

pub open spec fn val_line(label: Seq<char>, v: Option<Json>, suffix: Seq<char>) -> Seq<char> {
    match v {
        Some(x) => label + val_text(x) + suffix,
        None => Seq::empty(),
    }
}

pub open spec fn perf_values(d: Json) -> Seq<char> {
    val_line("- CPU: "@, at2(d, "cpu"@, "load_percent"@), "%\n"@) + val_line(
        "- RAM: "@,
        at2(d, "memory"@, "used_percent"@),
        "%\n"@,
    ) + val_line("- Disco I/O pico: "@, at2(d, "physical_disk_io"@, "peak_disk_time_percent"@), "%\n"@)
}

pub open spec fn erp_line(d: Json) -> Seq<char> {
    match d.get_spec("erp_server"@) {
        Some(erp) => "- ERP "@ + str_or(erp, "ip"@, "?"@) + ": "@ + (match get_bool(erp, "reachable"@) {
            Some(true) => "online"@,
            Some(false) => "OFFLINE"@,
            None => "?"@,
        }) + "\n"@,
        None => Seq::empty(),
    }
}

pub open spec fn queued_line(d: Json) -> Seq<char> {
    match d.get_spec("summary"@) {
        Some(sm) => if get_bool(sm, "auto_repair_queued"@) == Some(true) {
            "- **Reparo enfileirado nesta coleta:** sim\n"@
        } else {
            Seq::empty()
        },
        None => Seq::empty(),
    }
}

pub open spec fn perf_prompt_lines(d: Json) -> Seq<char> {
    perf_values(d) + erp_line(d) + queued_line(d)
}

pub open spec fn event_prompt_lines(d: Json) -> Seq<char> {
    match d.get_spec("summary"@) {
        Some(sm) => val_line("- Eventos apps criticos (14d): "@, sm.get_spec("critical_app_events_count"@), "\n"@)
            + val_line("- Eventos apps criticos HOJE: "@, sm.get_spec("critical_app_events_today"@), "\n"@),
        None => Seq::empty(),
    }
}

/// CPU, memory, disk and ERP reachability from the performance collector, and the
/// critical-application counts from the event-log collector.
pub open spec fn performance_prompt_md(perf: Option<CollectorResult>, ev: Option<CollectorResult>) -> Seq<char> {
    "## Performance e apps criticos\n\n"@ + (match perf {
        Some(p) => perf_prompt_lines(p.data),
        None => Seq::empty(),
    }) + (match ev {
        Some(e) => event_prompt_lines(e.data),
        None => Seq::empty(),
    }) + "\n"@
}

fn push_val_line(out: &mut Vec<char>, label: &str, v: Option<&Json>, suffix: &str)
    ensures
        final(out)@ == old(out)@ + val_line(label@, match v {
            Some(x) => Some(*x),
            None => None,
        }, suffix@),
{
    let ghost o0 = out@;
    match v {
        Some(x) => {
            extend_str(out, label);
            let t = fmt_val(x);
            extend_str(out, t.as_str());
            extend_str(out, suffix);
        },
        None => {},
    }
    assert(out@ =~= o0 + val_line(label@, match v {
        Some(x) => Some(*x),
        None => None,
    }, suffix@));
}

fn push_perf_values(out: &mut Vec<char>, d: &Json)
    ensures
        final(out)@ == old(out)@ + perf_values(*d),
{
    let ghost o0 = out@;
    push_val_line(out, "- CPU: ", at2_v(d, "cpu", "load_percent"), "%\n");
    push_val_line(out, "- RAM: ", at2_v(d, "memory", "used_percent"), "%\n");
    push_val_line(out, "- Disco I/O pico: ", at2_v(d, "physical_disk_io", "peak_disk_time_percent"), "%\n");
    assert(out@ =~= o0 + perf_values(*d));
}

fn push_erp_line(out: &mut Vec<char>, d: &Json)
    ensures
        final(out)@ == old(out)@ + erp_line(*d),
{
    let ghost o0 = out@;
    match d.get("erp_server") {
        Some(erp) => {
            extend_str(out, "- ERP ");
            push_str_or(out, erp, "ip", "?");
            extend_str(out, ": ");
            match json_bool(erp, "reachable") {
                Some(true) => extend_str(out, "online"),
                Some(false) => extend_str(out, "OFFLINE"),
                None => extend_str(out, "?"),
            }
            extend_str(out, "\n");
        },
        None => {},
    }
    assert(out@ =~= o0 + erp_line(*d));
}

fn push_queued_line(out: &mut Vec<char>, d: &Json)
    ensures
        final(out)@ == old(out)@ + queued_line(*d),
{
    let ghost o0 = out@;
    match d.get("summary") {
        Some(sm) => {
            match json_bool(sm, "auto_repair_queued") {
                Some(q) => {
                    if q {
                        extend_str(out, "- **Reparo enfileirado nesta coleta:** sim\n");
                    }
                },
                None => {},
            }
        },
        None => {},
    }
    proof {
        reveal_strlit("");
    }
    assert(out@ =~= o0 + queued_line(*d));
}

fn push_perf_prompt_lines(out: &mut Vec<char>, d: &Json)
    ensures
        final(out)@ == old(out)@ + perf_prompt_lines(*d),
{
    let ghost o0 = out@;
    push_perf_values(out, d);
    push_erp_line(out, d);
    push_queued_line(out, d);
    assert(out@ =~= o0 + perf_prompt_lines(*d));
}

fn push_event_prompt_lines(out: &mut Vec<char>, d: &Json)
    ensures
        final(out)@ == old(out)@ + event_prompt_lines(*d),
{
    let ghost o0 = out@;
    match d.get("summary") {
        Some(sm) => {
            push_val_line(out, "- Eventos apps criticos (14d): ", sm.get("critical_app_events_count"), "\n");
            push_val_line(out, "- Eventos apps criticos HOJE: ", sm.get("critical_app_events_today"), "\n");
        },
        None => {},
    }
    assert(out@ =~= o0 + event_prompt_lines(*d));
}

/// The performance section of the prompt.
pub fn performance_prompt_section(perf: Option<&CollectorResult>, ev: Option<&CollectorResult>) -> (r: String)
    ensures
        r@ == performance_prompt_md(
            match perf {
                Some(c) => Some(*c),
                None => None,
            },
            match ev {
                Some(c) => Some(*c),
                None => None,
            },
        ),
{
    let mut s = chars("## Performance e apps criticos\n\n");
    let ghost s0 = s@;
    match perf {
        Some(p) => push_perf_prompt_lines(&mut s, &p.data),
        None => {},
    }
    match ev {
        Some(e) => push_event_prompt_lines(&mut s, &e.data),
        None => {},
    }
    proof {
        reveal_strlit("");
    }
    extend_str(&mut s, "\n");
    assert(s@ =~= performance_prompt_md(
        match perf {
            Some(c) => Some(*c),
            None => None,
        },
        match ev {
            Some(c) => Some(*c),
            None => None,
        },
    ));
    to_string(&s)
}

// ---------------------------------------------------------------------------
// What is left to do
// ---------------------------------------------------------------------------

pub open spec fn is_todo_category(c: Seq<char>) -> bool {
    c == "known_app_hang"@ || c == "known_app_crash"@ || c == "erp_unreachable"@ || c == "disk_saturation"@
}

pub open spec fn todo_incident_items(s: Seq<IncidentRecord>) -> Seq<Seq<char>>
    decreases s.len(),
{
    if s.len() == 0 {
        Seq::empty()
    } else if is_todo_category(s.last().category@) {
        todo_incident_items(s.drop_last()).push("["@ + s.last().category@ + "] "@ + s.last().message@)
    } else {
        todo_incident_items(s.drop_last())
    }
}

pub open spec fn todo_alert_items(s: Seq<AlertRecord>) -> Seq<Seq<char>>
    decreases s.len(),
{
    if s.len() == 0 {
        Seq::empty()
    } else if s.last().severity == AlertSeverity::Critical || s.last().severity == AlertSeverity::Warning {
        todo_alert_items(s.drop_last()).push("[alerta "@ + s.last().category@ + "] "@ + s.last().message@)
    } else {
        todo_alert_items(s.drop_last())
    }
}

pub open spec fn todo_missing_items(cs: Seq<CollectorResult>) -> Seq<Seq<char>> {
    match crate::models::find_collector(cs, "software"@) {
        Some(sw) => match get_array(sw.data, "missing_standard"@) {
            Some(m) => strs_of(m).map_values(|l: Seq<char>| "Instalar software padrao: "@ + l),
            None => Seq::empty(),
        },
        None => Seq::empty(),
    }
}

/// The checklist: raise the score where it is under 75, the first ten incidents of
/// the kinds that need action, the warning and critical alerts, the standard software
/// that is missing, and a check of the ERP server.
pub open spec fn todo_items(
    total: u8,
    band: Seq<char>,
    alerts: Seq<AlertRecord>,
    incs: Seq<IncidentRecord>,
    cs: Seq<CollectorResult>,
    erp_ip: Seq<char>,
) -> Seq<Seq<char>> {
    (if total < 75 {
        seq!["Elevar conformidade de "@ + nat_digits(total as nat) + "% ("@ + band + ") para >= 75%"@]
    } else {
        Seq::empty()
    }) + todo_incident_items(first_n(incs, 10)) + todo_alert_items(alerts) + todo_missing_items(cs) + seq![
        "Verificar ping ERP "@ + erp_ip + " antes de usar OperationsSuite"@,
    ]
}

pub open spec fn numbered(items: Seq<Seq<char>>) -> Seq<char>
    decreases items.len(),
{
    if items.len() == 0 {
        Seq::empty()
    } else {
        numbered(items.drop_last()) + nat_digits(items.len()) + ". "@ + items.last() + "\n"@
    }
}

pub open spec fn todo_prompt_md(
    total: u8,
    band: Seq<char>,
    alerts: Seq<AlertRecord>,
    incs: Seq<IncidentRecord>,
    cs: Seq<CollectorResult>,
    erp_ip: Seq<char>,
) -> Seq<char> {
    let items = todo_items(total, band, alerts, incs, cs, erp_ip);
    "## Checklist — o que falta fazer\n\n"@ + (if items.len() == 0 {
        "- PC em boa forma — manter monitoramento.\n"@
    } else {
        numbered(items)
    }) + "\n"@
}

fn todo_incidents_v(incidents: &[IncidentRecord], items: &mut Vec<Vec<char>>)
    ensures
        crate::text::vviews(final(items)@) == crate::text::vviews(old(items)@) + todo_incident_items(first_n(incidents@, 10)),
{
    let ghost i0 = crate::text::vviews(items@);
    let n: usize = if incidents.len() < 10 {
        incidents.len()
    } else {
        10
    };
    let mut i: usize = 0;
    assert(incidents@.take(0) =~= Seq::<IncidentRecord>::empty());
    assert(crate::text::vviews(items@) =~= i0 + todo_incident_items(incidents@.take(0)));
    while i < n
        invariant
            i <= n <= incidents@.len(),
            crate::text::vviews(items@) == i0 + todo_incident_items(incidents@.take(i as int)),
        decreases n - i,
    {
        assert(incidents@.take(i + 1).drop_last() =~= incidents@.take(i as int));
        assert(incidents@.take(i + 1).last() == incidents@[i as int]);
        let inc = &incidents[i];
        let c = inc.category.as_str();
        if crate::text::str_eq(c, "known_app_hang") || crate::text::str_eq(c, "known_app_crash")
            || crate::text::str_eq(c, "erp_unreachable") || crate::text::str_eq(c, "disk_saturation") {
            let mut t = chars("[");
            extend_str(&mut t, c);
            extend_str(&mut t, "] ");
            extend_str(&mut t, inc.message.as_str());
            let ghost before = items@;
            items.push(t);
            assert(crate::text::vviews(items@) =~= crate::text::vviews(before).push(t@));
        }
        assert(crate::text::vviews(items@) =~= i0 + todo_incident_items(incidents@.take(i + 1)));
        i = i + 1;
    }
    assert(incidents@.take(n as int) =~= first_n(incidents@, 10));
}

fn todo_alerts_v(alerts: &[AlertRecord], items: &mut Vec<Vec<char>>)
    ensures
        crate::text::vviews(final(items)@) == crate::text::vviews(old(items)@) + todo_alert_items(alerts@),
{
    let ghost i0 = crate::text::vviews(items@);
    let mut i: usize = 0;
    assert(alerts@.take(0) =~= Seq::<AlertRecord>::empty());
    assert(crate::text::vviews(items@) =~= i0 + todo_alert_items(alerts@.take(0)));
    while i < alerts.len()
        invariant
            i <= alerts@.len(),
            crate::text::vviews(items@) == i0 + todo_alert_items(alerts@.take(i as int)),
        decreases alerts@.len() - i,
    {
        assert(alerts@.take(i + 1).drop_last() =~= alerts@.take(i as int));
        assert(alerts@.take(i + 1).last() == alerts@[i as int]);
        let a = &alerts[i];
        let urgent = match a.severity {
            AlertSeverity::Critical => true,
            AlertSeverity::Warning => true,
            AlertSeverity::Info => false,
        };
        if urgent {
            let mut t = chars("[alerta ");
            extend_str(&mut t, a.category.as_str());
            extend_str(&mut t, "] ");
            extend_str(&mut t, a.message.as_str());
            let ghost before = items@;
            items.push(t);
            assert(crate::text::vviews(items@) =~= crate::text::vviews(before).push(t@));
        }
        assert(crate::text::vviews(items@) =~= i0 + todo_alert_items(alerts@.take(i + 1)));
        i = i + 1;
    }
    assert(alerts@.take(alerts@.len() as int) =~= alerts@);
}

fn todo_missing_v(collectors: &[CollectorResult], items: &mut Vec<Vec<char>>)
    ensures
        crate::text::vviews(final(items)@) == crate::text::vviews(old(items)@) + todo_missing_items(collectors@),
{
    let ghost i0 = crate::text::vviews(items@);
    match crate::models::find_collector_exec(collectors, "software") {
        Some(sw) => match json_array(&sw.data, "missing_standard") {
            Some(m) => {
                let st = strs_of_v(m);
                let ghost sv = crate::text::vviews(st@);
                let ghost want = sv.map_values(|l: Seq<char>| "Instalar software padrao: "@ + l);
                let mut i: usize = 0;
                assert(crate::text::vviews(items@) =~= i0 + want.take(0));
                while i < st.len()
                    invariant
                        i <= st@.len(),
                        sv == crate::text::vviews(st@),
                        want == sv.map_values(|l: Seq<char>| "Instalar software padrao: "@ + l),
                        crate::text::vviews(items@) == i0 + want.take(i as int),
                    decreases st@.len() - i,
                {
                    let mut t = chars("Instalar software padrao: ");
                    extend(&mut t, &st[i]);
                    let ghost before = items@;
                    items.push(t);
                    assert(sv[i as int] == st@[i as int]@);
                    assert(crate::text::vviews(items@) =~= crate::text::vviews(before).push(t@));
                    assert(crate::text::vviews(items@) =~= i0 + want.take(i + 1));
                    i = i + 1;
                }
                assert(want.take(st@.len() as int) =~= want);
            },
            None => {},
        },
        None => {},
    }
    assert(crate::text::vviews(items@) =~= i0 + todo_missing_items(collectors@));
}

/// The checklist section of the prompt.
pub fn todo_prompt_section(
    total: u8,
    band: &str,
    alerts: &[AlertRecord],
    incidents: &[IncidentRecord],
    collectors: &[CollectorResult],
    profile: &CompanyProfile,
) -> (r: String)
    ensures
        r@ == todo_prompt_md(total, band@, alerts@, incidents@, collectors@, profile.erp_server_ip@),
{
    let mut items: Vec<Vec<char>> = Vec::new();
    if total < 75 {
        let mut t = chars("Elevar conformidade de ");
        extend(&mut t, &fmt_u64(total as u64));
        extend_str(&mut t, "% (");
        extend_str(&mut t, band);
        extend_str(&mut t, ") para >= 75%");
        items.push(t);
    }
    let ghost first = crate::text::vviews(items@);
    assert(first =~= (if total < 75 {
        seq!["Elevar conformidade de "@ + nat_digits(total as nat) + "% ("@ + band@ + ") para >= 75%"@]
    } else {
        Seq::<Seq<char>>::empty()
    }));
    todo_incidents_v(incidents, &mut items);
    todo_alerts_v(alerts, &mut items);
    todo_missing_v(collectors, &mut items);
    let mut t = chars("Verificar ping ERP ");
    extend_str(&mut t, profile.erp_server_ip.as_str());
    extend_str(&mut t, " antes de usar OperationsSuite");
    let ghost before = items@;
    items.push(t);
    let ghost iv = crate::text::vviews(items@);
    assert(iv =~= crate::text::vviews(before).push(t@));
    assert(iv =~= todo_items(total, band@, alerts@, incidents@, collectors@, profile.erp_server_ip@));
    let mut s = chars("## Checklist — o que falta fazer\n\n");
    let ghost s0 = s@;
    if items.len() == 0 {
        extend_str(&mut s, "- PC em boa forma — manter monitoramento.\n");
    } else {
        let mut i: usize = 0;
        assert(iv.take(0) =~= Seq::<Seq<char>>::empty());
        assert(s@ =~= s0 + numbered(iv.take(0)));
        while i < items.len()
            invariant
                i <= items@.len(),
                iv == crate::text::vviews(items@),
                s@ == s0 + numbered(iv.take(i as int)),
            decreases items@.len() - i,
        {
            assert(iv.take(i + 1).drop_last() =~= iv.take(i as int));
            assert(iv.take(i + 1).last() == items@[i as int]@);
            assert(iv.take(i + 1).len() == i + 1);
            extend(&mut s, &fmt_u64((i + 1) as u64));
            extend_str(&mut s, ". ");
            extend(&mut s, &items[i]);
            extend_str(&mut s, "\n");
            assert(s@ =~= s0 + numbered(iv.take(i + 1)));
            i = i + 1;
        }
        assert(iv.take(items@.len() as int) =~= iv);
    }
    extend_str(&mut s, "\n");
    assert(s@ =~= todo_prompt_md(total, band@, alerts@, incidents@, collectors@, profile.erp_server_ip@));
    to_string(&s)
}

// ---------------------------------------------------------------------------
// The whole prompt
// ---------------------------------------------------------------------------

/// The compliance section of the prompt for a machine with these collector results.
pub open spec fn breakdown_prompt_text(cs: Seq<CollectorResult>) -> Seq<char> {
    let total = total_spec(cs);
    "## Conformidade TI\n\n"@ + "**Score: "@ + nat_digits(total as nat) + "% — "@ + band_spec(total) + "**\n\n"@
        + "| Categoria | Pontos | Max |\n|-----------|-------:|----:|\n"@ + score_row("SMART"@, smart_of(cs).0, "30"@)
        + score_row("Seguranca"@, security_of(cs).0, "25"@) + score_row("Windows Update"@, windows_update_of(cs).0, "15"@)
        + score_row("Eventos"@, critical_events_of(cs).0, "10"@) + score_row("Disco livre"@, disk_free_of(cs).0, "10"@)
        + score_row("Temperatura"@, temperature_of(cs).0, "5"@) + score_row("Certificados"@, certificates_of(cs).0, "5"@)
        + (if notes_spec(cs).len() == 0 {
        Seq::empty()
    } else {
        "\n**Observacoes do score:**\n"@ + md_bullets(notes_spec(cs))
    }) + "\n"@
}

/// The maintenance section of the prompt for a company.
pub open spec fn playbook_prompt_text(p: CompanyProfile) -> Seq<char> {
    "## Comandos de manutencao disponiveis\n\n"@ + "O Belarc pode executar automaticamente (tarefa oculta) ou manualmente:\n\n"@
        + profile_prompt_lines(playbook_profiles(p)) + "\n**Se ERRO detectado**, o agente enfileira reparo com perfil:\n"@
        + "- OperationsSuite/Fusion/AutoCAD/Libre travando → `AppsCriticos`\n"@ + "- Disco cheio → `Completo`\n"@
        + "- Demais → `Rapido`\n\n"@
}

pub open spec fn prompt_intro() -> Seq<char> {
    "# Belarc Inventory — Prompt de diagnóstico TI\n\n"@
        + "_Cole este documento em uma IA para analise completa, plano de reparo e verificacao de melhorias._\n\n"@
        + "---\n\n"@ + "## Instrucoes para a IA\n\n"@
        + "Voce e um assistente de TI corporativa (Windows 10/11, rede LAN, ERP OperationsSuite, ESET, apps de engenharia).\n\n"@
        + "Analise **todos** os dados abaixo e responda:\n\n"@
        + "1. **Diagnostico** — causas provaveis dos problemas (OperationsSuite, disco, certificado, rede).\n"@
        + "2. **Prioridade** — o que corrigir primeiro (P0/P1/P2).\n"@
        + "3. **Comandos** — PowerShell/CMD adicionais alem dos ja executados pelo Belarc.\n"@
        + "4. **Verificacao** — como confirmar se o reparo automatico funcionou (compare metricas antes/depois).\n"@
        + "5. **O que falta** — tarefas pendentes, instalacoes ausentes, politicas TI.\n"@
        + "6. **Preventivo** — evitar recorrencia (OperationsSuite na LAN 192.0.2.25, SSD, temp).\n\n"@ + "---\n\n"@
}

pub open spec fn machine_lines(m: MachineSummary) -> Seq<char> {
    "## Identificacao do PC\n\n"@ + "- **Hostname:** "@ + m.hostname@ + "\n"@ + opt_line("- **Usuario:** "@, m.logged_user)
        + opt_line("- **IP LAN:** "@, m.ip_address) + "- **Status agente:** "@ + m.status.debug_name() + "\n"@
        + "- **Ultimo visto:** "@ + utc_text_or_empty(m.last_seen, "%Y-%m-%d %H:%M UTC"@) + "\n"@
}

pub open spec fn admin_lines(admin: Option<MachineAdmin>) -> Seq<char> {
    match admin {
        Some(a) => opt_line("- **Responsavel TI:** "@, a.owner_name) + opt_line("- **E-mail:** "@, a.primary_email)
            + opt_line("- **Notas manutencao:** "@, a.maintenance_notes),
        None => Seq::empty(),
    }
}

pub open spec fn prompt_identification(m: MachineSummary, admin: Option<MachineAdmin>) -> Seq<char> {
    machine_lines(m) + admin_lines(admin) + "\n"@
}

pub open spec fn admin_of(admin: Option<&MachineAdmin>) -> Option<MachineAdmin> {
    match admin {
        Some(a) => Some(*a),
        None => None,
    }
}

pub open spec fn prompt_footer(p: CompanyProfile, now: UtcTime) -> Seq<char> {
    "\n---\n\n"@ + "_Gerado em "@ + utc_text_or_empty(now, "%Y-%m-%d %H:%M UTC"@) + " | Belarc Inventory | Empresa: "@
        + p.company_name@ + " | ERP: "@ + p.erp_name@ + " @ "@ + p.erp_server_ip@ + "_\n"@
}

/// The diagnosis prompt of a machine written at `now`: instructions, identification,
/// score, alerts, incidents, automatic repair, performance, maintenance commands, the
/// checklist and a closing line.
pub open spec fn compliance_prompt_md(
    m: MachineSummary,
    cs: Seq<CollectorResult>,
    alerts: Seq<AlertRecord>,
    incs: Seq<IncidentRecord>,
    admin: Option<MachineAdmin>,
    p: CompanyProfile,
    now: UtcTime,
) -> Seq<char> {
    prompt_intro() + prompt_identification(m, admin) + breakdown_prompt_text(cs) + alerts_prompt_md(alerts)
        + incidents_prompt_md(incs) + repair_prompt_md(crate::models::find_collector(cs, "repair_status"@))
        + performance_prompt_md(
        crate::models::find_collector(cs, "performance"@),
        crate::models::find_collector(cs, "event_logs"@),
    ) + playbook_prompt_text(p) + todo_prompt_md(
        total_spec(cs),
        band_spec(total_spec(cs)),
        alerts,
        incs,
        cs,
        p.erp_server_ip@,
    ) + prompt_footer(p, now)
}

/// The prompt's sections of a breakdown and a playbook depend on the collector
/// results and the company alone.
pub proof fn lemma_prompt_sections(bd: ScoreBreakdown, cs: Seq<CollectorResult>, pb: MaintenancePlaybook, p: CompanyProfile, apps: Seq<crate::freeze::FreezeV>)
    requires
        breakdown_matches(bd, cs),
        playbook_matches(pb, p, apps),
    ensures
        breakdown_prompt_md(bd) == breakdown_prompt_text(cs),
        playbook_prompt_md(pb) == playbook_prompt_text(p),
{
    assert(views(bd.notes@).len() == bd.notes@.len());
}

#[verifier::rlimit(40)]
fn push_machine_lines(out: &mut Vec<char>, m: &MachineSummary)
    ensures
        final(out)@ == old(out)@ + machine_lines(*m),
{
    let ghost o0 = out@;
    extend_str(out, "## Identificacao do PC\n\n");
    extend_str(out, "- **Hostname:** ");
    extend_str(out, m.hostname.as_str());
    extend_str(out, "\n");
    crate::markdown::push_opt_line(out, "- **Usuario:** ", &m.logged_user);
    crate::markdown::push_opt_line(out, "- **IP LAN:** ", &m.ip_address);
    extend_str(out, "- **Status agente:** ");
    extend_str(out, m.status.debug_str());
    extend_str(out, "\n");
    extend_str(out, "- **Ultimo visto:** ");
    let seen = format_utc(m.last_seen, "%Y-%m-%d %H:%M UTC");
    extend_str(out, seen.as_str());
    extend_str(out, "\n");
    assert(out@ =~= o0 + machine_lines(*m));
}

fn push_admin_lines(out: &mut Vec<char>, admin: Option<&MachineAdmin>)
    ensures
        final(out)@ == old(out)@ + admin_lines(admin_of(admin)),
{
    let ghost o0 = out@;
    match admin {
        Some(a) => {
            crate::markdown::push_opt_line(out, "- **Responsavel TI:** ", &a.owner_name);
            crate::markdown::push_opt_line(out, "- **E-mail:** ", &a.primary_email);
            crate::markdown::push_opt_line(out, "- **Notas manutencao:** ", &a.maintenance_notes);
        },
        None => {},
    }
    assert(out@ =~= o0 + admin_lines(admin_of(admin)));
}

fn push_prompt_identification(out: &mut Vec<char>, m: &MachineSummary, admin: Option<&MachineAdmin>)
    ensures
        final(out)@ == old(out)@ + prompt_identification(*m, admin_of(admin)),
{
    let ghost o0 = out@;
    push_machine_lines(out, m);
    push_admin_lines(out, admin);
    extend_str(out, "\n");
    assert(out@ =~= o0 + prompt_identification(*m, admin_of(admin)));
}

fn push_prompt_footer(out: &mut Vec<char>, p: &CompanyProfile, now: UtcTime)
    ensures
        final(out)@ == old(out)@ + prompt_footer(*p, now),
{
    let ghost o0 = out@;
    extend_str(out, "\n---\n\n");
    extend_str(out, "_Gerado em ");
    let at = format_utc(now, "%Y-%m-%d %H:%M UTC");
    extend_str(out, at.as_str());
    extend_str(out, " | Belarc Inventory | Empresa: ");
    extend_str(out, p.company_name.as_str());
    extend_str(out, " | ERP: ");
    extend_str(out, p.erp_name.as_str());
    extend_str(out, " @ ");
    extend_str(out, p.erp_server_ip.as_str());
    extend_str(out, "_\n");
    assert(out@ =~= o0 + prompt_footer(*p, now));
}

/// The diagnosis prompt of a machine, stamped with `now`.
pub fn generate_compliance_prompt_md_at(
    machine: &MachineSummary,
    collectors: &[CollectorResult],
    alerts: &[AlertRecord],
    incidents: &[IncidentRecord],
    admin: Option<&MachineAdmin>,
    profile: &CompanyProfile,
    freeze_apps: &[FreezeProneApp],
    now: UtcTime,
) -> (r: String)
    requires
        collectors_sliceable(collectors@),
    ensures
        r@ == compliance_prompt_md(*machine, collectors@, alerts@, incidents@, admin_of(admin), *profile, now),
{
    let breakdown = compute_score_breakdown(machine, collectors);
    let playbook = maintenance_playbook(profile, freeze_apps);
    proof {
        lemma_prompt_sections(breakdown, collectors@, playbook, *profile, freeze_views(freeze_apps@));
    }
    let repair = crate::models::find_collector_exec(collectors, "repair_status");
    let performance = crate::models::find_collector_exec(collectors, "performance");
    let event_logs = crate::models::find_collector_exec(collectors, "event_logs");
    let mut md: Vec<char> = Vec::new();
    extend_str(&mut md, "# Belarc Inventory — Prompt de diagnóstico TI\n\n");
    extend_str(
        &mut md,
        "_Cole este documento em uma IA para analise completa, plano de reparo e verificacao de melhorias._\n\n",
    );
    extend_str(&mut md, "---\n\n");
    extend_str(&mut md, "## Instrucoes para a IA\n\n");
    extend_str(
        &mut md,
        "Voce e um assistente de TI corporativa (Windows 10/11, rede LAN, ERP OperationsSuite, ESET, apps de engenharia).\n\n",
    );
    extend_str(&mut md, "Analise **todos** os dados abaixo e responda:\n\n");
    extend_str(&mut md, "1. **Diagnostico** — causas provaveis dos problemas (OperationsSuite, disco, certificado, rede).\n");
    extend_str(&mut md, "2. **Prioridade** — o que corrigir primeiro (P0/P1/P2).\n");
    extend_str(&mut md, "3. **Comandos** — PowerShell/CMD adicionais alem dos ja executados pelo Belarc.\n");
    extend_str(
        &mut md,
        "4. **Verificacao** — como confirmar se o reparo automatico funcionou (compare metricas antes/depois).\n",
    );
    extend_str(&mut md, "5. **O que falta** — tarefas pendentes, instalacoes ausentes, politicas TI.\n");
    extend_str(&mut md, "6. **Preventivo** — evitar recorrencia (OperationsSuite na LAN 192.0.2.25, SSD, temp).\n\n");
    extend_str(&mut md, "---\n\n");
    assert(md@ =~= prompt_intro());
    push_prompt_identification(&mut md, machine, admin);
    let b = breakdown_prompt_section(&breakdown);
    extend_str(&mut md, b.as_str());
    let a = alerts_prompt_section(alerts);
    extend_str(&mut md, a.as_str());
    let i = incidents_prompt_section(incidents);
    extend_str(&mut md, i.as_str());
    let ghost p1 = md@;
    let rp = repair_prompt_section(repair);
    extend_str(&mut md, rp.as_str());
    let pf = performance_prompt_section(performance, event_logs);
    extend_str(&mut md, pf.as_str());
    let pl = playbook_prompt_section(&playbook);
    extend_str(&mut md, pl.as_str());
    let td = todo_prompt_section(breakdown.total, breakdown.band.as_str(), alerts, incidents, collectors, profile);
    extend_str(&mut md, td.as_str());
    push_prompt_footer(&mut md, profile, now);
    assert(md@ == compliance_prompt_md(*machine, collectors@, alerts@, incidents@, admin_of(admin), *profile, now));
    to_string(&md)
}

/// The diagnosis prompt of a machine, stamped with the current time.
pub fn generate_compliance_prompt_md(
    machine: &MachineSummary,
    collectors: &[CollectorResult],
    alerts: &[AlertRecord],
    incidents: &[IncidentRecord],
    admin: Option<&MachineAdmin>,
    profile: &CompanyProfile,
    freeze_apps: &[FreezeProneApp],
) -> (r: String)
    requires
        collectors_sliceable(collectors@),
    ensures
        exists|now: UtcTime|
            r@ == #[trigger] compliance_prompt_md(*machine, collectors@, alerts@, incidents@, admin_of(admin), *profile, now),
{
    let now = crate::ext::utc_now();
    generate_compliance_prompt_md_at(machine, collectors, alerts, incidents, admin, profile, freeze_apps, now)
}

} // verus!
