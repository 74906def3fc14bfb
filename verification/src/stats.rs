//! Figures for the dashboard: the fleet's health, the tickets' figures, and the
//! ticket IT opens from an alert.

use vstd::prelude::*;
use crate::compliance::{band_spec, score_band};
use crate::ext::{chrono_instant, parse_rfc3339, rfc3339_instant, seconds_between, utc_now, whole_seconds_between};
use crate::models::{AlertRecord, AlertSeverity, MachineStatus, MachineSummary, UtcTime};
use crate::text::{chars, extend_str, to_string, trim, trim_v};
use crate::tickets::Ticket;

verus! {

// ---------------------------------------------------------------------------
// Fleet health
// ---------------------------------------------------------------------------

pub struct FleetHealthBandCounts {
    pub excellent: u32,
    pub good: u32,
    pub attention: u32,
    pub problem: u32,
    pub critical: u32,
}

pub struct FleetMachineHealth {
    pub id: String,
    pub hostname: String,
    pub score: Option<u8>,
    pub band: String,
    pub alert_count: u32,
    pub status: String,
}

pub struct FleetHealthResponse {
    pub avg_score: Option<u8>,
    pub bands: FleetHealthBandCounts,
    pub machines: Vec<FleetMachineHealth>,
}

/// How many alerts belong to the machine.
pub open spec fn alert_count_of(alerts: Seq<AlertRecord>, id: Seq<char>) -> nat
    decreases alerts.len(),
{
    if alerts.len() == 0 {
        0
    } else {
        alert_count_of(alerts.drop_last(), id) + if alerts.last().machine_id@ == id {
            1nat
        } else {
            0nat
        }
    }
}

/// The scores of the machines that have one, in order.
pub open spec fn scores(ms: Seq<MachineSummary>) -> Seq<u8>
    decreases ms.len(),
{
    if ms.len() == 0 {
        Seq::empty()
    } else {
        match ms.last().health_score {
            Some(s) => scores(ms.drop_last()).push(s),
            None => scores(ms.drop_last()),
        }
    }
}

pub open spec fn score_sum(s: Seq<u8>) -> nat
    decreases s.len(),
{
    if s.len() == 0 {
        0
    } else {
        score_sum(s.drop_last()) + s.last() as nat
    }
}

/// How many of the scores fall in `[lo, hi]`.
pub open spec fn count_in(s: Seq<u8>, lo: u8, hi: u8) -> nat
    decreases s.len(),
{
    if s.len() == 0 {
        0
    } else {
        count_in(s.drop_last(), lo, hi) + if lo <= s.last() && s.last() <= hi {
            1nat
        } else {
            0nat
        }
    }
}

pub open spec fn status_name(s: MachineStatus) -> Seq<char> {
    match s {
        MachineStatus::Online => "online"@,
        MachineStatus::Offline => "offline"@,
    }
}

/// One machine's line: its score and band (`—` without a score), its alerts and
/// its status in lower case.
pub open spec fn machine_health_ok(m: MachineSummary, alerts: Seq<AlertRecord>, h: FleetMachineHealth) -> bool {
    &&& h.id@ == m.id@
    &&& h.hostname@ == m.hostname@
    &&& h.score == m.health_score
    &&& h.band@ == match m.health_score {
        Some(s) => band_spec(s),
        None => "—"@,
    }
    &&& h.alert_count == alert_count_of(alerts, m.id@)
    &&& h.status@ == status_name(m.status)
}

/// The fleet: the average of the scores (rounded down), how many machines fall in
/// each band, and one line per machine.
pub open spec fn fleet_ok(ms: Seq<MachineSummary>, alerts: Seq<AlertRecord>, r: FleetHealthResponse) -> bool {
    let sc = scores(ms);
    &&& r.avg_score == if sc.len() > 0 {
        Some((score_sum(sc) / sc.len()) as u8)
    } else {
        None
    }
    &&& r.bands.excellent == count_in(sc, 90, 100)
    &&& r.bands.good == count_in(sc, 75, 89)
    &&& r.bands.attention == count_in(sc, 50, 74)
    &&& r.bands.problem == count_in(sc, 25, 49)
    &&& r.bands.critical == sc.len() - count_in(sc, 25, 100)
    &&& r.machines@.len() == ms.len()
    &&& forall|i: int| 0 <= i < ms.len() ==> machine_health_ok(ms[i], alerts, #[trigger] r.machines@[i])
}

proof fn lemma_count_bounds(s: Seq<u8>)
    ensures
        count_in(s, 90, 100) + count_in(s, 75, 89) + count_in(s, 50, 74) + count_in(s, 25, 49) == count_in(s, 25, 100),
        count_in(s, 25, 100) <= s.len(),
        score_sum(s) <= 255 * s.len(),
    decreases s.len(),
{
    if s.len() > 0 {
        lemma_count_bounds(s.drop_last());
    }
}

fn alert_count_v(alerts: &[AlertRecord], id: &str) -> (r: u32)
    requires
        alerts@.len() <= u32::MAX,
    ensures
        r == alert_count_of(alerts@, id@),
{
    let mut n: u32 = 0;
    let mut i: usize = 0;
    assert(alerts@.take(0) =~= Seq::<AlertRecord>::empty());
    while i < alerts.len()
        invariant
            i <= alerts@.len(),
            alerts@.len() <= u32::MAX,
            n == alert_count_of(alerts@.take(i as int), id@),
            n <= i,
        decreases alerts@.len() - i,
    {
        assert(alerts@.take(i + 1).drop_last() =~= alerts@.take(i as int));
        assert(alerts@.take(i + 1).last() == alerts@[i as int]);
        if crate::text::str_eq(alerts[i].machine_id.as_str(), id) {
            n = n + 1;
        }
        i = i + 1;
    }
    assert(alerts@.take(alerts@.len() as int) =~= alerts@);
    n
}

/// The fleet's health from its machines and the unresolved alerts.
pub fn fleet_health(machines: &[MachineSummary], alerts: &[AlertRecord]) -> (r: FleetHealthResponse)
    requires
        machines@.len() <= u32::MAX,
        alerts@.len() <= u32::MAX,
    ensures
        fleet_ok(machines@, alerts@, r),
{
    let ghost ms = machines@;
    let mut bands = FleetHealthBandCounts { excellent: 0, good: 0, attention: 0, problem: 0, critical: 0 };
    let mut sum: u64 = 0;
    let mut count: u64 = 0;
    let mut out: Vec<FleetMachineHealth> = Vec::new();
    let mut i: usize = 0;
    assert(ms.take(0) =~= Seq::<MachineSummary>::empty());
    while i < machines.len()
        invariant
            i <= ms.len(),
            ms == machines@,
            ms.len() <= u32::MAX,
            alerts@.len() <= u32::MAX,
            count == scores(ms.take(i as int)).len(),
            sum == score_sum(scores(ms.take(i as int))),
            count <= i,
            sum <= 255 * count,
            bands.excellent == count_in(scores(ms.take(i as int)), 90, 100),
            bands.good == count_in(scores(ms.take(i as int)), 75, 89),
            bands.attention == count_in(scores(ms.take(i as int)), 50, 74),
            bands.problem == count_in(scores(ms.take(i as int)), 25, 49),
            bands.critical == scores(ms.take(i as int)).len() - count_in(scores(ms.take(i as int)), 25, 100),
            out@.len() == i,
            forall|k: int| 0 <= k < i ==> machine_health_ok(ms[k], alerts@, #[trigger] out@[k]),
        decreases ms.len() - i,
    {
        let m = &machines[i];
        assert(ms.take(i + 1).drop_last() =~= ms.take(i as int));
        assert(ms.take(i + 1).last() == ms[i as int]);
        let ghost prev = scores(ms.take(i as int));
        proof {
            lemma_count_bounds(prev);
        }
        let band = match m.health_score {
            Some(s) => {
                sum = sum + s as u64;
                count = count + 1;
                if 90 <= s && s <= 100 {
                    bands.excellent = bands.excellent + 1;
                } else if 75 <= s && s <= 89 {
                    bands.good = bands.good + 1;
                } else if 50 <= s && s <= 74 {
                    bands.attention = bands.attention + 1;
                } else if 25 <= s && s <= 49 {
                    bands.problem = bands.problem + 1;
                } else {
                    bands.critical = bands.critical + 1;
                }
                assert(prev.push(s).drop_last() =~= prev);
                score_band(s).to_string()
            },
            None => "—".to_string(),
        };
        let status = match m.status {
            MachineStatus::Online => "online".to_string(),
            MachineStatus::Offline => "offline".to_string(),
        };
        let alert_count = alert_count_v(alerts, m.id.as_str());
        out.push(
            FleetMachineHealth { id: m.id.clone(), hostname: m.hostname.clone(), score: m.health_score, band, alert_count, status },
        );
        i = i + 1;
    }
    assert(ms.take(ms.len() as int) =~= ms);
    let avg_score = if count > 0 {
        Some((sum / count) as u8)
    } else {
        None
    };
    FleetHealthResponse { avg_score, bands, machines: out }
}

// ---------------------------------------------------------------------------
// Ticket figures
// ---------------------------------------------------------------------------

pub struct TicketStatsByStatus {
    pub open: u32,
    pub in_progress: u32,
    pub waiting: u32,
    pub done: u32,
}

pub struct TicketAgeBuckets {
    pub under_1d: u32,
    pub d1_to_7: u32,
    pub over_7d: u32,
}

/// The tickets' figures; the average rating is `rating_sum / rated_count`.
pub struct TicketStats {
    pub total: u32,
    pub by_status: TicketStatsByStatus,
    pub open_age: TicketAgeBuckets,
    pub rated_count: u32,
    pub rating_sum: i64,
}

/// How long ago a ticket was opened, in whole days (rounded toward zero), at `now`;
/// none where its creation time does not read as RFC 3339.
pub open spec fn age_days_spec(created_at: Seq<char>, now: UtcTime) -> Option<int> {
    match rfc3339_instant(created_at) {
        Some((s, n)) => Some(crate::num::trunc_div(seconds_between(s, n, now.secs, now.nanos) as int, 86400)),
        None => None,
    }
}

pub fn ticket_open_age_days_at(created_at: &str, now: UtcTime) -> (r: Option<i64>)
    requires
        chrono_instant(now.secs, now.nanos),
    ensures
        match r {
            Some(d) => age_days_spec(created_at@, now) == Some(d as int),
            None => age_days_spec(created_at@, now) is None,
        },
{
    match parse_rfc3339(created_at) {
        Some(t) => {
            let secs = whole_seconds_between(t, now);
            Some(crate::num::trunc_div_i64(secs, 86400))
        },
        None => None,
    }
}

/// The ticket's age in days at the current time.
pub fn ticket_open_age_days(created_at: &str) -> (r: Option<i64>)
    ensures
        exists|now: UtcTime|
            chrono_instant(now.secs, now.nanos) && match r {
                Some(d) => age_days_spec(created_at@, now) == Some(d as int),
                None => age_days_spec(created_at@, now) is None,
            },
{
    let now = utc_now();
    ticket_open_age_days_at(created_at, now)
}

/// What a ticket figure counts.
#[derive(Clone, Copy, PartialEq, Eq, Structural)]
pub enum TicketKind {
    Open,
    InProgress,
    Waiting,
    Done,
    UnderADay,
    OneToSevenDays,
    OverSevenDays,
    Rated,
}

/// The age bucket of a ticket that is not closed: 0 under a day (also where its
/// creation time does not read), 1 from one to seven days, 2 over seven days.
pub open spec fn age_bucket(t: Ticket, now: UtcTime) -> int {
    match age_days_spec(t.created_at@, now) {
        Some(d) => if d < 1 {
            0
        } else if d <= 7 {
            1
        } else {
            2
        },
        None => 0,
    }
}

pub open spec fn is_kind(t: Ticket, k: TicketKind, now: UtcTime) -> bool {
    let st = t.status@;
    match k {
        TicketKind::Open => st != "in_progress"@ && st != "waiting"@ && st != "done"@,
        TicketKind::InProgress => st == "in_progress"@,
        TicketKind::Waiting => st == "waiting"@,
        TicketKind::Done => st == "done"@,
        TicketKind::UnderADay => st != "done"@ && age_bucket(t, now) == 0,
        TicketKind::OneToSevenDays => st != "done"@ && age_bucket(t, now) == 1,
        TicketKind::OverSevenDays => st != "done"@ && age_bucket(t, now) == 2,
        TicketKind::Rated => t.rating is Some,
    }
}

pub open spec fn count_kind(s: Seq<Ticket>, k: TicketKind, now: UtcTime) -> nat
    decreases s.len(),
{
    if s.len() == 0 {
        0
    } else {
        count_kind(s.drop_last(), k, now) + if is_kind(s.last(), k, now) {
            1nat
        } else {
            0nat
        }
    }
}

pub open spec fn rating_total(s: Seq<Ticket>) -> int
    decreases s.len(),
{
    if s.len() == 0 {
        0
    } else {
        rating_total(s.drop_last()) + match s.last().rating {
            Some(r) => r as int,
            None => 0,
        }
    }
}

/// The figures: how many tickets by status, the tickets not closed by age, how many
/// are rated and the sum of their ratings.
pub open spec fn counts_ok(ts: Seq<Ticket>, now: UtcTime, r: TicketStats) -> bool {
    &&& r.by_status.open == count_kind(ts, TicketKind::Open, now)
    &&& r.by_status.in_progress == count_kind(ts, TicketKind::InProgress, now)
    &&& r.by_status.waiting == count_kind(ts, TicketKind::Waiting, now)
    &&& r.by_status.done == count_kind(ts, TicketKind::Done, now)
    &&& r.open_age.under_1d == count_kind(ts, TicketKind::UnderADay, now)
    &&& r.open_age.d1_to_7 == count_kind(ts, TicketKind::OneToSevenDays, now)
    &&& r.open_age.over_7d == count_kind(ts, TicketKind::OverSevenDays, now)
    &&& r.rated_count == count_kind(ts, TicketKind::Rated, now)
    &&& r.rating_sum == rating_total(ts)
}

pub open spec fn stats_ok(ts: Seq<Ticket>, now: UtcTime, r: TicketStats) -> bool {
    r.total == ts.len() && counts_ok(ts, now, r)
}

proof fn lemma_count_step(s: Seq<Ticket>, now: UtcTime)
    requires
        s.len() > 0,
    ensures
        forall|k: TicketKind|
            #[trigger] count_kind(s, k, now) == count_kind(s.drop_last(), k, now) + if is_kind(s.last(), k, now) {
                1nat
            } else {
                0nat
            },
        rating_total(s) == rating_total(s.drop_last()) + match s.last().rating {
            Some(r) => r as int,
            None => 0,
        },
{
}

proof fn lemma_count_le(s: Seq<Ticket>, k: TicketKind, now: UtcTime)
    ensures
        count_kind(s, k, now) <= s.len(),
    decreases s.len(),
{
    if s.len() > 0 {
        lemma_count_le(s.drop_last(), k, now);
    }
}

proof fn lemma_rating_bounds(s: Seq<Ticket>)
    ensures
        -0x8000_0000 * s.len() <= rating_total(s) <= 0x7fff_ffff * s.len(),
    decreases s.len(),
{
    if s.len() > 0 {
        lemma_rating_bounds(s.drop_last());
    }
}

/// The tickets' figures at `now`.
pub fn ticket_stats_at(tickets: &[Ticket], now: UtcTime) -> (r: TicketStats)
    requires
        tickets@.len() <= u32::MAX,
        chrono_instant(now.secs, now.nanos),
    ensures
        stats_ok(tickets@, now, r),
{
    let ghost ts = tickets@;
    let mut r = TicketStats {
        total: tickets.len() as u32,
        by_status: TicketStatsByStatus { open: 0, in_progress: 0, waiting: 0, done: 0 },
        open_age: TicketAgeBuckets { under_1d: 0, d1_to_7: 0, over_7d: 0 },
        rated_count: 0,
        rating_sum: 0,
    };
    let mut i: usize = 0;
    assert(ts.take(0) =~= Seq::<Ticket>::empty());
    while i < tickets.len()
        invariant
            i <= ts.len(),
            ts == tickets@,
            ts.len() <= u32::MAX,
            chrono_instant(now.secs, now.nanos),
            r.total == ts.len(),
            r.by_status.open == count_kind(ts.take(i as int), TicketKind::Open, now),
            r.by_status.in_progress == count_kind(ts.take(i as int), TicketKind::InProgress, now),
            r.by_status.waiting == count_kind(ts.take(i as int), TicketKind::Waiting, now),
            r.by_status.done == count_kind(ts.take(i as int), TicketKind::Done, now),
            r.open_age.under_1d == count_kind(ts.take(i as int), TicketKind::UnderADay, now),
            r.open_age.d1_to_7 == count_kind(ts.take(i as int), TicketKind::OneToSevenDays, now),
            r.open_age.over_7d == count_kind(ts.take(i as int), TicketKind::OverSevenDays, now),
            r.rated_count == count_kind(ts.take(i as int), TicketKind::Rated, now),
            r.rating_sum == rating_total(ts.take(i as int)),
        decreases ts.len() - i,
    {
        let t = &tickets[i];
        let ghost pre = ts.take(i as int);
        assert(ts.take(i + 1).drop_last() =~= pre);
        assert(ts.take(i + 1).last() == ts[i as int]);
        proof {
            lemma_count_le(pre, TicketKind::Open, now);
            lemma_count_le(pre, TicketKind::InProgress, now);
            lemma_count_le(pre, TicketKind::Waiting, now);
            lemma_count_le(pre, TicketKind::Done, now);
            lemma_count_le(pre, TicketKind::UnderADay, now);
            lemma_count_le(pre, TicketKind::OneToSevenDays, now);
            lemma_count_le(pre, TicketKind::OverSevenDays, now);
            lemma_count_le(pre, TicketKind::Rated, now);
            lemma_rating_bounds(pre);
            reveal_strlit("in_progress");
            reveal_strlit("waiting");
            reveal_strlit("done");
            assert("in_progress"@[0] != "waiting"@[0]);
            assert("in_progress"@[0] != "done"@[0]);
            assert("waiting"@[0] != "done"@[0]);
        }
        let st = t.status.as_str();
        if crate::text::str_eq(st, "in_progress") {
            r.by_status.in_progress = r.by_status.in_progress + 1;
        } else if crate::text::str_eq(st, "waiting") {
            r.by_status.waiting = r.by_status.waiting + 1;
        } else if crate::text::str_eq(st, "done") {
            r.by_status.done = r.by_status.done + 1;
        } else {
            r.by_status.open = r.by_status.open + 1;
        }
        if !crate::text::str_eq(st, "done") {
            match ticket_open_age_days_at(t.created_at.as_str(), now) {
                Some(d) => {
                    if d < 1 {
                        r.open_age.under_1d = r.open_age.under_1d + 1;
                    } else if d <= 7 {
                        r.open_age.d1_to_7 = r.open_age.d1_to_7 + 1;
                    } else {
                        r.open_age.over_7d = r.open_age.over_7d + 1;
                    }
                },
                None => {
                    r.open_age.under_1d = r.open_age.under_1d + 1;
                },
            }
        }
        match t.rating {
            Some(x) => {
                r.rated_count = r.rated_count + 1;
                r.rating_sum = r.rating_sum + x as i64;
            },
            None => {},
        }
        proof {
            lemma_count_step(ts.take(i + 1), now);
        }
        i = i + 1;
    }
    assert(ts.take(ts.len() as int) =~= ts);
    r
}

/// The tickets' figures now.
pub fn ticket_stats(tickets: &[Ticket]) -> (r: TicketStats)
    requires
        tickets@.len() <= u32::MAX,
    ensures
        exists|now: UtcTime| chrono_instant(now.secs, now.nanos) && stats_ok(tickets@, now, r),
{
    let now = utc_now();
    ticket_stats_at(tickets, now)
}

// ---------------------------------------------------------------------------
// A ticket from an alert
// ---------------------------------------------------------------------------

/// The first 77 characters of a long message and `…`; a message of up to 80
/// characters whole.
pub open spec fn short_message(m: Seq<char>) -> Seq<char> {
    if m.len() > 80 {
        m.take(77) + "…"@
    } else {
        m
    }
}

/// What IT's ticket for an alert says: its title, description and priority.
pub struct AlertTicket {
    pub title: String,
    pub description: String,
    pub priority: &'static str,
}

pub open spec fn alert_ticket_ok(a: AlertRecord, r: AlertTicket) -> bool {
    &&& r.title@ == "["@ + a.category@ + "] "@ + short_message(trim(a.message@))
    &&& r.description@ == "Chamado gerado a partir de alerta.\n\n"@ + "Host: "@ + a.hostname@ + "\n"@ + "Severidade: "@
        + a.severity.debug_name() + "\n"@ + "Categoria: "@ + a.category@ + "\n"@ + "Mensagem: "@ + a.message@ + "\n"@
        + "Alerta ID: "@ + a.id@ + "\n"@
    &&& r.priority@ == match a.severity {
        AlertSeverity::Critical => "high"@,
        AlertSeverity::Warning => "normal"@,
        AlertSeverity::Info => "low"@,
    }
}

pub fn alert_ticket(a: &AlertRecord) -> (r: AlertTicket)
    ensures
        alert_ticket_ok(*a, r),
{
    let msg = trim_v(&chars(a.message.as_str()));
    let mut title = chars("[");
    extend_str(&mut title, a.category.as_str());
    extend_str(&mut title, "] ");
    if msg.len() > 80 {
        crate::text::extend(&mut title, &crate::text::copy_range(&msg, 0, 77));
        extend_str(&mut title, "…");
    } else {
        crate::text::extend(&mut title, &msg);
    }
    let mut d = chars("Chamado gerado a partir de alerta.\n\n");
    extend_str(&mut d, "Host: ");
    extend_str(&mut d, a.hostname.as_str());
    extend_str(&mut d, "\n");
    extend_str(&mut d, "Severidade: ");
    extend_str(&mut d, a.severity.debug_str());
    extend_str(&mut d, "\n");
    extend_str(&mut d, "Categoria: ");
    extend_str(&mut d, a.category.as_str());
    extend_str(&mut d, "\n");
    extend_str(&mut d, "Mensagem: ");
    extend_str(&mut d, a.message.as_str());
    extend_str(&mut d, "\n");
    extend_str(&mut d, "Alerta ID: ");
    extend_str(&mut d, a.id.as_str());
    extend_str(&mut d, "\n");
    let priority: &'static str = match a.severity {
        AlertSeverity::Critical => "high",
        AlertSeverity::Warning => "normal",
        AlertSeverity::Info => "low",
    };
    let ghost m = trim(a.message@);
    assert(title@ =~= "["@ + a.category@ + "] "@ + short_message(m));
    assert(d@ =~= "Chamado gerado a partir de alerta.\n\n"@ + "Host: "@ + a.hostname@ + "\n"@ + "Severidade: "@
        + a.severity.debug_name() + "\n"@ + "Categoria: "@ + a.category@ + "\n"@ + "Mensagem: "@ + a.message@ + "\n"@
        + "Alerta ID: "@ + a.id@ + "\n"@);
    AlertTicket { title: to_string(&title), description: to_string(&d), priority }
}


/// The alerts of one machine, in order (a report shows only its own).
pub open spec fn alerts_of_spec(alerts: Seq<AlertRecord>, machine_id: Seq<char>) -> Seq<AlertRecord>
    decreases alerts.len(),
{
    if alerts.len() == 0 {
        Seq::empty()
    } else {
        let rest = alerts_of_spec(alerts.drop_last(), machine_id);
        if alerts.last().machine_id@ == machine_id {
            rest.push(alerts.last())
        } else {
            rest
        }
    }
}

pub fn alerts_of_machine(alerts: Vec<AlertRecord>, machine_id: &str) -> (r: Vec<AlertRecord>)
    ensures
        r@ == alerts_of_spec(alerts@, machine_id@),
{
    let ghost all = alerts@;
    let mut out: Vec<AlertRecord> = Vec::new();
    let mut rest = alerts;
    let n = rest.len();
    let mut i: usize = 0;
    assert(all.take(0) =~= Seq::<AlertRecord>::empty());
    while i < n
        invariant
            n == all.len(),
            i <= n,
            rest@ == all.skip(i as int),
            out@ == alerts_of_spec(all.take(i as int), machine_id@),
        decreases n - i,
    {
        let a = rest.remove(0);
        assert(all.skip(i as int)[0] == all[i as int]);
        assert(all.skip(i as int).drop_first() =~= all.skip(i + 1));
        assert(all.take(i + 1).drop_last() =~= all.take(i as int));
        assert(all.take(i + 1).last() == all[i as int]);
        if crate::text::str_eq(a.machine_id.as_str(), machine_id) {
            out.push(a);
        }
        i = i + 1;
    }
    assert(all.take(n as int) =~= all);
    out
}

} // verus!
