//! How the server files what agents send: which machine a registration belongs to,
//! and which collector results it stores.

use vstd::prelude::*;
use crate::ext::{chrono_instant, format_rfc3339, rfc3339_text, sha256_hex};
use crate::models::UtcTime;
use crate::models::{fingerprint_key, machine_fingerprint, CollectorResult};
use crate::tickets::DbError;
use crate::text::{chars, lt_v, seq_lt, str_eq};

verus! {

/// How long an enrollment token enrolls, in hours.
pub const ENROLLMENT_HOURS: i64 = 24;

/// The instant `hours` after `now`, where the seconds stay within `i64`.
pub open spec fn after_hours(now: UtcTime, hours: i64) -> Option<UtcTime> {
    let secs = now.secs + hours * 3600;
    if i64::MIN <= secs <= i64::MAX {
        Some(UtcTime { secs: secs as i64, nanos: now.nanos })
    } else {
        None
    }
}

pub fn expiry_after(now: UtcTime, hours: i64) -> (r: Option<UtcTime>)
    ensures
        r == after_hours(now, hours),
{
    let h = hours as i128;
    assert(-0x8000_0000_0000_0000 * 3600 <= h * 3600 <= 0x7fff_ffff_ffff_ffff * 3600) by (nonlinear_arith)
        requires -0x8000_0000_0000_0000 <= h <= 0x7fff_ffff_ffff_ffff {}
    let secs: i128 = (now.secs as i128) + h * 3600;
    if secs < i64::MIN as i128 || secs > i64::MAX as i128 {
        None
    } else {
        Some(UtcTime { secs: secs as i64, nanos: now.nanos })
    }
}

/// The expiry written for a new enrollment token issued at `now`: 24 hours later, as
/// RFC 3339 text; empty where that instant is past chrono's range (where issuing
/// panics, the server being centuries off).
pub fn enrollment_expiry(now: UtcTime) -> (r: String)
    ensures
        match after_hours(now, ENROLLMENT_HOURS) {
            Some(t) => if chrono_instant(t.secs, t.nanos) {
                r@ == rfc3339_text(t.secs, t.nanos)
            } else {
                r@.len() == 0
            },
            None => r@.len() == 0,
        },
{
    match expiry_after(now, ENROLLMENT_HOURS) {
        Some(t) => format_rfc3339(t),
        None => String::new(),
    }
}

/// A stored enrollment token, issued by an IT session for one new machine.
pub struct EnrollmentToken {
    pub active: bool,
    /// When it stops enrolling, as RFC 3339 text.
    pub expires_at: String,
    pub consumed_at: Option<String>,
}

/// A token enrolls a new machine while it is active, unexpired (its expiry text
/// sorts after `now`, as the database compares them) and unused.
pub open spec fn enrollment_valid_spec(t: Option<EnrollmentToken>, now: Seq<char>) -> bool {
    t matches Some(x) && x.active && seq_lt(now, x.expires_at@) && x.consumed_at is None
}

/// The row a new enrollment token starts as when issued at `now`: active, unused, and
/// expiring [`ENROLLMENT_HOURS`] later.
pub fn issued_enrollment_token(now: UtcTime) -> (r: EnrollmentToken)
    ensures
        r.active,
        r.consumed_at is None,
        r.expires_at@ == match after_hours(now, ENROLLMENT_HOURS) {
            Some(t) => if chrono_instant(t.secs, t.nanos) {
                rfc3339_text(t.secs, t.nanos)
            } else {
                Seq::empty()
            },
            None => Seq::empty(),
        },
{
    let e = enrollment_expiry(now);
    proof {
        match after_hours(now, ENROLLMENT_HOURS) {
            Some(t) => if !chrono_instant(t.secs, t.nanos) {
                assert(e@ =~= Seq::<char>::empty());
            },
            None => {
                assert(e@ =~= Seq::<char>::empty());
            },
        }
    }
    EnrollmentToken { active: true, expires_at: e, consumed_at: None }
}

/// A freshly issued token enrolls a machine exactly while the current time's text
/// sorts before its expiry, 24 hours after issue.
pub proof fn law_issued_token_enrolls_until_expiry(now: UtcTime, t: EnrollmentToken, at: Seq<char>)
    requires
        t.active,
        t.consumed_at is None,
        t.expires_at@ == match after_hours(now, ENROLLMENT_HOURS) {
            Some(x) => if chrono_instant(x.secs, x.nanos) {
                rfc3339_text(x.secs, x.nanos)
            } else {
                Seq::empty()
            },
            None => Seq::empty(),
        },
    ensures
        enrollment_valid_spec(Some(t), at) == seq_lt(at, t.expires_at@),
{
}

pub fn enrollment_valid(t: Option<&EnrollmentToken>, now: &str) -> (r: bool)
    ensures
        r == enrollment_valid_spec(
            match t {
                Some(x) => Some(*x),
                None => None,
            },
            now@,
        ),
{
    match t {
        Some(x) => x.active && x.consumed_at.is_none() && lt_v(&chars(now), &chars(x.expires_at.as_str())),
        None => false,
    }
}

/// Enrolling a machine uses its token up: it is deactivated and marked consumed now.
pub fn consume_enrollment(t: EnrollmentToken, now: &str) -> (r: EnrollmentToken)
    ensures
        !r.active,
        r.consumed_at matches Some(c) && c@ == now@,
        r.expires_at == t.expires_at,
{
    EnrollmentToken { active: false, expires_at: t.expires_at, consumed_at: Some(now.to_string()) }
}

/// An enrollment token enrolls one machine only: once used, it never enrolls another,
/// at any later time.
pub proof fn law_enrollment_token_single_use(used: EnrollmentToken, later: Seq<char>)
    requires
        !used.active,
        used.consumed_at is Some,
    ensures
        !enrollment_valid_spec(Some(used), later),
{
}

/// What a registration does.
pub enum Registration {
    /// The hardware is known: that machine takes the new token.
    SameHardware(String),
    /// The token is known: that machine's hardware details are refreshed.
    SameToken(String),
    /// A new machine, enrolled with a valid token.
    Enroll,
}

pub open spec fn registration_ok(
    by_fingerprint: Option<String>,
    by_token: Option<String>,
    enrollment_valid: bool,
    r: Result<Registration, DbError>,
) -> bool {
    match by_fingerprint {
        Some(id) => r matches Ok(Registration::SameHardware(x)) && x@ == id@,
        None => match by_token {
            Some(id) => r matches Ok(Registration::SameToken(x)) && x@ == id@,
            None => if enrollment_valid {
                r matches Ok(Registration::Enroll)
            } else {
                r matches Err(DbError::InvalidToken)
            },
        },
    }
}

/// Decides a registration from the machine with the same hardware fingerprint, the
/// machine with the same token, and whether the token is a valid, unused enrollment
/// token: the same hardware always keeps its record; a new machine needs a valid
/// enrollment.
pub fn registration_action(
    by_fingerprint: Option<String>,
    by_token: Option<String>,
    enrollment_valid: bool,
) -> (r: Result<Registration, DbError>)
    ensures
        registration_ok(by_fingerprint, by_token, enrollment_valid, r),
{
    match by_fingerprint {
        Some(id) => Ok(Registration::SameHardware(id)),
        None => match by_token {
            Some(id) => Ok(Registration::SameToken(id)),
            None => if enrollment_valid {
                Ok(Registration::Enroll)
            } else {
                Err(DbError::InvalidToken)
            },
        },
    }
}

/// A machine whose hardware is on record is never enrolled a second time, whatever
/// token it brings.
pub proof fn law_known_hardware_keeps_its_record(
    id: String,
    by_token: Option<String>,
    enrollment_valid: bool,
    r: Result<Registration, DbError>,
)
    requires
        registration_ok(Some(id), by_token, enrollment_valid, r),
    ensures
        r matches Ok(Registration::SameHardware(x)) && x@ == id@,
{
}

/// What the server does with one collector result.
pub enum InventoryAction {
    /// Nothing: the collector failed, or its data is unchanged.
    Skip,
    /// Store the result; where a different one was stored, report the collector and
    /// the hash it replaces.
    Store(Option<(String, String)>),
}

pub open spec fn inventory_ok(c: CollectorResult, stored_hash: Option<String>, r: InventoryAction) -> bool {
    if c.error is Some {
        r is Skip
    } else {
        match stored_hash {
            Some(h) => if h@ == c.hash@ {
                r is Skip
            } else {
                r matches InventoryAction::Store(Some(ch)) && ch.0@ == c.name@ && ch.1@ == h@
            },
            None => r matches InventoryAction::Store(None),
        }
    }
}

/// Decides what to do with a collector result given the hash stored for that
/// collector: failed results and unchanged data are skipped.
pub fn inventory_action(c: &CollectorResult, stored_hash: Option<String>) -> (r: InventoryAction)
    ensures
        inventory_ok(*c, stored_hash, r),
{
    if c.error.is_some() {
        return InventoryAction::Skip;
    }
    match stored_hash {
        Some(h) => {
            if crate::text::str_eq(h.as_str(), c.hash.as_str()) {
                InventoryAction::Skip
            } else {
                InventoryAction::Store(Some((c.name.clone(), h)))
            }
        },
        None => InventoryAction::Store(None),
    }
}

/// Sending the same data twice stores it once: a result whose hash is the stored one
/// is skipped.
pub proof fn law_unchanged_data_is_not_stored_again(c: CollectorResult, h: String, r: InventoryAction)
    requires
        h@ == c.hash@,
        inventory_ok(c, Some(h), r),
    ensures
        r is Skip,
{
}


/// What an inventory refreshes of its machine from the identity collector: the
/// logged-in user, the address (`ip_primary`, else `ip_address`) and the uptime,
/// each only where the collector reports it.
pub struct IdentityUpdate {
    pub logged_user: Option<String>,
    pub ip_address: Option<String>,
    pub uptime_seconds: Option<u64>,
}

pub open spec fn json_text_field(d: crate::json::Json, key: Seq<char>) -> Option<Seq<char>> {
    match d.get_spec(key) {
        Some(v) => v.str_spec(),
        None => None,
    }
}

pub open spec fn identity_update_ok(cs: Seq<CollectorResult>, r: Option<IdentityUpdate>) -> bool {
    match crate::models::find_collector(cs, "identity"@) {
        None => r is None,
        Some(c) => r matches Some(u) && crate::admin::ostr(u.logged_user) == json_text_field(c.data, "logged_user"@)
            && crate::admin::ostr(u.ip_address) == (match json_text_field(c.data, "ip_primary"@) {
            Some(ip) => Some(ip),
            None => json_text_field(c.data, "ip_address"@),
        }) && u.uptime_seconds == (match c.data.get_spec("uptime_seconds"@) {
            Some(v) => v.u64_spec(),
            None => None,
        }),
    }
}

fn text_field(d: &crate::json::Json, key: &str) -> (r: Option<String>)
    ensures
        crate::admin::ostr(r) == json_text_field(*d, key@),
{
    match d.get(key) {
        Some(v) => match v.as_str() {
            Some(s) => Some(s.to_string()),
            None => None,
        },
        None => None,
    }
}

pub fn inventory_identity(collectors: &[CollectorResult]) -> (r: Option<IdentityUpdate>)
    ensures
        identity_update_ok(collectors@, r),
{
    match crate::models::find_collector_exec(collectors, "identity") {
        None => None,
        Some(c) => {
            let ip = match text_field(&c.data, "ip_primary") {
                Some(ip) => Some(ip),
                None => text_field(&c.data, "ip_address"),
            };
            let uptime = match c.data.get("uptime_seconds") {
                Some(v) => v.as_u64(),
                None => None,
            };
            Some(IdentityUpdate { logged_user: text_field(&c.data, "logged_user"), ip_address: ip, uptime_seconds: uptime })
        },
    }
}

/// What the fleet's deduplication reads of a stored machine.
pub struct MachineIdentity {
    pub id: String,
    pub machine_uuid: Option<String>,
    pub serial: Option<String>,
    pub mac_primary: Option<String>,
    pub hostname: String,
}

pub open spec fn otext(o: Option<String>) -> Seq<char> {
    match o {
        Some(s) => s@,
        None => Seq::empty(),
    }
}

/// The hardware fingerprint of a stored machine.
pub open spec fn identity_fp(m: MachineIdentity) -> Seq<char> {
    sha256_hex(fingerprint_key(otext(m.machine_uuid), otext(m.serial), otext(m.mac_primary), m.hostname@))
}

/// The first of the first `n` machines with fingerprint `f`, or -1.
pub open spec fn first_with_fp(ms: Seq<MachineIdentity>, f: Seq<char>, n: int) -> int
    decreases n,
{
    if n <= 0 {
        -1
    } else {
        let j = first_with_fp(ms, f, n - 1);
        if j >= 0 {
            j
        } else if identity_fp(ms[n - 1]) == f {
            n - 1
        } else {
            -1
        }
    }
}

/// What the deduplication does with one stored machine.
pub enum Dedupe {
    /// The first machine of its fingerprint stays and is stamped with it.
    Keep { id: String, fingerprint: String },
    /// A later machine of the same fingerprint: its snapshots, heartbeats, alerts and
    /// incidents move to `into`, and it is deleted.
    Merge { from: String, into: String },
}

/// The step for machine `i`, the machines given most recently seen first.
pub open spec fn dedupe_step_ok(ms: Seq<MachineIdentity>, i: int, d: Dedupe) -> bool {
    let j = first_with_fp(ms, identity_fp(ms[i]), i);
    if j < 0 {
        d matches Dedupe::Keep { id, fingerprint } && id@ == ms[i].id@ && fingerprint@ == identity_fp(ms[i])
    } else {
        d matches Dedupe::Merge { from, into } && from@ == ms[i].id@ && into@ == ms[j].id@
    }
}

proof fn lemma_first_with_fp(ms: Seq<MachineIdentity>, f: Seq<char>, n: int)
    requires
        0 <= n <= ms.len(),
    ensures
        first_with_fp(ms, f, n) < n,
        first_with_fp(ms, f, n) >= 0 ==> identity_fp(ms[first_with_fp(ms, f, n)]) == f,
        first_with_fp(ms, f, n) >= 0 ==> forall|k: int|
            0 <= k < first_with_fp(ms, f, n) ==> identity_fp(#[trigger] ms[k]) != f,
        first_with_fp(ms, f, n) < 0 ==> forall|k: int| 0 <= k < n ==> identity_fp(#[trigger] ms[k]) != f,
    decreases n,
{
    if n > 0 {
        lemma_first_with_fp(ms, f, n - 1);
    }
}

/// Finds a fingerprint among those kept so far.
fn kept_index(kept: &Vec<(String, String)>, fp: &str) -> (r: Option<usize>)
    ensures
        match r {
            Some(k) => k < kept@.len() && kept@[k as int].0@ == fp@ && forall|m: int|
                0 <= m < k ==> (#[trigger] kept@[m]).0@ != fp@,
            None => forall|m: int| 0 <= m < kept@.len() ==> (#[trigger] kept@[m]).0@ != fp@,
        },
{
    let mut k: usize = 0;
    while k < kept.len()
        invariant
            k <= kept@.len(),
            forall|m: int| 0 <= m < k ==> (#[trigger] kept@[m]).0@ != fp@,
        decreases kept@.len() - k,
    {
        if str_eq(kept[k].0.as_str(), fp) {
            return Some(k);
        }
        k = k + 1;
    }
    None
}

fn fingerprint_of(m: &MachineIdentity) -> (r: String)
    ensures
        r@ == identity_fp(*m),
{
    let u = crate::tickets::opt_ref(&m.machine_uuid);
    let sn = crate::tickets::opt_ref(&m.serial);
    let mac = crate::tickets::opt_ref(&m.mac_primary);
    proof {
        assert(crate::models::opt_text(u) == otext(m.machine_uuid));
        assert(crate::models::opt_text(sn) == otext(m.serial));
        assert(crate::models::opt_text(mac) == otext(m.mac_primary));
    }
    machine_fingerprint(u, sn, mac, m.hostname.as_str())
}

pub open spec fn fp_kept(kept: Seq<(String, String)>, f: Seq<char>) -> bool {
    exists|m: int| 0 <= m < kept.len() && (#[trigger] kept[m]).0@ == f
}

/// Folds the machines that share a hardware fingerprint into the most recently seen
/// of them (`machines`: most recently seen first), as one step per machine.
pub fn dedupe_plan(machines: &[MachineIdentity]) -> (r: Vec<Dedupe>)
    ensures
        r@.len() == machines@.len(),
        forall|i: int| 0 <= i < machines@.len() ==> dedupe_step_ok(machines@, i, #[trigger] r@[i]),
{
    let ghost ms = machines@;
    // (fingerprint, id) of each machine kept, in order
    let mut kept: Vec<(String, String)> = Vec::new();
    let ghost mut kept_at: Seq<int> = Seq::empty();
    let mut out: Vec<Dedupe> = Vec::new();
    let mut i: usize = 0;
    while i < machines.len()
        invariant
            i <= ms.len(),
            ms == machines@,
            out@.len() == i,
            forall|k: int| 0 <= k < i ==> dedupe_step_ok(ms, k, #[trigger] out@[k]),
            kept_at.len() == kept@.len(),
            forall|m: int| 0 <= m < kept@.len() ==> 0 <= #[trigger] kept_at[m] < i,
            forall|m: int|
                0 <= m < kept@.len() ==> (#[trigger] kept@[m]).0@ == identity_fp(ms[kept_at[m]]) && kept@[m].1@
                    == ms[kept_at[m]].id@,
            forall|m: int|
                0 <= m < kept@.len() ==> first_with_fp(ms, identity_fp(ms[#[trigger] kept_at[m]]), i as int)
                    == kept_at[m],
            forall|k: int| 0 <= k < i ==> fp_kept(kept@, identity_fp(#[trigger] ms[k])),
        decreases ms.len() - i,
    {
        let fp = fingerprint_of(&machines[i]);
        proof {
            lemma_first_with_fp(ms, fp@, i as int);
        }
        let ghost old_kept = kept@;
        let ghost old_at = kept_at;
        match kept_index(&kept, fp.as_str()) {
            Some(k) => {
                let into = kept[k].1.clone();
                proof {
                    assert(identity_fp(ms[kept_at[k as int]]) == fp@);
                    assert(first_with_fp(ms, fp@, i as int) == kept_at[k as int]);
                    assert(dedupe_step_ok(ms, i as int, Dedupe::Merge { from: machines[i as int].id, into }));
                }
                out.push(Dedupe::Merge { from: machines[i].id.clone(), into });
                proof {
                    assert(dedupe_step_ok(ms, i as int, out@[i as int]));
                    assert(fp_kept(kept@, identity_fp(ms[i as int])));
                }
            },
            None => {
                proof {
                    let j = first_with_fp(ms, fp@, i as int);
                    if j >= 0 {
                        assert(fp_kept(kept@, identity_fp(ms[j])));
                        let m = choose|m: int| 0 <= m < kept@.len() && (#[trigger] kept@[m]).0@ == identity_fp(ms[j]);
                        assert(kept@[m].0@ == fp@);
                        assert(false);
                    }
                }
                out.push(Dedupe::Keep { id: machines[i].id.clone(), fingerprint: fp.clone() });
                kept.push((fp, machines[i].id.clone()));
                proof {
                    kept_at = kept_at.push(i as int);
                    assert(kept@[kept@.len() - 1] == (fp, machines@[i as int].id));
                    assert forall|k: int| 0 <= k < i implies fp_kept(kept@, identity_fp(#[trigger] ms[k])) by {
                        assert(fp_kept(old_kept, identity_fp(ms[k])));
                        let m = choose|m: int| 0 <= m < old_kept.len() && (#[trigger] old_kept[m]).0@ == identity_fp(ms[k]);
                        assert(kept@[m] == old_kept[m]);
                    }
                    assert(fp_kept(kept@, identity_fp(ms[i as int]))) by {
                        assert(kept@[kept@.len() - 1].0@ == identity_fp(ms[i as int]));
                    }
                    assert(dedupe_step_ok(ms, i as int, out@[i as int]));
                }
            },
        }
        proof {
            assert forall|m: int| 0 <= m < kept@.len() implies first_with_fp(
                ms,
                identity_fp(ms[#[trigger] kept_at[m]]),
                i + 1,
            ) == kept_at[m] by {
                let f = identity_fp(ms[kept_at[m]]);
                if m < old_kept.len() {
                    assert(kept_at[m] == old_at[m]);
                    assert(first_with_fp(ms, f, i as int) == kept_at[m]);
                } else {
                    assert(kept_at[m] == i);
                    assert(first_with_fp(ms, f, i as int) < 0);
                }
            }
        }
        i = i + 1;
    }
    out
}

/// After the deduplication no two machines that stay share a fingerprint, and every
/// machine folded away goes into the first machine of its fingerprint, which stays.
pub proof fn law_dedupe_one_machine_per_fingerprint(ms: Seq<MachineIdentity>, plan: Seq<Dedupe>)
    requires
        plan.len() == ms.len(),
        forall|i: int| 0 <= i < ms.len() ==> dedupe_step_ok(ms, i, #[trigger] plan[i]),
    ensures
        forall|i: int, j: int|
            0 <= i < j < ms.len() && (#[trigger] plan[i]) is Keep && (#[trigger] plan[j]) is Keep ==> identity_fp(
                ms[i],
            ) != identity_fp(ms[j]),
        forall|j: int|
            0 <= j < ms.len() && (#[trigger] plan[j]) is Merge ==> exists|i: int|
                0 <= i < j && (#[trigger] plan[i]) is Keep && identity_fp(ms[i]) == identity_fp(ms[j])
                    && plan[j]->into@ == ms[i].id@,
{
    assert forall|i: int, j: int|
        0 <= i < j < ms.len() && (#[trigger] plan[i]) is Keep && (#[trigger] plan[j]) is Keep implies identity_fp(
            ms[i],
        ) != identity_fp(ms[j]) by {
        assert(dedupe_step_ok(ms, j, plan[j]));
        lemma_first_with_fp(ms, identity_fp(ms[j]), j);
    }
    assert forall|j: int| 0 <= j < ms.len() && (#[trigger] plan[j]) is Merge implies exists|i: int|
        0 <= i < j && (#[trigger] plan[i]) is Keep && identity_fp(ms[i]) == identity_fp(ms[j]) && plan[j]->into@
            == ms[i].id@ by {
        assert(dedupe_step_ok(ms, j, plan[j]));
        lemma_first_with_fp(ms, identity_fp(ms[j]), j);
        let i = first_with_fp(ms, identity_fp(ms[j]), j);
        assert(dedupe_step_ok(ms, i, plan[i]));
        lemma_first_with_fp(ms, identity_fp(ms[i]), i);
        assert(first_with_fp(ms, identity_fp(ms[i]), i) < 0);
        assert(plan[i] is Keep);
    }
}

} // verus!
