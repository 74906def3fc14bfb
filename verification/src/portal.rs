//! The accounts of the ticket portal: the departments a machine receives tickets
//! for, the account each machine's agent opens sessions with, what a session learns
//! of itself, and the checks on new accounts and on archiving a department.

use vstd::prelude::*;
use crate::compliance::views;
use crate::tickets::{
    department_slug_spec, portal_receive_departments, receive_departments_spec, ticket_department_slug, ApiError,
    DbError, PortalUser,
};
use crate::text::{chars, extend_str, str_eq, to_string, trim, trim_v};

verus! {

fn contains_text(v: &Vec<String>, s: &str) -> (r: bool)
    ensures
        r == views(v@).contains(s@),
{
    let ghost vv = views(v@);
    let mut i: usize = 0;
    while i < v.len()
        invariant
            i <= v@.len(),
            vv == views(v@),
            forall|k: int| 0 <= k < i ==> vv[k] != s@,
        decreases v@.len() - i,
    {
        if str_eq(v[i].as_str(), s) {
            assert(vv[i as int] == s@);
            return true;
        }
        i = i + 1;
    }
    assert(!vv.contains(s@));
    false
}

fn slice_contains(v: &[String], s: &str) -> (r: bool)
    ensures
        r == views(v@).contains(s@),
{
    let ghost vv = views(v@);
    let mut i: usize = 0;
    while i < v.len()
        invariant
            i <= v@.len(),
            vv == views(v@),
            forall|k: int| 0 <= k < i ==> vv[k] != s@,
        decreases v@.len() - i,
    {
        if str_eq(v[i].as_str(), s) {
            assert(vv[i as int] == s@);
            return true;
        }
        i = i + 1;
    }
    assert(!vv.contains(s@));
    false
}

// ---------------------------------------------------------------------------
// The departments a machine receives
// ---------------------------------------------------------------------------

/// The departments IT asks a machine to receive tickets for, checked in order
/// against the active departments (`active`): each is normalised to its id, an
/// unknown or archived one refuses the whole request, and repeats are dropped.
pub open spec fn routing_spec(requested: Seq<Seq<char>>, active: Seq<Seq<char>>) -> Result<Seq<Seq<char>>, Seq<char>>
    decreases requested.len(),
{
    if requested.len() == 0 {
        Ok(Seq::empty())
    } else {
        match routing_spec(requested.drop_last(), active) {
            Err(e) => Err(e),
            Ok(ds) => match department_slug_spec(requested.last()) {
                None => Err("setor de recebimento invalido"@),
                Some(n) => if !active.contains(n) {
                    Err("setor de recebimento inexistente ou arquivado"@)
                } else if ds.contains(n) {
                    Ok(ds)
                } else {
                    Ok(ds.push(n))
                },
            },
        }
    }
}

pub fn routing_departments(requested: &[String], active: &[String]) -> (r: Result<Vec<String>, ApiError>)
    ensures
        match r {
            Ok(ds) => routing_spec(views(requested@), views(active@)) == Ok::<Seq<Seq<char>>, Seq<char>>(views(ds@)),
            Err(e) => routing_spec(views(requested@), views(active@)) matches Err(m) && e matches ApiError::Internal(x)
                && x@ == m,
        },
{
    let ghost rq = views(requested@);
    let ghost av = views(active@);
    let mut out: Vec<String> = Vec::new();
    let mut i: usize = 0;
    assert(rq.take(0) =~= Seq::<Seq<char>>::empty());
    assert(views(out@) =~= Seq::<Seq<char>>::empty());
    while i < requested.len()
        invariant
            i <= requested@.len(),
            rq == views(requested@),
            av == views(active@),
            routing_spec(rq.take(i as int), av) == Ok::<Seq<Seq<char>>, Seq<char>>(views(out@)),
        decreases requested@.len() - i,
    {
        proof {
            assert(rq.take(i + 1).drop_last() =~= rq.take(i as int));
            assert(rq.take(i + 1).last() == requested@[i as int]@);
        }
        let n = match ticket_department_slug(requested[i].as_str()) {
            Some(n) => n,
            None => {
                proof {
                    lemma_routing_err_stays(rq, av, i + 1);
                }
                return Err(ApiError::Internal("setor de recebimento invalido".to_owned()));
            },
        };
        if !slice_contains(active, n.as_str()) {
            proof {
                lemma_routing_err_stays(rq, av, i + 1);
            }
            return Err(ApiError::Internal("setor de recebimento inexistente ou arquivado".to_owned()));
        }
        if !contains_text(&out, n.as_str()) {
            out.push(n);
            assert(views(out@) =~= routing_spec(rq.take(i as int), av)->Ok_0.push(n@));
        }
        i = i + 1;
    }
    assert(rq.take(requested@.len() as int) =~= rq);
    Ok(out)
}

/// Once the departments asked for so far are refused, the whole request is.
proof fn lemma_routing_err_stays(rq: Seq<Seq<char>>, av: Seq<Seq<char>>, i: int)
    requires
        0 <= i <= rq.len(),
        routing_spec(rq.take(i), av) is Err,
    ensures
        routing_spec(rq, av) == routing_spec(rq.take(i), av),
    decreases rq.len() - i,
{
    if i < rq.len() {
        assert(rq.take(i + 1).drop_last() =~= rq.take(i));
        lemma_routing_err_stays(rq, av, i + 1);
    } else {
        assert(rq.take(i) =~= rq);
    }
}

/// The departments a machine's registration update leaves: those asked for, checked
/// as in [`routing_departments`], or, where the update names none, the ones stored.
pub fn admin_receive_departments(requested: Option<&[String]>, active: &[String], stored: Vec<String>) -> (r: Result<
    Vec<String>,
    ApiError,
>)
    ensures
        match requested {
            None => r matches Ok(ds) && ds == stored,
            Some(req) => match r {
                Ok(ds) => routing_spec(views(req@), views(active@)) == Ok::<Seq<Seq<char>>, Seq<char>>(views(ds@)),
                Err(e) => routing_spec(views(req@), views(active@)) matches Err(m) && e matches ApiError::Internal(x)
                    && x@ == m,
            },
        },
{
    match requested {
        None => Ok(stored),
        Some(req) => routing_departments(req, active),
    }
}

/// The departments of `ds` that are active, in order.
pub open spec fn active_only_spec(ds: Seq<Seq<char>>, active: Seq<Seq<char>>) -> Seq<Seq<char>>
    decreases ds.len(),
{
    if ds.len() == 0 {
        Seq::empty()
    } else {
        let rest = active_only_spec(ds.drop_last(), active);
        if active.contains(ds.last()) {
            rest.push(ds.last())
        } else {
            rest
        }
    }
}

/// The receiving departments of a machine that are still active: a device session
/// receives only those.
pub fn active_only(ds: &[String], active: &[String]) -> (r: Vec<String>)
    ensures
        views(r@) == active_only_spec(views(ds@), views(active@)),
{
    let ghost dv = views(ds@);
    let ghost av = views(active@);
    let mut out: Vec<String> = Vec::new();
    let mut i: usize = 0;
    assert(dv.take(0) =~= Seq::<Seq<char>>::empty());
    assert(views(out@) =~= Seq::<Seq<char>>::empty());
    while i < ds.len()
        invariant
            i <= ds@.len(),
            dv == views(ds@),
            av == views(active@),
            views(out@) == active_only_spec(dv.take(i as int), av),
        decreases ds@.len() - i,
    {
        assert(dv.take(i + 1).drop_last() =~= dv.take(i as int));
        assert(dv.take(i + 1).last() == ds@[i as int]@);
        if slice_contains(active, ds[i].as_str()) {
            out.push(ds[i].clone());
            assert(views(out@) =~= active_only_spec(dv.take(i as int), av).push(ds@[i as int]@));
        }
        i = i + 1;
    }
    assert(dv.take(ds@.len() as int) =~= dv);
    out
}

/// The departments a machine is set to receive are all active, and none is listed
/// twice.
pub proof fn law_routing_active_and_distinct(requested: Seq<Seq<char>>, active: Seq<Seq<char>>)
    requires
        routing_spec(requested, active) is Ok,
    ensures
        forall|k: int|
            0 <= k < routing_spec(requested, active)->Ok_0.len() ==> active.contains(
                #[trigger] routing_spec(requested, active)->Ok_0[k],
            ),
        forall|k: int, l: int|
            0 <= k < l < routing_spec(requested, active)->Ok_0.len() ==> #[trigger] routing_spec(
                requested,
                active,
            )->Ok_0[k] != #[trigger] routing_spec(requested, active)->Ok_0[l],
    decreases requested.len(),
{
    if requested.len() > 0 {
        law_routing_active_and_distinct(requested.drop_last(), active);
    }
}

// ---------------------------------------------------------------------------
// The account of a machine's agent
// ---------------------------------------------------------------------------

/// The name a machine's portal account shows: the owner IT registered, else the
/// logged-in user, else `Portal — {hostname}`.
pub open spec fn device_display_name_spec(owner: Option<Seq<char>>, logged_user: Option<Seq<char>>, hostname: Seq<char>) -> Seq<char> {
    match owner {
        Some(o) if trim(o).len() > 0 => o,
        _ => match logged_user {
            Some(u) => u,
            None => "Portal — "@ + hostname,
        },
    }
}

pub fn device_display_name(owner: Option<&str>, logged_user: Option<&str>, hostname: &str) -> (r: String)
    ensures
        r@ == device_display_name_spec(
            match owner {
                Some(o) => Some(o@),
                None => None,
            },
            match logged_user {
                Some(u) => Some(u@),
                None => None,
            },
            hostname@,
        ),
{
    if let Some(o) = owner {
        if trim_v(&chars(o)).len() > 0 {
            return o.to_owned();
        }
    }
    match logged_user {
        Some(u) => u.to_owned(),
        None => {
            let mut v = chars("Portal — ");
            extend_str(&mut v, hostname);
            to_string(&v)
        },
    }
}

/// The portal account of a machine's agent: it only ever gets sessions through the
/// machine's token, never a password login.
pub struct DeviceAccount {
    /// The stored account's id, or a fresh one.
    pub id: String,
    pub username: String,
    /// The stored account's hash, or, for a new account, the `device-session-only`
    /// marker, which no password matches.
    pub password_hash: String,
    /// `requester` where the machine receives no department, else `sector_agent`.
    pub role: &'static str,
    /// The first department it receives.
    pub department: Option<String>,
}

/// The account of a machine's agent (`existing`: the id and password hash of the
/// account already stored under its name, if any).
pub fn device_portal_account(machine_id: &str, receive_departments: &[String], existing: Option<(String, String)>) -> (r:
    DeviceAccount)
    ensures
        r.username@ == "device-"@ + machine_id@ + "-portal"@,
        r.role@ == (if receive_departments@.len() == 0 {
            "requester"@
        } else {
            "sector_agent"@
        }),
        match r.department {
            Some(d) => receive_departments@.len() > 0 && d@ == receive_departments@[0]@,
            None => receive_departments@.len() == 0,
        },
        match existing {
            Some((id, hash)) => r.id == id && r.password_hash == hash,
            None => r.id@.len() == 36 && r.password_hash@ == "device-session-only"@,
        },
{
    let mut u = chars("device-");
    extend_str(&mut u, machine_id);
    extend_str(&mut u, "-portal");
    let (id, password_hash) = match existing {
        Some((id, hash)) => (id, hash),
        None => (crate::models::new_id(), "device-session-only".to_string()),
    };
    let department = if receive_departments.len() == 0 {
        None
    } else {
        Some(receive_departments[0].clone())
    };
    DeviceAccount {
        id,
        username: to_string(&u),
        password_hash,
        role: if receive_departments.len() == 0 {
            "requester"
        } else {
            "sector_agent"
        },
        department,
    }
}

/// What a portal session learns of itself.
pub struct PortalMe {
    pub authenticated: bool,
    pub username: Option<String>,
    pub display_name: Option<String>,
    pub role: Option<String>,
    pub department: Option<String>,
    /// Requesters and machine accounts open tickets.
    pub can_open_ticket: bool,
    pub receive_departments: Vec<String>,
}

/// The answer to a session's question about itself (`stored`: the departments stored
/// for the user).
pub fn portal_me(user: Option<PortalUser>, stored: Vec<String>) -> (r: PortalMe)
    ensures
        match user {
            Some(u) => {
                &&& r.authenticated
                &&& r.username == Some(u.username) && r.display_name == Some(u.display_name)
                &&& r.role == Some(u.role) && r.department == u.department
                &&& r.can_open_ticket == (u.role@ == "requester"@ || u.password_hash@ == "device-session-only"@)
                &&& views(r.receive_departments@) == receive_departments_spec(views(stored@), u)
            },
            None => !r.authenticated && r.username is None && r.display_name is None && r.role is None
                && r.department is None && !r.can_open_ticket && r.receive_departments@.len() == 0,
        },
{
    match user {
        Some(u) => {
            let receive = portal_receive_departments(stored, &u);
            let can_open = str_eq(u.role.as_str(), "requester") || str_eq(
                u.password_hash.as_str(),
                "device-session-only",
            );
            PortalMe {
                authenticated: true,
                username: Some(u.username),
                display_name: Some(u.display_name),
                role: Some(u.role),
                department: u.department,
                can_open_ticket: can_open,
                receive_departments: receive,
            }
        },
        None => PortalMe {
            authenticated: false,
            username: None,
            display_name: None,
            role: None,
            department: None,
            can_open_ticket: false,
            receive_departments: Vec::new(),
        },
    }
}

// ---------------------------------------------------------------------------
// New accounts
// ---------------------------------------------------------------------------

/// What IT's request for a new account must pass before its password is hashed:
/// a department that names an active one (its id is returned), and a password of at
/// least 8 bytes.
pub open spec fn new_user_request_spec(password_bytes: nat, department: Option<Seq<char>>, active: Seq<Seq<char>>) -> Result<
    Option<Seq<char>>,
    Seq<char>,
> {
    let slug = match department {
        Some(d) => department_slug_spec(d),
        None => None,
    };
    if department is Some && (slug is None || !active.contains(slug->Some_0)) {
        Err("setor invalido ou arquivado"@)
    } else if password_bytes < 8 {
        Err("senha deve ter ao menos 8 caracteres"@)
    } else {
        Ok(slug)
    }
}

pub fn check_new_user_request(password: &str, department: Option<&str>, active: &[String]) -> (r: Result<
    Option<String>,
    ApiError,
>)
    ensures
        match r {
            Ok(s) => new_user_request_spec(
                crate::text::utf8_len(password@),
                match department {
                    Some(d) => Some(d@),
                    None => None,
                },
                views(active@),
            ) == Ok::<Option<Seq<char>>, Seq<char>>(crate::admin::ostr(s)),
            Err(e) => new_user_request_spec(
                crate::text::utf8_len(password@),
                match department {
                    Some(d) => Some(d@),
                    None => None,
                },
                views(active@),
            ) matches Err(m) && e matches ApiError::Internal(x) && x@ == m,
        },
{
    let slug = match department {
        Some(d) => ticket_department_slug(d),
        None => None,
    };
    if department.is_some() {
        let ok = match &slug {
            Some(s) => slice_contains(active, s.as_str()),
            None => false,
        };
        if !ok {
            return Err(ApiError::Internal("setor invalido ou arquivado".to_owned()));
        }
    }
    if crate::text::utf8_len_v(&chars(password)) < 8 {
        return Err(ApiError::Internal("senha deve ter ao menos 8 caracteres".to_owned()));
    }
    Ok(slug)
}

/// What the database asks of a new account: a user name and a display name that are
/// not blank (both are stored trimmed), a known role, and a department for a sector
/// agent.
pub open spec fn new_user_record_spec(username: Seq<char>, display_name: Seq<char>, role: Seq<char>, has_department: bool) -> Result<
    (Seq<char>, Seq<char>),
    Seq<char>,
> {
    if trim(username).len() == 0 || trim(display_name).len() == 0 {
        Err("usuario e nome sao obrigatorios"@)
    } else if role != "requester"@ && role != "sector_agent"@ {
        Err("papel invalido"@)
    } else if role == "sector_agent"@ && !has_department {
        Err("atendente precisa de setor"@)
    } else {
        Ok((trim(username), trim(display_name)))
    }
}

pub fn check_new_user_record(username: &str, display_name: &str, role: &str, department: Option<&str>) -> (r: Result<
    (String, String),
    DbError,
>)
    ensures
        match r {
            Ok((u, d)) => new_user_record_spec(username@, display_name@, role@, department is Some) == Ok::<
                (Seq<char>, Seq<char>),
                Seq<char>,
            >((u@, d@)),
            Err(e) => new_user_record_spec(username@, display_name@, role@, department is Some) matches Err(m)
                && e matches DbError::InvalidInput(x) && x@ == m,
        },
{
    let u = trim_v(&chars(username));
    let d = trim_v(&chars(display_name));
    if u.len() == 0 || d.len() == 0 {
        return Err(DbError::InvalidInput("usuario e nome sao obrigatorios".to_owned()));
    }
    if !str_eq(role, "requester") && !str_eq(role, "sector_agent") {
        return Err(DbError::InvalidInput("papel invalido".to_owned()));
    }
    if str_eq(role, "sector_agent") && department.is_none() {
        return Err(DbError::InvalidInput("atendente precisa de setor".to_owned()));
    }
    Ok((to_string(&u), to_string(&d)))
}

/// Archiving a department (`system`: its stored system flag, if it exists): the
/// default departments cannot be archived.
pub fn check_archive_department(system: Option<i64>) -> (r: Result<(), DbError>)
    ensures
        match system {
            None => r matches Err(DbError::NotFound),
            Some(v) => if v != 0 {
                r matches Err(DbError::InvalidInput(m)) && m@ == "setor padrao nao pode ser arquivado"@
            } else {
                r is Ok
            },
        },
{
    match system {
        None => Err(DbError::NotFound),
        Some(v) => if v != 0 {
            Err(DbError::InvalidInput("setor padrao nao pode ser arquivado".to_owned()))
        } else {
            Ok(())
        },
    }
}

} // verus!
