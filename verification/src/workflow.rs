//! The life of a ticket: who may do what to it, and what each step does to its record.
//!
//! A ticket is open, in progress or waiting until it is closed (`done`). A closed
//! ticket takes no more changes; its requester may rate it once and ask once at a
//! time for it to be reopened, which IT approves or refuses. IT may also reopen it.

use vstd::prelude::*;
use crate::admin::ostr;
use crate::tickets::{
    department_slug_spec, normalize_priority, normalize_status, priority_spec, status_spec, ticket_department_slug,
    ApiError, CreateTicketRequest, DbError, PortalUser, Ticket, UpdateTicketRequest,
};
use crate::text::{chars, to_string, trim, trim_v};

verus! {

/// Who is calling a ticket endpoint.
pub enum TicketCaller {
    /// An IT session.
    Ti,
    /// The agent of a machine, by its token.
    Agent { machine_id: String },
    /// A portal account.
    Portal(PortalUser),
}

pub open spec fn is_done(t: Ticket) -> bool {
    t.status@ == "done"@
}

pub open spec fn trimmed(s: Seq<char>) -> Option<Seq<char>> {
    if trim(s).len() == 0 {
        None
    } else {
        Some(trim(s))
    }
}

fn trimmed_v(s: &str) -> (r: Option<String>)
    ensures
        match r {
            Some(t) => trimmed(s@) == Some(t@),
            None => trimmed(s@) is None,
        },
{
    let t = trim_v(&chars(s));
    if t.len() == 0 {
        None
    } else {
        Some(to_string(&t))
    }
}

fn internal(msg: &str) -> (e: ApiError)
    ensures
        e matches ApiError::Internal(m) && m@ == msg@,
{
    ApiError::Internal(msg.to_string())
}

fn conflict(msg: &str) -> (e: ApiError)
    ensures
        e matches ApiError::Conflict(m) && m@ == msg@,
{
    ApiError::Conflict(msg.to_string())
}

fn invalid(msg: &str) -> (e: DbError)
    ensures
        e matches DbError::InvalidInput(m) && m@ == msg@,
{
    DbError::InvalidInput(msg.to_string())
}

/// The text of an `Internal` error, of a `Conflict`, of an `InvalidInput`.
pub open spec fn is_internal(e: ApiError, msg: Seq<char>) -> bool {
    e matches ApiError::Internal(m) && m@ == msg
}

pub open spec fn is_conflict(e: ApiError, msg: Seq<char>) -> bool {
    e matches ApiError::Conflict(m) && m@ == msg
}

pub open spec fn is_invalid(e: DbError, msg: Seq<char>) -> bool {
    e matches DbError::InvalidInput(m) && m@ == msg
}

// ---------------------------------------------------------------------------
// Who may do what
// ---------------------------------------------------------------------------

/// Whether a caller may change a ticket: IT, or a portal account whose receiving
/// departments (`departments`) include the ticket's.
pub open spec fn may_manage(caller: TicketCaller, departments: Seq<Seq<char>>, t: Ticket) -> bool {
    match caller {
        TicketCaller::Ti => true,
        TicketCaller::Portal(_) => departments.contains(t.department@),
        TicketCaller::Agent { .. } => false,
    }
}

pub fn can_manage_ticket(caller: &TicketCaller, departments: &[String], t: &Ticket) -> (r: bool)
    ensures
        r == may_manage(*caller, crate::compliance::views(departments@), *t),
{
    match caller {
        TicketCaller::Ti => true,
        TicketCaller::Agent { .. } => false,
        TicketCaller::Portal(_) => {
            let ghost dv = crate::compliance::views(departments@);
            let mut i: usize = 0;
            while i < departments.len()
                invariant
                    i <= departments@.len(),
                    dv == crate::compliance::views(departments@),
                    *caller is Portal,
                    forall|k: int| 0 <= k < i ==> dv[k] != t.department@,
                decreases departments@.len() - i,
            {
                if crate::text::str_eq(departments[i].as_str(), t.department.as_str()) {
                    assert(dv[i as int] == t.department@);
                    assert(dv.contains(t.department@));
                    return true;
                }
                i = i + 1;
            }
            assert(!dv.contains(t.department@));
            false
        },
    }
}

/// Whether a caller may read a ticket: IT; the agent of the ticket's machine; a
/// portal account that opened it or whose receiving departments (`departments`)
/// include the ticket's.
pub open spec fn may_read(caller: TicketCaller, departments: Seq<Seq<char>>, t: Ticket) -> bool {
    match caller {
        TicketCaller::Ti => true,
        TicketCaller::Agent { machine_id } => t.machine_id@ == machine_id@,
        TicketCaller::Portal(u) => (t.requester_user_id matches Some(x) && x@ == u.id@)
            || crate::tickets::receives(departments, t),
    }
}

pub fn can_read_ticket(caller: &TicketCaller, departments: &[String], t: &Ticket) -> (r: bool)
    ensures
        r == may_read(*caller, crate::compliance::views(departments@), *t),
{
    match caller {
        TicketCaller::Ti => true,
        TicketCaller::Agent { machine_id } => crate::text::str_eq(t.machine_id.as_str(), machine_id.as_str()),
        TicketCaller::Portal(u) => crate::tickets::portal_can_read_ticket(u, departments, t),
    }
}

/// Whoever may change a ticket may also read it.
pub proof fn law_managers_can_read(caller: TicketCaller, departments: Seq<Seq<char>>, t: Ticket)
    requires
        may_manage(caller, departments, t),
    ensures
        may_read(caller, departments, t),
{
    if caller is Portal {
        let i = choose|i: int| 0 <= i < departments.len() && departments[i] == t.department@;
        assert(crate::tickets::receives(departments, t));
    }
}

// ---------------------------------------------------------------------------
// Conversation, checklist and attachments
// ---------------------------------------------------------------------------

/// A comment as it is stored: the author's role (`ti`, `user` or `sector`), the
/// author's name, and the text.
pub struct CommentPlan {
    pub role: &'static str,
    pub author_name: Option<String>,
    pub body: String,
}

pub open spec fn or_else(a: Option<String>, b: Option<String>) -> Option<String> {
    match a {
        Some(x) => Some(x),
        None => b,
    }
}

/// Who writes a comment and what is stored. IT writes as `ti` under its session's
/// user name (else the name given); the agent of the ticket's machine writes as
/// `user` under the name given (else the machine's name); a portal account that may
/// read the ticket writes under its display name, as `sector` where it manages the
/// ticket, else as `user`; anyone else is refused. A closed ticket takes no comment;
/// a comment needs text or an attachment, and one with only attachments says so.
pub open spec fn comment_ok(
    caller: TicketCaller,
    departments: Seq<Seq<char>>,
    t: Ticket,
    body: Seq<char>,
    has_attachments: bool,
    session_name: Option<String>,
    author_name: Option<String>,
    r: Result<CommentPlan, ApiError>,
) -> bool {
    if !may_read(caller, departments, t) {
        r == Err::<CommentPlan, ApiError>(ApiError::Unauthorized)
    } else if is_done(t) {
        r is Err && is_conflict(r->Err_0, "chamado fechado — nao aceita novos comentarios"@)
    } else if trim(body).len() == 0 && !has_attachments {
        r is Err && is_internal(r->Err_0, "escreva uma mensagem ou anexe um arquivo"@)
    } else {
        &&& r is Ok
        &&& r->Ok_0.body@ == (if trim(body).len() == 0 {
            "Anexo enviado na conversa."@
        } else {
            trim(body)
        })
        &&& match caller {
            TicketCaller::Ti => r->Ok_0.role@ == "ti"@ && ostr(r->Ok_0.author_name) == ostr(
                or_else(session_name, author_name),
            ),
            TicketCaller::Agent { .. } => r->Ok_0.role@ == "user"@ && ostr(r->Ok_0.author_name) == ostr(
                or_else(author_name, t.hostname_snapshot),
            ),
            TicketCaller::Portal(u) => r->Ok_0.role@ == (if departments.contains(t.department@) {
                "sector"@
            } else {
                "user"@
            }) && ostr(r->Ok_0.author_name) == Some(u.display_name@),
        }
    }
}

fn or_else_v(a: Option<String>, b: &Option<String>) -> (r: Option<String>)
    ensures
        ostr(r) == ostr(or_else(a, *b)),
{
    match a {
        Some(x) => Some(x),
        None => crate::admin::copy_opt(b),
    }
}

pub fn plan_comment(
    caller: &TicketCaller,
    departments: &[String],
    t: &Ticket,
    body: &str,
    has_attachments: bool,
    session_name: Option<String>,
    author_name: Option<String>,
) -> (r: Result<CommentPlan, ApiError>)
    ensures
        comment_ok(*caller, crate::compliance::views(departments@), *t, body@, has_attachments, session_name, author_name, r),
{
    if !can_read_ticket(caller, departments, t) {
        return Err(ApiError::Unauthorized);
    }
    let (role, name): (&'static str, Option<String>) = match caller {
        TicketCaller::Ti => ("ti", or_else_v(session_name, &author_name)),
        TicketCaller::Agent { .. } => ("user", or_else_v(author_name, &t.hostname_snapshot)),
        TicketCaller::Portal(u) => {
            let manages = can_manage_ticket(caller, departments, t);
            (if manages {
                "sector"
            } else {
                "user"
            }, Some(u.display_name.clone()))
        },
    };
    if crate::text::str_eq(t.status.as_str(), "done") {
        return Err(conflict("chamado fechado — nao aceita novos comentarios"));
    }
    let b = trim_v(&chars(body));
    if b.len() == 0 && !has_attachments {
        return Err(internal("escreva uma mensagem ou anexe um arquivo"));
    }
    let text = if b.len() == 0 {
        "Anexo enviado na conversa.".to_string()
    } else {
        to_string(&b)
    };
    Ok(CommentPlan { role, author_name: name, body: text })
}

/// Adding a checklist item: IT, the agent of the ticket's machine, or a portal
/// account that manages the ticket, on a ticket not yet closed, with a label that
/// is not blank (it is stored trimmed).
pub open spec fn checklist_add_ok(caller: TicketCaller, departments: Seq<Seq<char>>, t: Ticket, label: Seq<char>, r: Result<String, ApiError>) -> bool {
    let allowed = match caller {
        TicketCaller::Ti => true,
        TicketCaller::Agent { machine_id } => t.machine_id@ == machine_id@,
        TicketCaller::Portal(_) => departments.contains(t.department@),
    };
    if !allowed {
        r == Err::<String, ApiError>(ApiError::Unauthorized)
    } else if is_done(t) {
        r is Err && is_conflict(r->Err_0, "chamado concluido — checklist bloqueada"@)
    } else if trim(label).len() == 0 {
        r is Err && is_internal(r->Err_0, "item da checklist vazio"@)
    } else {
        r matches Ok(l) && l@ == trim(label)
    }
}

pub fn check_checklist_add(caller: &TicketCaller, departments: &[String], t: &Ticket, label: &str) -> (r: Result<String, ApiError>)
    ensures
        checklist_add_ok(*caller, crate::compliance::views(departments@), *t, label@, r),
{
    let allowed = match caller {
        TicketCaller::Ti => true,
        TicketCaller::Agent { machine_id } => crate::text::str_eq(t.machine_id.as_str(), machine_id.as_str()),
        TicketCaller::Portal(_) => can_manage_ticket(caller, departments, t),
    };
    if !allowed {
        return Err(ApiError::Unauthorized);
    }
    if crate::text::str_eq(t.status.as_str(), "done") {
        return Err(conflict("chamado concluido — checklist bloqueada"));
    }
    let l = trim_v(&chars(label));
    if l.len() == 0 {
        return Err(internal("item da checklist vazio"));
    }
    Ok(to_string(&l))
}

/// Changing or removing a checklist item: IT or a portal account that manages the
/// ticket, on a ticket not yet closed.
pub open spec fn checklist_change_ok(caller: TicketCaller, departments: Seq<Seq<char>>, t: Ticket, r: Result<(), ApiError>) -> bool {
    if !may_manage(caller, departments, t) {
        r == Err::<(), ApiError>(ApiError::Unauthorized)
    } else if is_done(t) {
        r is Err && is_conflict(r->Err_0, "chamado concluido — checklist bloqueada"@)
    } else {
        r is Ok
    }
}

pub fn check_checklist_change(caller: &TicketCaller, departments: &[String], t: &Ticket) -> (r: Result<(), ApiError>)
    ensures
        checklist_change_ok(*caller, crate::compliance::views(departments@), *t, r),
{
    if !can_manage_ticket(caller, departments, t) {
        return Err(ApiError::Unauthorized);
    }
    if crate::text::str_eq(t.status.as_str(), "done") {
        return Err(conflict("chamado concluido — checklist bloqueada"));
    }
    Ok(())
}

/// Attaching a file: never to a closed ticket (whoever asks); otherwise whoever may
/// read the ticket.
pub open spec fn attach_ok(caller: TicketCaller, departments: Seq<Seq<char>>, t: Ticket, r: Result<(), ApiError>) -> bool {
    if is_done(t) {
        r is Err && is_conflict(r->Err_0, "chamado concluido — anexos bloqueados"@)
    } else if !may_read(caller, departments, t) {
        r == Err::<(), ApiError>(ApiError::Unauthorized)
    } else {
        r is Ok
    }
}

pub fn check_attach(caller: &TicketCaller, departments: &[String], t: &Ticket) -> (r: Result<(), ApiError>)
    ensures
        attach_ok(*caller, crate::compliance::views(departments@), *t, r),
{
    if crate::text::str_eq(t.status.as_str(), "done") {
        return Err(conflict("chamado concluido — anexos bloqueados"));
    }
    if !can_read_ticket(caller, departments, t) {
        return Err(ApiError::Unauthorized);
    }
    Ok(())
}

/// The file name shown when an attachment is served: without `"`, and with line
/// breaks replaced by `_`.
pub open spec fn served_name(f: Seq<char>) -> Seq<char>
    decreases f.len(),
{
    if f.len() == 0 {
        f
    } else {
        let c = f.last();
        let rest = served_name(f.drop_last());
        if c == '"' {
            rest
        } else if c == '\r' || c == '\n' {
            rest.push('_')
        } else {
            rest.push(c)
        }
    }
}

/// The headers an attachment is served with: its type, and shown inline (a viewer
/// opens images and PDFs) under its name.
pub fn download_headers(filename: &str) -> (r: (String, String))
    ensures
        r.0@ == crate::tickets::content_type_spec(filename@),
        r.1@ == "inline; filename=\""@ + served_name(filename@) + "\""@,
{
    let f = chars(filename);
    let mut safe: Vec<char> = Vec::new();
    let mut i: usize = 0;
    assert(f@.take(0) =~= Seq::<char>::empty());
    while i < f.len()
        invariant
            i <= f@.len(),
            safe@ == served_name(f@.take(i as int)),
        decreases f@.len() - i,
    {
        assert(f@.take(i + 1).drop_last() =~= f@.take(i as int));
        assert(f@.take(i + 1).last() == f@[i as int]);
        let c = f[i];
        if c == '"' {
        } else if c == '\r' || c == '\n' {
            safe.push('_');
        } else {
            safe.push(c);
        }
        i = i + 1;
    }
    assert(f@.take(f@.len() as int) =~= f@);
    let mut d = chars("inline; filename=\"");
    crate::text::extend(&mut d, &safe);
    crate::text::extend_str(&mut d, "\"");
    (crate::tickets::attachment_content_type(filename), to_string(&d))
}

/// A new checklist item: its label trimmed (a blank one is refused), not done,
/// placed after the ticket's last item (`max_order`: the highest order stored, where
/// the ticket has items), with a fresh identifier and `now` as both of its times.
pub fn new_checklist_item(ticket_id: &str, label: &str, max_order: Option<i64>, now: &str) -> (r: Result<
    crate::tickets::ChecklistItem,
    DbError,
>)
    requires
        max_order matches Some(m) ==> m < i64::MAX,
    ensures
        match r {
            Ok(item) => {
                &&& trim(label@).len() > 0
                &&& item.label@ == trim(label@) && item.ticket_id@ == ticket_id@ && !item.done
                &&& item.sort_order == (match max_order {
                    Some(m) => m + 1,
                    None => 0,
                }) as i32
                &&& item.id@.len() == 36 && item.created_at@ == now@ && item.updated_at@ == now@
            },
            Err(e) => trim(label@).len() == 0 && is_invalid(e, "item vazio"@),
        },
{
    let l = trim_v(&chars(label));
    if l.len() == 0 {
        return Err(invalid("item vazio"));
    }
    let next: i64 = match max_order {
        Some(m) => m + 1,
        None => 0,
    };
    Ok(
        crate::tickets::ChecklistItem {
            id: crate::models::new_id(),
            ticket_id: ticket_id.to_string(),
            label: to_string(&l),
            done: false,
            sort_order: next as i32,
            created_at: now.to_string(),
            updated_at: now.to_string(),
        },
    )
}

/// A checklist item after a change: the done flag where given, the label where a
/// non-blank one is given (trimmed), and `now` as its change time.
pub fn changed_checklist_item(item: crate::tickets::ChecklistItem, done: Option<bool>, label: Option<&str>, now: &str) -> (r:
    crate::tickets::ChecklistItem)
    ensures
        r.done == (match done {
            Some(d) => d,
            None => item.done,
        }),
        r.label@ == (match label {
            Some(l) => if trim(l@).len() > 0 {
                trim(l@)
            } else {
                item.label@
            },
            None => item.label@,
        }),
        r.id == item.id && r.ticket_id == item.ticket_id && r.sort_order == item.sort_order && r.created_at
            == item.created_at,
        r.updated_at@ == now@,
{
    let mut it = item;
    if let Some(d) = done {
        it.done = d;
    }
    if let Some(l) = label {
        let t = trim_v(&chars(l));
        if t.len() > 0 {
            it.label = to_string(&t);
        }
    }
    it.updated_at = now.to_string();
    it
}

/// Who may rate a closed ticket or ask to reopen it: the agent of its machine, or
/// the requester account that opened it. IT is told that the user of the machine
/// does it; anyone else is refused.
pub open spec fn requester_ok(caller: TicketCaller, t: Ticket, ti_msg: Seq<char>, r: Result<(), ApiError>) -> bool {
    match caller {
        TicketCaller::Agent { machine_id } => if t.machine_id@ != machine_id@ {
            r == Err::<(), ApiError>(ApiError::Unauthorized)
        } else {
            r is Ok
        },
        TicketCaller::Ti => r is Err && is_internal(r->Err_0, ti_msg),
        TicketCaller::Portal(u) => if u.role@ != "requester"@ || ostr(t.requester_user_id) != Some(u.id@) {
            r == Err::<(), ApiError>(ApiError::Unauthorized)
        } else {
            r is Ok
        },
    }
}

fn check_requester(caller: &TicketCaller, t: &Ticket, ti_msg: &str) -> (r: Result<(), ApiError>)
    ensures
        requester_ok(*caller, *t, ti_msg@, r),
{
    match caller {
        TicketCaller::Agent { machine_id } => {
            if !crate::text::str_eq(t.machine_id.as_str(), machine_id.as_str()) {
                Err(ApiError::Unauthorized)
            } else {
                Ok(())
            }
        },
        TicketCaller::Ti => Err(internal(ti_msg)),
        TicketCaller::Portal(u) => {
            let own = match &t.requester_user_id {
                Some(rid) => crate::text::str_eq(rid.as_str(), u.id.as_str()),
                None => false,
            };
            if !crate::text::str_eq(u.role.as_str(), "requester") || !own {
                Err(ApiError::Unauthorized)
            } else {
                Ok(())
            }
        },
    }
}

// ---------------------------------------------------------------------------
// Changing an open ticket
// ---------------------------------------------------------------------------

/// What a validated change sets: status and priority in canonical form, and the
/// department it moves to.
pub struct TicketChange {
    pub status: Option<&'static str>,
    pub priority: Option<&'static str>,
    pub department: Option<String>,
}

/// The checks of a change, in order: the caller may manage the ticket; the ticket is
/// not closed; status and priority are known; only IT moves a ticket, and only to a
/// department with a valid slug.
pub open spec fn change_ok(may: bool, ti: bool, t: Ticket, req: UpdateTicketRequest, r: Result<TicketChange, ApiError>) -> bool {
    if !may {
        r == Err::<TicketChange, ApiError>(ApiError::Unauthorized)
    } else if is_done(t) {
        r is Err && is_conflict(r->Err_0, "chamado concluido — alteracoes bloqueadas"@)
    } else if req.status is Some && status_spec(req.status->0@) is None {
        r is Err && is_internal(r->Err_0, "invalid status"@)
    } else if req.priority is Some && priority_spec(req.priority->0@) is None {
        r is Err && is_internal(r->Err_0, "invalid priority"@)
    } else if req.department is Some && ti && department_slug_spec(req.department->0@) is None {
        r is Err && is_internal(r->Err_0, "setor invalido"@)
    } else if req.department is Some && !ti {
        r == Err::<TicketChange, ApiError>(ApiError::Unauthorized)
    } else {
        &&& r is Ok
        &&& match req.status {
            Some(s) => r->Ok_0.status matches Some(x) && status_spec(s@) == Some(x@),
            None => r->Ok_0.status is None,
        }
        &&& match req.priority {
            Some(p) => r->Ok_0.priority matches Some(x) && priority_spec(p@) == Some(x@),
            None => r->Ok_0.priority is None,
        }
        &&& match req.department {
            Some(d) => r->Ok_0.department matches Some(x) && department_slug_spec(d@) == Some(x@),
            None => r->Ok_0.department is None,
        }
    }
}

/// Checks a change to a ticket (`may`: the caller may manage it; `ti`: the caller is
/// IT). Whether the new department is active is the caller's next check.
pub fn validate_ticket_update(may: bool, ti: bool, t: &Ticket, req: &UpdateTicketRequest) -> (r: Result<TicketChange, ApiError>)
    ensures
        change_ok(may, ti, *t, *req, r),
{
    if !may {
        return Err(ApiError::Unauthorized);
    }
    if crate::text::str_eq(t.status.as_str(), "done") {
        return Err(conflict("chamado concluido — alteracoes bloqueadas"));
    }
    let status = match &req.status {
        Some(s) => match normalize_status(s.as_str()) {
            Some(x) => Some(x),
            None => {
                return Err(internal("invalid status"));
            },
        },
        None => None,
    };
    let priority = match &req.priority {
        Some(p) => match normalize_priority(p.as_str()) {
            Some(x) => Some(x),
            None => {
                return Err(internal("invalid priority"));
            },
        },
        None => None,
    };
    let department = match &req.department {
        Some(d) => {
            if ti {
                match ticket_department_slug(d.as_str()) {
                    Some(x) => Some(x),
                    None => {
                        return Err(internal("setor invalido"));
                    },
                }
            } else {
                return Err(ApiError::Unauthorized);
            }
        },
        None => None,
    };
    Ok(TicketChange { status, priority, department })
}

// ---------------------------------------------------------------------------
// What each step does to the record
// ---------------------------------------------------------------------------

/// The fields no step of the life cycle changes.
pub open spec fn same_ticket(r: Ticket, t: Ticket) -> bool {
    &&& r.id == t.id
    &&& r.code == t.code
    &&& r.machine_id == t.machine_id
    &&& r.hostname_snapshot == t.hostname_snapshot
    &&& r.owner_name_snapshot == t.owner_name_snapshot
    &&& r.department == t.department
    &&& r.requester_user_id == t.requester_user_id
    &&& r.created_by == t.created_by
    &&& r.nas_path == t.nas_path
    &&& r.created_at == t.created_at
    &&& r.attachments == t.attachments
    &&& r.comments == t.comments
    &&& r.checklist == t.checklist
}

/// Closing: a closed ticket is refused; otherwise it becomes `done`, closed at `now`,
/// with the trimmed resolution (if any) and no pending reopen request.
pub open spec fn closed_ok(t: Ticket, resolution: Option<Seq<char>>, now: Seq<char>, r: Result<Ticket, DbError>) -> bool {
    if is_done(t) {
        r is Err && is_invalid(r->Err_0, "chamado ja esta concluido"@)
    } else {
        &&& r is Ok
        &&& same_ticket(r->Ok_0, t)
        &&& r->Ok_0.status@ == "done"@
        &&& r->Ok_0.updated_at@ == now
        &&& ostr(r->Ok_0.closed_at) == Some(now)
        &&& ostr(r->Ok_0.resolution) == match resolution {
            Some(x) => trimmed(x),
            None => None,
        }
        &&& !r->Ok_0.reopen_pending
        &&& r->Ok_0.reopen_reason is None
        &&& r->Ok_0.reopen_requested_at is None
        &&& r->Ok_0.title == t.title
        &&& r->Ok_0.description == t.description
        &&& r->Ok_0.priority == t.priority
        &&& r->Ok_0.assignee == t.assignee
        &&& r->Ok_0.rating == t.rating
        &&& r->Ok_0.rating_comment == t.rating_comment
        &&& r->Ok_0.last_reopen_reason == t.last_reopen_reason
    }
}

pub fn close_ticket_record(t: Ticket, resolution: Option<&str>, now: &str) -> (r: Result<Ticket, DbError>)
    ensures
        closed_ok(t, match resolution {
            Some(x) => Some(x@),
            None => None,
        }, now@, r),
{
    if crate::text::str_eq(t.status.as_str(), "done") {
        return Err(invalid("chamado ja esta concluido"));
    }
    let res = match resolution {
        Some(x) => trimmed_v(x),
        None => None,
    };
    Ok(Ticket {
        status: "done".to_string(),
        updated_at: now.to_string(),
        closed_at: Some(now.to_string()),
        resolution: res,
        reopen_pending: false,
        reopen_reason: None,
        reopen_requested_at: None,
        ..t
    })
}

/// Rating: only a closed ticket, only 1 to 5, and only once.
pub open spec fn rated_ok(t: Ticket, rating: i32, comment: Option<Seq<char>>, now: Seq<char>, r: Result<Ticket, DbError>) -> bool {
    if !is_done(t) {
        r is Err && is_invalid(r->Err_0, "so e possivel avaliar chamado fechado"@)
    } else if !(1 <= rating <= 5) {
        r is Err && is_invalid(r->Err_0, "rating deve ser 1 a 5"@)
    } else if t.rating is Some {
        r is Err && is_invalid(r->Err_0, "chamado ja avaliado"@)
    } else {
        &&& r is Ok
        &&& same_ticket(r->Ok_0, t)
        &&& r->Ok_0.rating == Some(rating)
        &&& ostr(r->Ok_0.rating_comment) == comment
        &&& r->Ok_0.updated_at@ == now
        &&& r->Ok_0.status == t.status
        &&& r->Ok_0.closed_at == t.closed_at
        &&& r->Ok_0.reopen_pending == t.reopen_pending
    }
}

pub fn rate_ticket_record(t: Ticket, rating: i32, comment: Option<&str>, now: &str) -> (r: Result<Ticket, DbError>)
    ensures
        rated_ok(t, rating, match comment {
            Some(x) => Some(x@),
            None => None,
        }, now@, r),
{
    if !crate::text::str_eq(t.status.as_str(), "done") {
        return Err(invalid("so e possivel avaliar chamado fechado"));
    }
    if !(1 <= rating && rating <= 5) {
        return Err(invalid("rating deve ser 1 a 5"));
    }
    if t.rating.is_some() {
        return Err(invalid("chamado ja avaliado"));
    }
    Ok(Ticket {
        rating: Some(rating),
        rating_comment: match comment {
            Some(c) => Some(c.to_string()),
            None => None,
        },
        updated_at: now.to_string(),
        ..t
    })
}

/// Asking to reopen: a reason is required, the ticket must be closed, and no other
/// request may be pending.
pub open spec fn reopen_request_ok(t: Ticket, reason: Seq<char>, now: Seq<char>, r: Result<Ticket, DbError>) -> bool {
    if trimmed(reason) is None {
        r is Err && is_invalid(r->Err_0, "motivo obrigatorio"@)
    } else if !is_done(t) {
        r is Err && is_invalid(r->Err_0, "so e possivel pedir reabertura de chamado concluido"@)
    } else if t.reopen_pending {
        r is Err && is_invalid(r->Err_0, "ja existe pedido de reabertura pendente"@)
    } else {
        &&& r is Ok
        &&& same_ticket(r->Ok_0, t)
        &&& r->Ok_0.reopen_pending
        &&& ostr(r->Ok_0.reopen_reason) == trimmed(reason)
        &&& ostr(r->Ok_0.reopen_requested_at) == Some(now)
        &&& r->Ok_0.updated_at@ == now
        &&& r->Ok_0.status == t.status
        &&& r->Ok_0.closed_at == t.closed_at
        &&& r->Ok_0.rating == t.rating
    }
}

pub fn request_reopen_record(t: Ticket, reason: &str, now: &str) -> (r: Result<Ticket, DbError>)
    ensures
        reopen_request_ok(t, reason@, now@, r),
{
    let reason = match trimmed_v(reason) {
        Some(x) => x,
        None => {
            return Err(invalid("motivo obrigatorio"));
        },
    };
    if !crate::text::str_eq(t.status.as_str(), "done") {
        return Err(invalid("so e possivel pedir reabertura de chamado concluido"));
    }
    if t.reopen_pending {
        return Err(invalid("ja existe pedido de reabertura pendente"));
    }
    Ok(Ticket {
        reopen_pending: true,
        reopen_reason: Some(reason),
        reopen_requested_at: Some(now.to_string()),
        updated_at: now.to_string(),
        ..t
    })
}

/// Refusing a reopen request: nothing is pending any more.
pub fn clear_reopen_record(t: Ticket, now: &str) -> (r: Ticket)
    ensures
        same_ticket(r, t),
        !r.reopen_pending,
        r.reopen_reason is None,
        r.reopen_requested_at is None,
        r.updated_at@ == now@,
        r.status == t.status,
        r.closed_at == t.closed_at,
        r.rating == t.rating,
{
    Ticket { reopen_pending: false, reopen_reason: None, reopen_requested_at: None, updated_at: now.to_string(), ..t }
}

/// A change of title, description, status, priority or assignee. Moving to `done`
/// closes the ticket (once); leaving `done` reopens it: no longer closed, no pending
/// request, no resolution.
pub open spec fn updated_ok(
    t: Ticket,
    title: Option<Seq<char>>,
    description: Option<Seq<char>>,
    status: Option<Seq<char>>,
    priority: Option<Seq<char>>,
    assignee: Option<Seq<char>>,
    now: Seq<char>,
    r: Ticket,
) -> bool {
    let closing = status == Some("done"@) && t.closed_at is None;
    let reopening = (status matches Some(s) && s != "done"@) && is_done(t);
    &&& same_ticket(r, t)
    &&& r.title@ == (match title {
        Some(x) => x,
        None => t.title@,
    })
    &&& ostr(r.description) == (match description {
        Some(x) => Some(x),
        None => ostr(t.description),
    })
    &&& r.status@ == (match status {
        Some(x) => x,
        None => t.status@,
    })
    &&& r.priority@ == (match priority {
        Some(x) => x,
        None => t.priority@,
    })
    &&& ostr(r.assignee) == (match assignee {
        Some(x) => Some(x),
        None => ostr(t.assignee),
    })
    &&& r.updated_at@ == now
    &&& ostr(r.closed_at) == (if closing {
        Some(now)
    } else if reopening {
        None
    } else {
        ostr(t.closed_at)
    })
    &&& r.reopen_pending == (if reopening {
        false
    } else {
        t.reopen_pending
    })
    &&& ostr(r.reopen_reason) == (if reopening {
        None
    } else {
        ostr(t.reopen_reason)
    })
    &&& ostr(r.reopen_requested_at) == (if reopening {
        None
    } else {
        ostr(t.reopen_requested_at)
    })
    &&& ostr(r.resolution) == (if reopening {
        None
    } else {
        ostr(t.resolution)
    })
    &&& r.rating == t.rating
    &&& r.rating_comment == t.rating_comment
    &&& r.last_reopen_reason == t.last_reopen_reason
}

fn pick(new: Option<&str>, old: String) -> (r: String)
    ensures
        r@ == match new {
            Some(x) => x@,
            None => old@,
        },
{
    match new {
        Some(x) => x.to_string(),
        None => old,
    }
}

fn pick_opt(new: Option<&str>, old: Option<String>) -> (r: Option<String>)
    ensures
        ostr(r) == match new {
            Some(x) => Some(x@),
            None => ostr(old),
        },
{
    match new {
        Some(x) => Some(x.to_string()),
        None => old,
    }
}

pub open spec fn oview(o: Option<&str>) -> Option<Seq<char>> {
    match o {
        Some(x) => Some(x@),
        None => None,
    }
}

pub fn update_ticket_record(
    t: Ticket,
    title: Option<&str>,
    description: Option<&str>,
    status: Option<&str>,
    priority: Option<&str>,
    assignee: Option<&str>,
    now: &str,
) -> (r: Ticket)
    ensures
        updated_ok(t, oview(title), oview(description), oview(status), oview(priority), oview(assignee), now@, r),
{
    let was_done = crate::text::str_eq(t.status.as_str(), "done");
    let (closing, reopening) = match status {
        Some(s) => {
            let to_done = crate::text::str_eq(s, "done");
            (to_done && t.closed_at.is_none(), !to_done && was_done)
        },
        None => (false, false),
    };
    let closed_at = if closing {
        Some(now.to_string())
    } else if reopening {
        None
    } else {
        t.closed_at
    };
    let (pending, reason, requested, resolution) = if reopening {
        (false, None, None, None)
    } else {
        (t.reopen_pending, t.reopen_reason, t.reopen_requested_at, t.resolution)
    };
    Ticket {
        title: pick(title, t.title),
        description: pick_opt(description, t.description),
        status: pick(status, t.status),
        priority: pick(priority, t.priority),
        assignee: pick_opt(assignee, t.assignee),
        updated_at: now.to_string(),
        closed_at,
        reopen_pending: pending,
        reopen_reason: reason,
        reopen_requested_at: requested,
        resolution,
        ..t
    }
}

// ---------------------------------------------------------------------------
// The API's checks on closed tickets
// ---------------------------------------------------------------------------

fn prefixed(prefix: &str, text: &str) -> (r: String)
    ensures
        r@ == prefix@ + text@,
{
    let mut v = chars(prefix);
    crate::text::extend_str(&mut v, text);
    to_string(&v)
}

/// Closing through the API: the caller must be allowed to manage the ticket, and the
/// ticket must still be open.
pub fn validate_close(may: bool, t: &Ticket) -> (r: Result<(), ApiError>)
    ensures
        !may ==> r == Err::<(), ApiError>(ApiError::Unauthorized),
        may && is_done(*t) ==> r is Err && is_conflict(r->Err_0, "chamado ja esta concluido"@),
        may && !is_done(*t) ==> r is Ok,
{
    if !may {
        return Err(ApiError::Unauthorized);
    }
    if crate::text::str_eq(t.status.as_str(), "done") {
        return Err(conflict("chamado ja esta concluido"));
    }
    Ok(())
}

/// The resolution given on closing, trimmed; none where it is blank.
pub fn closing_resolution(resolution: Option<&str>) -> (r: Option<String>)
    ensures
        ostr(r) == match resolution {
            Some(x) => trimmed(x@),
            None => None,
        },
{
    match resolution {
        Some(x) => trimmed_v(x),
        None => None,
    }
}

/// The comment that records a resolution.
pub fn resolution_note(resolution: &str) -> (r: String)
    ensures
        r@ == "[Resolução] "@ + resolution@,
{
    prefixed("[Resolução] ", resolution)
}

/// Rating through the API: the agent of the ticket's machine or its requester.
pub fn authorize_rating(caller: &TicketCaller, t: &Ticket) -> (r: Result<(), ApiError>)
    ensures
        requester_ok(*caller, *t, "avaliacao e feita pelo usuario do PC"@, r),
{
    check_requester(caller, t, "avaliacao e feita pelo usuario do PC")
}

/// A validated request to reopen: the trimmed reason, the author shown on the
/// comment, and the comment.
pub struct ReopenRequestPlan {
    pub reason: String,
    pub author: Option<String>,
    pub comment: String,
}

pub open spec fn reopen_plan_ok(caller: TicketCaller, t: Ticket, reason: Seq<char>, r: Result<ReopenRequestPlan, ApiError>) -> bool {
    let who: Result<(), ApiError> = match r {
        Err(e) => Err(e),
        Ok(_) => Ok(()),
    };
    let msg = "pedido de reabertura e feito pelo usuario do PC"@;
    if !(caller is Ti) && requester_ok(caller, t, msg, Err(ApiError::Unauthorized)) {
        r == Err::<ReopenRequestPlan, ApiError>(ApiError::Unauthorized)
    } else if caller is Ti {
        r is Err && is_internal(r->Err_0, msg)
    } else if !is_done(t) {
        r is Err && is_conflict(r->Err_0, "so e possivel pedir reabertura de chamado concluido"@)
    } else if t.reopen_pending {
        r is Err && is_conflict(r->Err_0, "ja existe pedido de reabertura pendente"@)
    } else if trimmed(reason) is None {
        r is Err && is_internal(r->Err_0, "motivo obrigatorio"@)
    } else {
        &&& r is Ok
        &&& Some(r->Ok_0.reason@) == trimmed(reason)
        &&& r->Ok_0.comment@ == "[Pedido de reabertura] "@ + r->Ok_0.reason@
        &&& ostr(r->Ok_0.author) == match caller {
            TicketCaller::Portal(u) => Some(u.display_name@),
            _ => ostr(t.hostname_snapshot),
        }
    }
}

/// Asking to reopen through the API: the requester of a closed ticket with no
/// pending request, giving a reason.
pub fn validate_reopen_request(caller: &TicketCaller, t: &Ticket, reason: &str) -> (r: Result<ReopenRequestPlan, ApiError>)
    ensures
        reopen_plan_ok(*caller, *t, reason@, r),
{
    match check_requester(caller, t, "pedido de reabertura e feito pelo usuario do PC") {
        Err(e) => {
            return Err(e);
        },
        Ok(()) => {},
    }
    if !crate::text::str_eq(t.status.as_str(), "done") {
        return Err(conflict("so e possivel pedir reabertura de chamado concluido"));
    }
    if t.reopen_pending {
        return Err(conflict("ja existe pedido de reabertura pendente"));
    }
    let reason = match trimmed_v(reason) {
        Some(x) => x,
        None => {
            return Err(internal("motivo obrigatorio"));
        },
    };
    let author = match caller {
        TicketCaller::Portal(u) => Some(u.display_name.clone()),
        _ => crate::admin::copy_opt(&t.hostname_snapshot),
    };
    let comment = prefixed("[Pedido de reabertura] ", reason.as_str());
    Ok(ReopenRequestPlan { reason, author, comment })
}

/// IT's answer to a reopen request.
pub enum ReopenDecision {
    /// Reopen, showing `card_reason` on the ticket.
    Approve { card_reason: String, comment: String },
    Refuse { comment: String },
}

pub open spec fn decision_ok(t: Ticket, approve: bool, reason: Seq<char>, r: Result<ReopenDecision, ApiError>) -> bool {
    if !is_done(t) {
        r is Err && is_conflict(r->Err_0, "chamado nao esta concluido"@)
    } else if !t.reopen_pending {
        r is Err && is_conflict(r->Err_0, "nao ha pedido de reabertura pendente"@)
    } else if trimmed(reason) is None {
        r is Err && is_internal(r->Err_0, "motivo obrigatorio"@)
    } else if approve {
        r matches Ok(ReopenDecision::Approve { card_reason, comment }) && card_reason@ == (match t.reopen_reason {
            Some(x) => match trimmed(x@) {
                Some(y) => y,
                None => trim(reason),
            },
            None => trim(reason),
        }) && comment@ == "[Reabertura aprovada] "@ + trim(reason)
    } else {
        r matches Ok(ReopenDecision::Refuse { comment }) && comment@ == "[Reabertura recusada] "@ + trim(reason)
    }
}

/// IT decides a reopen request: the ticket must be closed with a request pending,
/// and a reason is required. Approving shows the requester's reason on the ticket
/// (IT's where the requester gave none).
pub fn decide_ticket_reopen(t: &Ticket, approve: bool, reason: &str) -> (r: Result<ReopenDecision, ApiError>)
    ensures
        decision_ok(*t, approve, reason@, r),
{
    if !crate::text::str_eq(t.status.as_str(), "done") {
        return Err(conflict("chamado nao esta concluido"));
    }
    if !t.reopen_pending {
        return Err(conflict("nao ha pedido de reabertura pendente"));
    }
    let reason = match trimmed_v(reason) {
        Some(x) => x,
        None => {
            return Err(internal("motivo obrigatorio"));
        },
    };
    if approve {
        let card_reason = match &t.reopen_reason {
            Some(x) => match trimmed_v(x.as_str()) {
                Some(y) => y,
                None => reason.clone(),
            },
            None => reason.clone(),
        };
        Ok(ReopenDecision::Approve { card_reason, comment: prefixed("[Reabertura aprovada] ", reason.as_str()) })
    } else {
        Ok(ReopenDecision::Refuse { comment: prefixed("[Reabertura recusada] ", reason.as_str()) })
    }
}

/// IT reopens a ticket: the status it goes back to, the reason and the comment.
pub struct ReopenPlan {
    pub status: &'static str,
    pub reason: String,
    pub comment: String,
}

pub open spec fn reopen_ok(t: Ticket, reason: Seq<char>, status: Option<Seq<char>>, r: Result<ReopenPlan, ApiError>) -> bool {
    if !is_done(t) {
        r is Err && is_conflict(r->Err_0, "chamado nao esta concluido"@)
    } else if trimmed(reason) is None {
        r is Err && is_internal(r->Err_0, "motivo obrigatorio"@)
    } else if status matches Some(s) && (status_spec(s) is None || status_spec(s) == Some("done"@)) {
        r is Err && is_internal(r->Err_0, "invalid status"@)
    } else {
        &&& r is Ok
        &&& r->Ok_0.status@ == match status {
            Some(s) => status_spec(s)->0,
            None => "open"@,
        }
        &&& r->Ok_0.status@ != "done"@
        &&& r->Ok_0.reason@ == trim(reason)
        &&& r->Ok_0.comment@ == "[Reaberto pela TI] "@ + trim(reason)
    }
}

/// IT reopens a closed ticket, to `open` or to another status that is not `done`.
pub fn validate_reopen(t: &Ticket, reason: &str, status: Option<&str>) -> (r: Result<ReopenPlan, ApiError>)
    ensures
        reopen_ok(*t, reason@, oview(status), r),
{
    if !crate::text::str_eq(t.status.as_str(), "done") {
        return Err(conflict("chamado nao esta concluido"));
    }
    let why = match trimmed_v(reason) {
        Some(x) => x,
        None => {
            return Err(internal("motivo obrigatorio"));
        },
    };
    let st: &'static str = match status {
        Some(s) => match normalize_status(s) {
            Some(x) => {
                if crate::text::str_eq(x, "done") {
                    return Err(internal("invalid status"));
                }
                assert(x@ != "done"@);
                x
            },
            None => {
                return Err(internal("invalid status"));
            },
        },
        None => {
            proof {
                reveal_strlit("open");
                reveal_strlit("done");
            }
            assert("open"@[0] != "done"@[0]);
            "open"
        },
    };
    assert(st@ != "done"@);
    let comment = prefixed("[Reaberto pela TI] ", why.as_str());
    Ok(ReopenPlan { status: st, reason: why, comment })
}

// ---------------------------------------------------------------------------
// Opening a ticket
// ---------------------------------------------------------------------------

/// The trimmed title (required) and the priority (`normal` where absent or unknown).
pub fn new_ticket_title(req: &CreateTicketRequest) -> (r: Result<(String, &'static str), ApiError>)
    ensures
        trimmed(req.title@) is None ==> r is Err && is_internal(r->Err_0, "title required"@),
        trimmed(req.title@) matches Some(t) ==> r is Ok && r->Ok_0.0@ == t && r->Ok_0.1@ == match req.priority {
            Some(p) => match priority_spec(p@) {
                Some(x) => x,
                None => "normal"@,
            },
            None => "normal"@,
        },
{
    let title = match trimmed_v(req.title.as_str()) {
        Some(t) => t,
        None => {
            return Err(internal("title required"));
        },
    };
    let priority = match &req.priority {
        Some(p) => match normalize_priority(p.as_str()) {
            Some(x) => x,
            None => "normal",
        },
        None => "normal",
    };
    Ok((title, priority))
}

/// Who a new ticket is for: the machine, who opened it (`agent`, `ti`, `portal`) and
/// the requester account.
pub struct TicketOrigin {
    pub machine_id: String,
    pub created_by: &'static str,
    pub requester_user_id: Option<String>,
}

pub open spec fn origin_ok(req: CreateTicketRequest, caller: TicketCaller, r: Result<TicketOrigin, ApiError>) -> bool {
    let mid = match req.machine_id {
        Some(m) => trimmed(m@),
        None => None,
    };
    match caller {
        TicketCaller::Agent { machine_id } => r is Ok && r->Ok_0.machine_id@ == machine_id@ && r->Ok_0.created_by@ == "agent"@
            && r->Ok_0.requester_user_id is None,
        TicketCaller::Ti => match mid {
            None => r is Err && is_internal(r->Err_0, "machine_id required for TI"@),
            Some(m) => r is Ok && r->Ok_0.machine_id@ == m && r->Ok_0.created_by@ == "ti"@ && r->Ok_0.requester_user_id is None,
        },
        TicketCaller::Portal(u) => if u.role@ != "requester"@ && u.password_hash@ != "device-session-only"@ {
            r == Err::<TicketOrigin, ApiError>(ApiError::Unauthorized)
        } else {
            match mid {
                None => r is Err && is_internal(r->Err_0, "selecione o computador"@),
                Some(m) => r is Ok && r->Ok_0.machine_id@ == m && r->Ok_0.created_by@ == "portal"@ && ostr(
                    r->Ok_0.requester_user_id,
                ) == Some(u.id@),
            }
        },
    }
}

/// The origin of a new ticket. A portal caller must be a requester (or a machine's
/// own session) and name the machine; whether the account is linked to that machine
/// is the caller's next check.
pub fn new_ticket_origin(req: &CreateTicketRequest, caller: TicketCaller) -> (r: Result<TicketOrigin, ApiError>)
    ensures
        origin_ok(*req, caller, r),
{
    let mid = match &req.machine_id {
        Some(m) => trimmed_v(m.as_str()),
        None => None,
    };
    match caller {
        TicketCaller::Agent { machine_id } => {
            proof {
                reveal_strlit("agent");
            }
            Ok(TicketOrigin { machine_id, created_by: "agent", requester_user_id: None })
        },
        TicketCaller::Ti => match mid {
            None => Err(internal("machine_id required for TI")),
            Some(m) => Ok(TicketOrigin { machine_id: m, created_by: "ti", requester_user_id: None }),
        },
        TicketCaller::Portal(u) => {
            if !crate::text::str_eq(u.role.as_str(), "requester") && !crate::tickets::is_device_portal_user(&u) {
                return Err(ApiError::Unauthorized);
            }
            match mid {
                None => Err(internal("selecione o computador")),
                Some(m) => Ok(TicketOrigin { machine_id: m, created_by: "portal", requester_user_id: Some(u.id) }),
            }
        },
    }
}

/// The department a new ticket goes to: the slug of the one asked for, or IT.
pub fn new_ticket_department(department: Option<&str>) -> (r: Result<String, ApiError>)
    ensures
        match department {
            Some(d) => match department_slug_spec(d@) {
                Some(x) => r is Ok && r->Ok_0@ == x,
                None => r is Err && is_internal(r->Err_0, "setor invalido"@),
            },
            None => r is Ok && r->Ok_0@ == "ti"@,
        },
{
    match department {
        Some(d) => match ticket_department_slug(d) {
            Some(x) => Ok(x),
            None => Err(internal("setor invalido")),
        },
        None => Ok("ti".to_string()),
    }
}

/// The owner recorded on a new ticket: IT's registered owner, else the logged-in user,
/// skipping blank names.
pub fn owner_snapshot(admin_owner: Option<String>, logged_user: Option<String>) -> (r: Option<String>)
    ensures
        ostr(r) == match admin_owner {
            Some(o) if trimmed(o@) is Some => Some(o@),
            _ => match logged_user {
                Some(u) if trimmed(u@) is Some => Some(u@),
                _ => None,
            },
        },
{
    match admin_owner {
        Some(o) => {
            if trimmed_v(o.as_str()).is_some() {
                return Some(o);
            }
        },
        None => {},
    }
    match logged_user {
        Some(u) => {
            if trimmed_v(u.as_str()).is_some() {
                Some(u)
            } else {
                None
            }
        },
        None => None,
    }
}

// ---------------------------------------------------------------------------
// Laws of the life cycle
// ---------------------------------------------------------------------------

/// Once closed, a ticket takes no more changes: closing it again is refused, and any
/// change through the API, by whoever may manage it, is refused as a conflict.
pub proof fn law_closed_ticket_is_frozen(
    t: Ticket,
    resolution: Option<Seq<char>>,
    now: Seq<char>,
    closed: Result<Ticket, DbError>,
    resolution2: Option<Seq<char>>,
    now2: Seq<char>,
    again: Result<Ticket, DbError>,
    ti: bool,
    req: UpdateTicketRequest,
    change: Result<TicketChange, ApiError>,
)
    requires
        closed_ok(t, resolution, now, closed),
        closed is Ok,
        closed_ok(closed->Ok_0, resolution2, now2, again),
        change_ok(true, ti, closed->Ok_0, req, change),
    ensures
        again is Err,
        change is Err && is_conflict(change->Err_0, "chamado concluido — alteracoes bloqueadas"@),
{
}

/// A closed ticket takes no comment, no checklist change and no attachment, whoever
/// asks.
pub proof fn law_closed_ticket_takes_nothing_new(
    caller: TicketCaller,
    departments: Seq<Seq<char>>,
    t: Ticket,
    body: Seq<char>,
    has_attachments: bool,
    session_name: Option<String>,
    author_name: Option<String>,
    comment: Result<CommentPlan, ApiError>,
    label: Seq<char>,
    item: Result<String, ApiError>,
    change: Result<(), ApiError>,
    attach: Result<(), ApiError>,
)
    requires
        is_done(t),
        comment_ok(caller, departments, t, body, has_attachments, session_name, author_name, comment),
        checklist_add_ok(caller, departments, t, label, item),
        checklist_change_ok(caller, departments, t, change),
        attach_ok(caller, departments, t, attach),
    ensures
        comment is Err,
        item is Err,
        change is Err,
        attach is Err && is_conflict(attach->Err_0, "chamado concluido — anexos bloqueados"@),
{
}

/// Closing a ticket withdraws any pending request to reopen it.
pub proof fn law_closing_clears_reopen_request(t: Ticket, resolution: Option<Seq<char>>, now: Seq<char>, r: Result<Ticket, DbError>)
    requires
        closed_ok(t, resolution, now, r),
        r is Ok,
    ensures
        is_done(r->Ok_0),
        !r->Ok_0.reopen_pending,
        r->Ok_0.reopen_reason is None,
{
}

/// A ticket is rated at most once: after a rating is accepted, every other is
/// refused.
pub proof fn law_rated_once(
    t: Ticket,
    rating: i32,
    comment: Option<Seq<char>>,
    now: Seq<char>,
    first: Result<Ticket, DbError>,
    rating2: i32,
    comment2: Option<Seq<char>>,
    now2: Seq<char>,
    second: Result<Ticket, DbError>,
)
    requires
        rated_ok(t, rating, comment, now, first),
        first is Ok,
        rated_ok(first->Ok_0, rating2, comment2, now2, second),
    ensures
        second is Err,
        1 <= rating2 <= 5 ==> is_invalid(second->Err_0, "chamado ja avaliado"@),
{
}

/// At most one request to reopen is pending: while one is, another is refused.
pub proof fn law_one_pending_reopen_request(
    t: Ticket,
    reason: Seq<char>,
    now: Seq<char>,
    first: Result<Ticket, DbError>,
    reason2: Seq<char>,
    now2: Seq<char>,
    second: Result<Ticket, DbError>,
)
    requires
        reopen_request_ok(t, reason, now, first),
        first is Ok,
        reopen_request_ok(first->Ok_0, reason2, now2, second),
    ensures
        second is Err,
        trimmed(reason2) is Some ==> is_invalid(second->Err_0, "ja existe pedido de reabertura pendente"@),
{
}

/// Moving a closed ticket to any status but `done` reopens it: it is no longer
/// closed, has no pending request and no resolution.
pub proof fn law_reopening_undoes_closing(
    t: Ticket,
    resolution: Option<Seq<char>>,
    now: Seq<char>,
    closed: Result<Ticket, DbError>,
    status: Seq<char>,
    now2: Seq<char>,
    reopened: Ticket,
)
    requires
        closed_ok(t, resolution, now, closed),
        closed is Ok,
        status != "done"@,
        updated_ok(closed->Ok_0, None, None, Some(status), None, None, now2, reopened),
    ensures
        !is_done(reopened),
        reopened.status@ == status,
        reopened.closed_at is None,
        reopened.resolution is None,
        !reopened.reopen_pending,
        reopened.title@ == t.title@,
        same_ticket(reopened, t),
{
}

} // verus!
