//! Helpdesk tickets: records and requests, the normalisation of status, priority and
//! department, attachment names and types, the spreadsheet export, and the codes of
//! new tickets.

use vstd::prelude::*;
use crate::admin::{copy_opt, ostr};
use crate::compliance::views;
use crate::ext::{
    chrono_instant, format_utc, minutes_between, parse_rfc3339, rfc3339_instant,
    utc_now, utc_text, whole_minutes_between,
};
use crate::incidents::instant;
use crate::models::UtcTime;
use crate::winpath::{file_name, file_name_v, path_eq, path_eq_v, win_join, win_join_v};
use crate::text::{
    ascii_lower, chars, eq_ignore_case, eq_ignore_case_v, eq_v, extend, extend_str, fmt_i64,
    int_digits, is_ascii_alnum, is_ascii_digit, lower_v, nat_digits, str_eq, to_string, trim,
    trim_v,
};

verus! {

pub const STATUS_OPEN: &'static str = "open";
pub const STATUS_IN_PROGRESS: &'static str = "in_progress";
pub const STATUS_WAITING: &'static str = "waiting";
pub const STATUS_DONE: &'static str = "done";

pub const DEFAULT_CHAMADOS_ROOT: &'static str = "\\\\FILE-SHARE\\Portal\\Chamados";
pub const FALLBACK_CHAMADOS_ROOT: &'static str = "\\\\192.0.2.11\\Portal\\Chamados";

pub struct TicketAttachment {
    pub id: String,
    pub ticket_id: String,
    pub filename: String,
    pub stored_name: String,
    pub created_at: String,
}

pub struct TicketComment {
    pub id: String,
    pub ticket_id: String,
    pub author_role: String,
    pub author_name: Option<String>,
    pub body: String,
    pub created_at: String,
}

pub struct ChecklistItem {
    pub id: String,
    pub ticket_id: String,
    pub label: String,
    pub done: bool,
    pub sort_order: i32,
    pub created_at: String,
    pub updated_at: String,
}

pub struct Ticket {
    pub id: String,
    pub code: String,
    pub machine_id: String,
    pub hostname_snapshot: Option<String>,
    /// The IT registration's owner when the ticket was opened (never changes).
    pub owner_name_snapshot: Option<String>,
    pub title: String,
    pub description: Option<String>,
    pub status: String,
    pub priority: String,
    /// The department that receives the ticket.
    pub department: String,
    /// The portal account that opened it (none for agent and IT tickets).
    pub requester_user_id: Option<String>,
    pub created_by: Option<String>,
    pub assignee: Option<String>,
    pub nas_path: Option<String>,
    pub created_at: String,
    pub updated_at: String,
    pub closed_at: Option<String>,
    pub rating: Option<i32>,
    pub rating_comment: Option<String>,
    pub reopen_pending: bool,
    pub reopen_reason: Option<String>,
    pub reopen_requested_at: Option<String>,
    /// Why it was last reopened.
    pub last_reopen_reason: Option<String>,
    /// The resolution IT gave when closing it.
    pub resolution: Option<String>,
    pub attachments: Vec<TicketAttachment>,
    pub comments: Vec<TicketComment>,
    pub checklist: Vec<ChecklistItem>,
}

pub struct AttachRequest {
    pub filename: String,
    /// Empty: register a file already on the NAS.
    pub content_base64: String,
    /// Name under `attachments/`; derived from `filename` when absent.
    pub stored_name: Option<String>,
}

pub struct CreateTicketRequest {
    pub title: String,
    pub description: Option<String>,
    pub priority: Option<String>,
    /// IT may open a ticket for a machine; an agent's is ignored.
    pub machine_id: Option<String>,
    /// Absent keeps IT, for older clients.
    pub department: Option<String>,
    pub attachments: Vec<AttachRequest>,
}

pub struct UpdateTicketRequest {
    pub title: Option<String>,
    pub description: Option<String>,
    pub status: Option<String>,
    pub priority: Option<String>,
    pub assignee: Option<String>,
    pub department: Option<String>,
}

pub struct CommentRequest {
    pub body: String,
    pub author_name: Option<String>,
    pub attachments: Vec<AttachRequest>,
}

pub struct ChecklistCreateRequest {
    pub label: String,
}

pub struct ChecklistPatchRequest {
    pub done: Option<bool>,
    pub label: Option<String>,
}

pub struct RateTicketRequest {
    pub rating: i32,
    pub comment: Option<String>,
}

pub struct ReopenRequestBody {
    pub reason: String,
}

pub struct ReopenDecideBody {
    pub approve: bool,
    pub reason: String,
}

pub struct ReopenBody {
    pub reason: String,
    pub status: Option<String>,
}

pub struct CloseTicketRequest {
    pub resolution: Option<String>,
    pub attachments: Vec<AttachRequest>,
}

/// `meta.json` of a ticket folder on the NAS.
pub struct NasTicketMeta {
    pub code: String,
    pub machine_id: String,
    pub hostname_snapshot: Option<String>,
    pub owner_name_snapshot: Option<String>,
    pub title: String,
    pub description: Option<String>,
    pub status: String,
    pub priority: String,
    pub created_by: Option<String>,
    pub assignee: Option<String>,
    pub created_at: String,
    pub updated_at: Option<String>,
    pub closed_at: Option<String>,
    pub rating: Option<i32>,
    pub rating_comment: Option<String>,
    pub reopen_pending: bool,
    pub reopen_reason: Option<String>,
    pub reopen_requested_at: Option<String>,
    pub last_reopen_reason: Option<String>,
    pub resolution: Option<String>,
    pub nas_path: Option<String>,
    pub duration_min: Option<i64>,
    pub attachments_count: Option<usize>,
    pub comments_count: Option<usize>,
}

/// Counts of one import of the NAS ticket folders.
pub struct NasSyncStats {
    pub scanned: usize,
    pub imported: usize,
    pub updated: usize,
    pub skipped: usize,
    pub errors: usize,
    pub export_ok: bool,
}

impl Default for NasSyncStats {
    fn default() -> (r: NasSyncStats)
        ensures
            r.scanned == 0 && r.imported == 0 && r.updated == 0 && r.skipped == 0 && r.errors == 0
                && !r.export_ok,
    {
        NasSyncStats { scanned: 0, imported: 0, updated: 0, skipped: 0, errors: 0, export_ok: false }
    }
}

// ---------------------------------------------------------------------------
// Department, status, priority
// ---------------------------------------------------------------------------

/// The department of tickets that name none: IT.
pub fn default_department() -> (r: String)
    ensures
        r@ == "ti"@,
{
    "ti".to_owned()
}

/// What the names are compared on: trimmed, ASCII letters lower-cased.
pub open spec fn norm_key(s: Seq<char>) -> Seq<char> {
    ascii_lower(trim(s))
}

fn norm_key_v(s: &str) -> (r: Vec<char>)
    ensures
        r@ == norm_key(s@),
{
    let c = chars(s);
    let t = trim_v(&c);
    lower_v(&t)
}

fn is_lit(k: &Vec<char>, lit: &str) -> (r: bool)
    ensures
        r == (k@ == lit@),
{
    let l = chars(lit);
    eq_v(k, &l)
}

pub open spec fn department_spec(value: Seq<char>) -> Option<Seq<char>> {
    let k = norm_key(value);
    if k == "ti"@ {
        Some("ti"@)
    } else if k == "desenho"@ {
        Some("desenho"@)
    } else if k == "projeto"@ {
        Some("projeto"@)
    } else if k == "producao"@ || k == "produção"@ {
        Some("producao"@)
    } else {
        None
    }
}

/// The built-in department a name stands for.
pub fn normalize_department(value: &str) -> (r: Option<&'static str>)
    ensures
        match r {
            Some(s) => department_spec(value@) == Some(s@),
            None => department_spec(value@) is None,
        },
{
    let k = norm_key_v(value);
    if is_lit(&k, "ti") {
        Some("ti")
    } else if is_lit(&k, "desenho") {
        Some("desenho")
    } else if is_lit(&k, "projeto") {
        Some("projeto")
    } else if is_lit(&k, "producao") || is_lit(&k, "produção") {
        Some("producao")
    } else {
        None
    }
}

pub open spec fn status_spec(value: Seq<char>) -> Option<Seq<char>> {
    let k = norm_key(value);
    if k == "open"@ || k == "aberto"@ {
        Some("open"@)
    } else if k == "in_progress"@ || k == "em_andamento"@ || k == "andamento"@ {
        Some("in_progress"@)
    } else if k == "waiting"@ || k == "aguardando"@ {
        Some("waiting"@)
    } else if k == "done"@ || k == "concluido"@ || k == "concluído"@ || k == "closed"@ || k
        == "fechado"@ {
        Some("done"@)
    } else {
        None
    }
}

/// The status a name stands for (English or Portuguese).
pub fn normalize_status(s: &str) -> (r: Option<&'static str>)
    ensures
        match r {
            Some(x) => status_spec(s@) == Some(x@),
            None => status_spec(s@) is None,
        },
{
    let k = norm_key_v(s);
    if is_lit(&k, "open") || is_lit(&k, "aberto") {
        Some(STATUS_OPEN)
    } else if is_lit(&k, "in_progress") || is_lit(&k, "em_andamento") || is_lit(&k, "andamento") {
        Some(STATUS_IN_PROGRESS)
    } else if is_lit(&k, "waiting") || is_lit(&k, "aguardando") {
        Some(STATUS_WAITING)
    } else if is_lit(&k, "done") || is_lit(&k, "concluido") || is_lit(&k, "concluído") || is_lit(
        &k,
        "closed",
    ) || is_lit(&k, "fechado") {
        Some(STATUS_DONE)
    } else {
        None
    }
}

pub open spec fn priority_spec(value: Seq<char>) -> Option<Seq<char>> {
    let k = norm_key(value);
    if k == "low"@ || k == "baixa"@ {
        Some("low"@)
    } else if k == "normal"@ || k == "media"@ || k == "média"@ {
        Some("normal"@)
    } else if k == "high"@ || k == "alta"@ || k == "urgent"@ || k == "urgente"@ {
        Some("high"@)
    } else {
        None
    }
}

/// The priority a name stands for; urgent counts as high.
pub fn normalize_priority(s: &str) -> (r: Option<&'static str>)
    ensures
        match r {
            Some(x) => priority_spec(s@) == Some(x@),
            None => priority_spec(s@) is None,
        },
{
    let k = norm_key_v(s);
    if is_lit(&k, "low") || is_lit(&k, "baixa") {
        Some("low")
    } else if is_lit(&k, "normal") || is_lit(&k, "media") || is_lit(&k, "média") {
        Some("normal")
    } else if is_lit(&k, "high") || is_lit(&k, "alta") || is_lit(&k, "urgent") || is_lit(&k, "urgente") {
        Some("high")
    } else {
        None
    }
}

// ---------------------------------------------------------------------------
// Attachment names and types
// ---------------------------------------------------------------------------

/// Index of the last `/` or `\`, or -1.
pub open spec fn rfind_slash(s: Seq<char>) -> int
    decreases s.len(),
{
    if s.len() == 0 {
        -1
    } else if s.last() == '/' || s.last() == '\\' {
        s.len() - 1
    } else {
        rfind_slash(s.drop_last())
    }
}

pub open spec fn safe_char(c: char) -> char {
    if is_ascii_alnum(c) || c == '.' || c == '-' || c == '_' {
        c
    } else {
        '_'
    }
}

/// The name after the last `/` or `\`, every character but ASCII letters, digits,
/// `.`, `-` and `_` replaced by `_`; `anexo.bin` where nothing is left.
pub open spec fn sanitize_spec(name: Seq<char>) -> Seq<char> {
    let base = name.skip(rfind_slash(name) + 1).map_values(|c: char| safe_char(c));
    if base.len() == 0 {
        "anexo.bin"@
    } else {
        base
    }
}

proof fn lemma_rfind_slash(s: Seq<char>)
    ensures
        -1 <= rfind_slash(s) < s.len(),
    decreases s.len(),
{
    if s.len() > 0 && !(s.last() == '/' || s.last() == '\\') {
        lemma_rfind_slash(s.drop_last());
    }
}

pub fn sanitize_filename(name: &str) -> (r: String)
    ensures
        r@ == sanitize_spec(name@),
{
    let v = chars(name);
    let mut i = v.len();
    assert(v@.take(i as int) =~= v@);
    while i > 0 && !(v[i - 1] == '/' || v[i - 1] == '\\')
        invariant
            i <= v@.len(),
            rfind_slash(v@) == rfind_slash(v@.take(i as int)),
        decreases i,
    {
        assert(v@.take(i as int).drop_last() =~= v@.take(i - 1));
        i = i - 1;
    }
    proof {
        lemma_rfind_slash(v@);
        if i == 0 {
            assert(rfind_slash(v@.take(0)) == -1);
        } else {
            assert(v@.take(i as int).last() == v@[i - 1]);
        }
    }
    let ghost start = i as int;
    let ghost tail = v@.skip(start);
    let mut base: Vec<char> = Vec::new();
    let mut j = i;
    while j < v.len()
        invariant
            0 <= start <= j <= v@.len(),
            tail == v@.skip(start),
            tail.len() == v@.len() - start,
            base@ == tail.take(j - start).map_values(|c: char| safe_char(c)),
        decreases v@.len() - j,
    {
        let c = v[j];
        let d = if ('a' <= c && c <= 'z') || ('A' <= c && c <= 'Z') || ('0' <= c && c <= '9') || c == '.' || c == '-' || c == '_' {
            c
        } else {
            '_'
        };
        base.push(d);
        assert(tail[j - start] == v@[j as int]);
        assert(tail.take(j + 1 - start) =~= tail.take(j - start).push(c));
        j = j + 1;
        assert(base@ =~= tail.take(j - start).map_values(|c: char| safe_char(c)));
    }
    assert(tail.take(v@.len() - start) =~= tail);
    if base.len() == 0 {
        "anexo.bin".to_owned()
    } else {
        to_string(&base)
    }
}

/// Whether a file in a ticket's `attachments` folder is the attachment: its name is
/// the stored name or the shown name (ASCII case aside), or the sanitized shown name.
pub open spec fn attachment_name_matches_spec(candidate: Seq<char>, stored: Seq<char>, display: Option<Seq<char>>) -> bool {
    ||| eq_ignore_case(candidate, stored)
    ||| match display {
        Some(n) => n.len() > 0 && (eq_ignore_case(candidate, n) || candidate == sanitize_spec(n)),
        None => false,
    }
}

pub fn attachment_name_matches(candidate: &str, stored_name: &str, display_filename: Option<&str>) -> (r: bool)
    ensures
        r == attachment_name_matches_spec(
            candidate@,
            stored_name@,
            match display_filename {
                Some(n) => Some(n@),
                None => None,
            },
        ),
{
    let c = chars(candidate);
    let st = chars(stored_name);
    if eq_ignore_case_v(&c, &st) {
        return true;
    }
    if let Some(name) = display_filename {
        let n = chars(name);
        if n.len() > 0 {
            if eq_ignore_case_v(&c, &n) {
                return true;
            }
            let san = sanitize_filename(name);
            if str_eq(candidate, san.as_str()) {
                return true;
            }
        }
    }
    false
}

/// The MIME type of an attachment, from its extension (ASCII case aside).
pub open spec fn content_type_spec(filename: Seq<char>) -> Seq<char> {
    let e = ascii_lower(
        match crate::winpath::extension(filename) {
            Some(x) => x,
            None => Seq::empty(),
        },
    );
    if e == "png"@ {
        "image/png"@
    } else if e == "jpg"@ || e == "jpeg"@ {
        "image/jpeg"@
    } else if e == "gif"@ {
        "image/gif"@
    } else if e == "webp"@ {
        "image/webp"@
    } else if e == "bmp"@ {
        "image/bmp"@
    } else if e == "svg"@ {
        "image/svg+xml"@
    } else if e == "pdf"@ {
        "application/pdf"@
    } else if e == "txt"@ {
        "text/plain; charset=utf-8"@
    } else if e == "csv"@ {
        "text/csv; charset=utf-8"@
    } else if e == "json"@ {
        "application/json"@
    } else if e == "html"@ || e == "htm"@ {
        "text/html; charset=utf-8"@
    } else if e == "doc"@ {
        "application/msword"@
    } else if e == "docx"@ {
        "application/vnd.openxmlformats-officedocument.wordprocessingml.document"@
    } else if e == "xls"@ {
        "application/vnd.ms-excel"@
    } else if e == "xlsx"@ {
        "application/vnd.openxmlformats-officedocument.spreadsheetml.sheet"@
    } else if e == "odt"@ {
        "application/vnd.oasis.opendocument.text"@
    } else if e == "zip"@ {
        "application/zip"@
    } else {
        "application/octet-stream"@
    }
}

pub fn attachment_content_type(filename: &str) -> (r: String)
    ensures
        r@ == content_type_spec(filename@),
{
    let f = chars(filename);
    let raw = match crate::winpath::extension_v(&f) {
        Some(x) => x,
        None => Vec::new(),
    };
    let e = lower_v(&raw);
    let mime = if is_lit(&e, "png") {
        "image/png"
    } else if is_lit(&e, "jpg") || is_lit(&e, "jpeg") {
        "image/jpeg"
    } else if is_lit(&e, "gif") {
        "image/gif"
    } else if is_lit(&e, "webp") {
        "image/webp"
    } else if is_lit(&e, "bmp") {
        "image/bmp"
    } else if is_lit(&e, "svg") {
        "image/svg+xml"
    } else if is_lit(&e, "pdf") {
        "application/pdf"
    } else if is_lit(&e, "txt") {
        "text/plain; charset=utf-8"
    } else if is_lit(&e, "csv") {
        "text/csv; charset=utf-8"
    } else if is_lit(&e, "json") {
        "application/json"
    } else if is_lit(&e, "html") || is_lit(&e, "htm") {
        "text/html; charset=utf-8"
    } else if is_lit(&e, "doc") {
        "application/msword"
    } else if is_lit(&e, "docx") {
        "application/vnd.openxmlformats-officedocument.wordprocessingml.document"
    } else if is_lit(&e, "xls") {
        "application/vnd.ms-excel"
    } else if is_lit(&e, "xlsx") {
        "application/vnd.openxmlformats-officedocument.spreadsheetml.sheet"
    } else if is_lit(&e, "odt") {
        "application/vnd.oasis.opendocument.text"
    } else if is_lit(&e, "zip") {
        "application/zip"
    } else {
        "application/octet-stream"
    };
    mime.to_owned()
}

// ---------------------------------------------------------------------------
// Departments
// ---------------------------------------------------------------------------

pub open spec fn slug_char(c: char) -> char {
    if is_ascii_alnum(c) {
        c
    } else {
        '-'
    }
}

/// Reading a text left to right: what is kept so far, and whether a `-` is pending.
/// Runs of `-` become one, and none is kept at either end.
pub open spec fn dash_scan(s: Seq<char>) -> (Seq<char>, bool)
    decreases s.len(),
{
    if s.len() == 0 {
        (Seq::empty(), false)
    } else {
        let (out, pending) = dash_scan(s.drop_last());
        let c = s.last();
        if c == '-' {
            (out, true)
        } else if pending && out.len() > 0 {
            (out.push('-').push(c), false)
        } else {
            (out.push(c), false)
        }
    }
}

/// The department id for a name: a built-in department, else the name trimmed and
/// lower-cased with every other character than ASCII letters and digits made `-`,
/// runs of `-` merged and trimmed; at most 48 characters, not empty.
pub open spec fn department_slug_spec(value: Seq<char>) -> Option<Seq<char>> {
    match department_spec(value) {
        Some(d) => Some(d),
        None => {
            let slug = dash_scan(norm_key(value).map_values(|c: char| slug_char(c))).0;
            if slug.len() > 0 && slug.len() <= 48 {
                Some(slug)
            } else {
                None
            }
        },
    }
}

pub fn ticket_department_slug(value: &str) -> (r: Option<String>)
    ensures
        match r {
            Some(s) => department_slug_spec(value@) == Some(s@),
            None => department_slug_spec(value@) is None,
        },
{
    if let Some(d) = normalize_department(value) {
        return Some(d.to_owned());
    }
    let k = norm_key_v(value);
    let ghost m = k@.map_values(|c: char| slug_char(c));
    let mut out: Vec<char> = Vec::new();
    let mut pending = false;
    let mut i: usize = 0;
    assert(m.take(0) =~= Seq::<char>::empty());
    while i < k.len()
        invariant
            i <= k@.len(),
            m == k@.map_values(|c: char| slug_char(c)),
            (out@, pending) == dash_scan(m.take(i as int)),
        decreases k@.len() - i,
    {
        let c0 = k[i];
        let c = if ('a' <= c0 && c0 <= 'z') || ('A' <= c0 && c0 <= 'Z') || ('0' <= c0 && c0 <= '9') {
            c0
        } else {
            '-'
        };
        assert(m.take(i + 1).drop_last() =~= m.take(i as int));
        assert(m.take(i + 1).last() == c);
        if c == '-' {
            pending = true;
        } else {
            if pending && out.len() > 0 {
                out.push('-');
            }
            out.push(c);
            pending = false;
        }
        i = i + 1;
    }
    assert(m.take(k@.len() as int) =~= m);
    if out.len() > 0 && out.len() <= 48 {
        Some(to_string(&out))
    } else {
        None
    }
}

/// What a failed database operation reports.
#[derive(Debug)]
pub enum DbError {
    /// The database engine's error, as it writes itself.
    Sqlite(String),
    InvalidToken,
    NotFound,
    InvalidInput(String),
}

impl DbError {
    pub open spec fn message_spec(&self) -> Seq<char> {
        match self {
            DbError::Sqlite(m) => "database error: "@ + m@,
            DbError::InvalidToken => "invalid token"@,
            DbError::NotFound => "machine not found"@,
            DbError::InvalidInput(m) => "invalid input: "@ + m@,
        }
    }

    /// The error's text.
    pub fn message(&self) -> (r: String)
        ensures
            r@ == self.message_spec(),
    {
        match self {
            DbError::Sqlite(m) => {
                let mut t = chars("database error: ");
                extend_str(&mut t, m.as_str());
                to_string(&t)
            },
            DbError::InvalidToken => "invalid token".to_owned(),
            DbError::NotFound => "machine not found".to_owned(),
            DbError::InvalidInput(m) => {
                let mut t = chars("invalid input: ");
                extend_str(&mut t, m.as_str());
                to_string(&t)
            },
        }
    }
}

/// What an API call that fails answers.
#[derive(Debug)]
pub enum ApiError {
    Db(DbError),
    Internal(String),
    Unauthorized,
    Conflict(String),
}

impl ApiError {
    pub open spec fn response_spec(&self) -> (u16, Seq<char>) {
        match self {
            ApiError::Unauthorized => (401, "unauthorized"@),
            ApiError::Conflict(m) => (409, m@),
            ApiError::Db(DbError::InvalidToken) => (401, "invalid agent token"@),
            ApiError::Db(DbError::NotFound) => (404, "not found"@),
            ApiError::Db(DbError::InvalidInput(m)) => (400, m@),
            ApiError::Db(e) => (500, e.message_spec()),
            ApiError::Internal(m) => (500, m@),
        }
    }

    /// The HTTP status and body the error is answered with.
    pub fn response(&self) -> (r: (u16, String))
        ensures
            r.0 == self.response_spec().0,
            r.1@ == self.response_spec().1,
    {
        match self {
            ApiError::Unauthorized => (401, "unauthorized".to_owned()),
            ApiError::Conflict(m) => (409, m.clone()),
            ApiError::Db(DbError::InvalidToken) => (401, "invalid agent token".to_owned()),
            ApiError::Db(DbError::NotFound) => (404, "not found".to_owned()),
            ApiError::Db(DbError::InvalidInput(m)) => (400, m.clone()),
            ApiError::Db(e) => (500, e.message()),
            ApiError::Internal(m) => (500, m.clone()),
        }
    }
}

/// A department's display name: trimmed, 1 to 60 characters.
pub fn ticket_department_name(value: &str) -> (r: Result<String, ApiError>)
    ensures
        match r {
            Ok(n) => n@ == trim(value@) && 1 <= trim(value@).len() <= 60,
            Err(e) => !(1 <= trim(value@).len() <= 60) && (e matches ApiError::Internal(m)
                && m@ == "nome do setor deve ter entre 1 e 60 caracteres"@),
        },
{
    let v = chars(value);
    let name = trim_v(&v);
    if name.len() == 0 || name.len() > 60 {
        return Err(ApiError::Internal("nome do setor deve ter entre 1 e 60 caracteres".to_owned()));
    }
    Ok(to_string(&name))
}

/// A restricted account of the ticket portal.
pub struct PortalUser {
    pub id: String,
    pub username: String,
    pub display_name: String,
    pub password_hash: String,
    pub role: String,
    pub department: Option<String>,
}

/// A department that can receive tickets; its id stays when it is renamed.
pub struct TicketDepartment {
    pub slug: String,
    pub name: String,
    pub active: bool,
    pub system: bool,
    pub created_at: String,
    pub updated_at: String,
}

/// The departments whose tickets a portal user receives: those stored for the user,
/// else, for a sector agent, the user's own department.
pub open spec fn receive_departments_spec(stored: Seq<Seq<char>>, user: PortalUser) -> Seq<Seq<char>> {
    if stored.len() == 0 && user.role@ == "sector_agent"@ {
        match user.department {
            Some(d) => seq![d@],
            None => Seq::empty(),
        }
    } else {
        stored
    }
}

pub fn portal_receive_departments(stored: Vec<String>, user: &PortalUser) -> (r: Vec<String>)
    ensures
        crate::compliance::views(r@) == receive_departments_spec(crate::compliance::views(stored@), *user),
{
    let mut departments = stored;
    if departments.len() == 0 && str_eq(user.role.as_str(), "sector_agent") {
        if let Some(d) = &user.department {
            departments.push(d.clone());
            assert(crate::compliance::views(departments@) =~= seq![d@]);
        } else {
            assert(crate::compliance::views(departments@) =~= Seq::<Seq<char>>::empty());
        }
    }
    departments
}

/// An account made for a device session only.
pub fn is_device_portal_user(user: &PortalUser) -> (r: bool)
    ensures
        r == (user.password_hash@ == "device-session-only"@),
{
    str_eq(user.password_hash.as_str(), "device-session-only")
}

pub open spec fn receives(departments: Seq<Seq<char>>, ticket: Ticket) -> bool {
    exists|i: int| 0 <= i < departments.len() && departments[i] == ticket.department@
}

fn receives_v(departments: &[String], ticket: &Ticket) -> (r: bool)
    ensures
        r == receives(crate::compliance::views(departments@), *ticket),
{
    let ghost dv = crate::compliance::views(departments@);
    let mut i: usize = 0;
    while i < departments.len()
        invariant
            i <= departments@.len(),
            dv == crate::compliance::views(departments@),
            forall|j: int| 0 <= j < i ==> dv[j] != ticket.department@,
        decreases departments@.len() - i,
    {
        assert(dv[i as int] == departments@[i as int]@);
        if str_eq(departments[i].as_str(), ticket.department.as_str()) {
            return true;
        }
        i = i + 1;
    }
    false
}

/// A portal user reads a ticket they opened or one their departments receive.
pub fn portal_can_read_ticket(user: &PortalUser, departments: &[String], ticket: &Ticket) -> (r: bool)
    ensures
        r == ((ticket.requester_user_id matches Some(u) && u@ == user.id@) || receives(
            crate::compliance::views(departments@),
            *ticket,
        )),
{
    let own = match &ticket.requester_user_id {
        Some(u) => str_eq(u.as_str(), user.id.as_str()),
        None => false,
    };
    own || receives_v(departments, ticket)
}

/// A portal user manages a ticket that one of their departments receives.
pub fn portal_can_manage_ticket(departments: &[String], ticket: &Ticket) -> (r: bool)
    ensures
        r == receives(crate::compliance::views(departments@), *ticket),
{
    receives_v(departments, ticket)
}

// ---------------------------------------------------------------------------
// Ticket codes
// ---------------------------------------------------------------------------

/// The number of a code `"{prefix}NNN"` whose suffix is only ASCII digits and fits
/// in `i64`.
pub open spec fn code_number(code: Seq<char>, prefix: Seq<char>) -> Option<nat> {
    if crate::text::starts_with(code, prefix) {
        let suf = code.skip(prefix.len() as int);
        if suf.len() > 0 && crate::text::all_digits(suf) && crate::text::digits_value(suf) <= i64::MAX {
            Some(crate::text::digits_value(suf))
        } else {
            None
        }
    } else {
        None
    }
}

/// The largest such number among the codes, or 0.
pub open spec fn max_code_number(codes: Seq<Seq<char>>, prefix: Seq<char>) -> nat
    decreases codes.len(),
{
    if codes.len() == 0 {
        0
    } else {
        let m = max_code_number(codes.drop_last(), prefix);
        match code_number(codes.last(), prefix) {
            Some(n) => if n > m {
                n
            } else {
                m
            },
            None => m,
        }
    }
}

/// `{:03}`: at least three digits, zero-padded.
pub open spec fn pad3(n: nat) -> Seq<char> {
    let d = nat_digits(n);
    if d.len() >= 3 {
        d
    } else if d.len() == 2 {
        seq!['0'] + d
    } else {
        seq!['0', '0'] + d
    }
}

pub open spec fn code_prefix(day: Seq<char>) -> Seq<char> {
    "CHM-"@ + day + "-"@
}

/// The code after the day's highest: `CHM-{day}-{NNN}`; none where the highest is
/// `i64::MAX` and the next number overflows.
pub open spec fn next_code_spec(day: Seq<char>, codes: Seq<Seq<char>>) -> Option<Seq<char>> {
    let m = max_code_number(codes, code_prefix(day));
    if m >= i64::MAX {
        None
    } else {
        Some(code_prefix(day) + pad3(m + 1))
    }
}

fn digits_value_v(s: &Vec<char>, from: usize) -> (r: Option<u64>)
    requires
        from <= s@.len(),
    ensures
        match r {
            Some(n) => {
                let suf = s@.skip(from as int);
                suf.len() > 0 && crate::text::all_digits(suf) && crate::text::digits_value(suf) <= i64::MAX
                    && n == crate::text::digits_value(suf)
            },
            None => {
                let suf = s@.skip(from as int);
                !(suf.len() > 0 && crate::text::all_digits(suf) && crate::text::digits_value(suf) <= i64::MAX)
            },
        },
{
    let ghost d = s@.skip(from as int);
    if s.len() == from {
        return None;
    }
    let mut v: u64 = 0;
    let mut over = false;
    let mut i = from;
    while i < s.len()
        invariant
            from <= i <= s@.len(),
            d == s@.skip(from as int),
            d.len() == s@.len() - from,
            d.len() > 0,
            crate::text::all_digits(d.take(i - from)),
            !over ==> v == crate::text::digits_value(d.take(i - from)) && v <= i64::MAX,
            over ==> crate::text::digits_value(d.take(i - from)) > i64::MAX,
        decreases s@.len() - i,
    {
        let c = s[i];
        assert(d[i - from] == c);
        if !('0' <= c && c <= '9') {
            assert(!crate::text::all_digits(d));
            return None;
        }
        let ghost prev = d.take(i - from);
        let ghost next = d.take(i - from + 1);
        assert(next.drop_last() =~= prev);
        assert(next.last() == c);
        if !over {
            let dv: u64 = (c as u32 - 48) as u64;
            if v > 922337203685477580u64 || (v == 922337203685477580u64 && dv > 7) {
                over = true;
            } else {
                v = v * 10 + dv;
            }
        } else {
            assert(crate::text::digits_value(next) >= crate::text::digits_value(prev));
        }
        i = i + 1;
        assert(crate::text::all_digits(d.take(i - from))) by {
            assert forall|k: int| 0 <= k < i - from implies crate::text::is_ascii_digit(#[trigger] d.take(i - from)[k]) by {
                if k < i - from - 1 {
                    assert(d.take(i - from)[k] == prev[k]);
                }
            }
        }
    }
    assert(d.take(s@.len() - from) =~= d);
    if over {
        None
    } else {
        Some(v)
    }
}

fn max_code_number_v(codes: &[String], prefix: &Vec<char>) -> (r: u64)
    ensures
        r == max_code_number(views(codes@), prefix@),
        r <= i64::MAX,
{
    let ghost cv = views(codes@);
    let mut m: u64 = 0;
    let mut i: usize = 0;
    assert(cv.take(0) =~= Seq::<Seq<char>>::empty());
    while i < codes.len()
        invariant
            i <= codes@.len(),
            cv == views(codes@),
            m == max_code_number(cv.take(i as int), prefix@),
            m <= i64::MAX,
        decreases codes@.len() - i,
    {
        assert(cv.take(i + 1).drop_last() =~= cv.take(i as int));
        assert(cv.take(i + 1).last() == codes@[i as int]@);
        let c = chars(codes[i].as_str());
        if crate::text::starts_with_v(&c, prefix) {
            if let Some(n) = digits_value_v(&c, prefix.len()) {
                if n > m {
                    m = n;
                }
            }
        }
        i = i + 1;
    }
    assert(cv.take(cv.len() as int) =~= cv);
    m
}

fn pad3_v(n: u64) -> (r: Vec<char>)
    ensures
        r@ == pad3(n as nat),
{
    let d = crate::text::fmt_u64(n);
    if d.len() >= 3 {
        d
    } else if d.len() == 2 {
        let mut r = vec!['0'];
        extend(&mut r, &d);
        r
    } else {
        let mut r = vec!['0', '0'];
        extend(&mut r, &d);
        r
    }
}

/// The code of the next ticket opened on the day of `now`, after those already
/// stored (`codes`).
pub fn next_ticket_code(now: UtcTime, codes: &[String]) -> (r: Option<String>)
    requires
        chrono_instant(now.secs, now.nanos),
    ensures
        match r {
            Some(c) => next_code_spec(utc_text(now.secs, now.nanos, "%Y%m%d"@), views(codes@)) == Some(c@),
            None => next_code_spec(utc_text(now.secs, now.nanos, "%Y%m%d"@), views(codes@)) is None,
        },
{
    let day = format_utc(now, "%Y%m%d");
    let mut prefix = chars("CHM-");
    extend_str(&mut prefix, day.as_str());
    extend_str(&mut prefix, "-");
    let m = max_code_number_v(codes, &prefix);
    if m >= 9223372036854775807u64 {
        return None;
    }
    let p = pad3_v(m + 1);
    extend(&mut prefix, &p);
    Some(to_string(&prefix))
}

/// The code of the next ticket opened today.
pub fn next_ticket_code_now(codes: &[String]) -> (r: Option<String>)
    ensures
        exists|now: UtcTime|
            chrono_instant(now.secs, now.nanos) && match r {
                Some(c) => next_code_spec(utc_text(now.secs, now.nanos, "%Y%m%d"@), views(codes@)) == Some(c@),
                None => next_code_spec(utc_text(now.secs, now.nanos, "%Y%m%d"@), views(codes@)) is None,
            },
{
    let now = utc_now();
    next_ticket_code(now, codes)
}

// ---------------------------------------------------------------------------
// Durations and the spreadsheet export
// ---------------------------------------------------------------------------

/// Whole minutes from opening to closing, or to `now` while open; none where a time
/// is not RFC 3339. Never negative.
pub open spec fn duration_spec(created: Seq<char>, closed: Option<Seq<char>>, now: UtcTime) -> Option<i64> {
    match instant(rfc3339_instant(created)) {
        None => None,
        Some(st) => {
            let end = match closed {
                Some(c) => if c.len() > 0 {
                    instant(rfc3339_instant(c))
                } else {
                    Some(now)
                },
                None => Some(now),
            };
            match end {
                Some(e) => {
                    let m = minutes_between(st.secs, st.nanos, e.secs, e.nanos);
                    Some(if m < 0 { 0 } else { m })
                },
                None => None,
            }
        },
    }
}

pub open spec fn ostr_ref(o: Option<&str>) -> Option<Seq<char>> {
    match o {
        Some(s) => Some(s@),
        None => None,
    }
}

pub fn duration_minutes_at(created_at: &str, closed_at: Option<&str>, now: UtcTime) -> (r: Option<i64>)
    requires
        chrono_instant(now.secs, now.nanos),
    ensures
        r == duration_spec(created_at@, ostr_ref(closed_at), now),
{
    let start = match parse_rfc3339(created_at) {
        Some(t) => t,
        None => return None,
    };
    let end = match closed_at {
        Some(c) => if c.unicode_len() > 0 {
            match parse_rfc3339(c) {
                Some(t) => t,
                None => return None,
            }
        } else {
            now
        },
        None => now,
    };
    let m = whole_minutes_between(start, end);
    Some(if m < 0 { 0 } else { m })
}

/// Whole minutes from opening to closing, or until now while the ticket is open.
pub fn duration_minutes(created_at: &str, closed_at: Option<&str>) -> (r: Option<i64>)
    ensures
        exists|now: UtcTime| chrono_instant(now.secs, now.nanos) && r == duration_spec(created_at@, ostr_ref(closed_at), now),
{
    let now = utc_now();
    duration_minutes_at(created_at, closed_at, now)
}

pub open spec fn or_empty(o: Option<String>) -> Seq<char> {
    match o {
        Some(s) => s@,
        None => Seq::empty(),
    }
}

pub open spec fn header_row() -> Seq<Seq<char>> {
    seq![
        "Codigo"@,
        "Titulo"@,
        "Status"@,
        "Prioridade"@,
        "Host"@,
        "Responsavel"@,
        "Criado_por"@,
        "Assignee"@,
        "Aberto"@,
        "Atualizado"@,
        "Fechado"@,
        "Duracao_min"@,
        "Resolucao"@,
        "Avaliacao"@,
        "Comentario_avaliacao"@,
        "Reopen_pendente"@,
        "Motivo_reopen"@,
        "Ultimo_motivo_reopen"@,
        "Nas_path"@,
        "Qtd_anexos"@,
        "Qtd_comentarios"@,
    ]
}

pub open spec fn ticket_row(t: Ticket, now: UtcTime) -> Seq<Seq<char>> {
    seq![
        t.code@,
        t.title@,
        t.status@,
        t.priority@,
        or_empty(t.hostname_snapshot),
        or_empty(t.owner_name_snapshot),
        or_empty(t.created_by),
        or_empty(t.assignee),
        t.created_at@,
        t.updated_at@,
        or_empty(t.closed_at),
        match duration_spec(t.created_at@, ostr(t.closed_at), now) {
            Some(d) => int_digits(d as int),
            None => Seq::empty(),
        },
        or_empty(t.resolution),
        match t.rating {
            Some(r) => int_digits(r as int),
            None => Seq::empty(),
        },
        or_empty(t.rating_comment),
        if t.reopen_pending {
            "sim"@
        } else {
            "nao"@
        },
        or_empty(t.reopen_reason),
        or_empty(t.last_reopen_reason),
        or_empty(t.nas_path),
        nat_digits(t.attachments@.len()),
        nat_digits(t.comments@.len()),
    ]
}

pub open spec fn rows_view(rows: Seq<Vec<String>>) -> Seq<Seq<Seq<char>>> {
    rows.map_values(|r: Vec<String>| views(r@))
}

/// The header, then one row per ticket.
pub open spec fn xlsx_rows_spec(tickets: Seq<Ticket>, now: UtcTime) -> Seq<Seq<Seq<char>>> {
    seq![header_row()] + tickets.map_values(|t: Ticket| ticket_row(t, now))
}

fn push_text(row: &mut Vec<String>, s: String)
    ensures
        views(final(row)@) == views(old(row)@).push(s@),
{
    let ghost r0 = row@;
    row.push(s);
    assert forall|k: int| 0 <= k < r0.len() implies #[trigger] views(row@)[k] == views(r0)[k] by {
        assert(row@[k] == r0[k]);
    }
    assert(views(row@) =~= views(r0).push(s@));
}

fn text_or_empty(o: &Option<String>) -> (r: String)
    ensures
        r@ == or_empty(*o),
{
    match o {
        Some(s) => s.clone(),
        None => String::new(),
    }
}

fn header_row_v() -> (r: Vec<String>)
    ensures
        views(r@) == header_row(),
{
    let mut r: Vec<String> = Vec::new();
    assert(views(r@) =~= Seq::<Seq<char>>::empty());
    push_text(&mut r, "Codigo".to_owned());
    push_text(&mut r, "Titulo".to_owned());
    push_text(&mut r, "Status".to_owned());
    push_text(&mut r, "Prioridade".to_owned());
    push_text(&mut r, "Host".to_owned());
    push_text(&mut r, "Responsavel".to_owned());
    push_text(&mut r, "Criado_por".to_owned());
    push_text(&mut r, "Assignee".to_owned());
    push_text(&mut r, "Aberto".to_owned());
    push_text(&mut r, "Atualizado".to_owned());
    push_text(&mut r, "Fechado".to_owned());
    push_text(&mut r, "Duracao_min".to_owned());
    push_text(&mut r, "Resolucao".to_owned());
    push_text(&mut r, "Avaliacao".to_owned());
    push_text(&mut r, "Comentario_avaliacao".to_owned());
    push_text(&mut r, "Reopen_pendente".to_owned());
    push_text(&mut r, "Motivo_reopen".to_owned());
    push_text(&mut r, "Ultimo_motivo_reopen".to_owned());
    push_text(&mut r, "Nas_path".to_owned());
    push_text(&mut r, "Qtd_anexos".to_owned());
    push_text(&mut r, "Qtd_comentarios".to_owned());
    assert(views(r@) =~= header_row());
    r
}

pub fn opt_ref(o: &Option<String>) -> (r: Option<&str>)
    ensures
        ostr_ref(r) == ostr(*o),
{
    match o {
        Some(s) => Some(s.as_str()),
        None => None,
    }
}

#[verifier::spinoff_prover]
#[verifier::rlimit(40)]
fn ticket_row_v(t: &Ticket, now: UtcTime) -> (r: Vec<String>)
    requires
        chrono_instant(now.secs, now.nanos),
    ensures
        views(r@) == ticket_row(*t, now),
{
    let mut r: Vec<String> = Vec::new();
    assert(views(r@) =~= Seq::<Seq<char>>::empty());
    push_text(&mut r, t.code.clone());
    push_text(&mut r, t.title.clone());
    push_text(&mut r, t.status.clone());
    push_text(&mut r, t.priority.clone());
    push_text(&mut r, text_or_empty(&t.hostname_snapshot));
    push_text(&mut r, text_or_empty(&t.owner_name_snapshot));
    push_text(&mut r, text_or_empty(&t.created_by));
    push_text(&mut r, text_or_empty(&t.assignee));
    push_text(&mut r, t.created_at.clone());
    push_text(&mut r, t.updated_at.clone());
    push_text(&mut r, text_or_empty(&t.closed_at));
    let dur = match duration_minutes_at(t.created_at.as_str(), opt_ref(&t.closed_at), now) {
        Some(d) => to_string(&fmt_i64(d)),
        None => String::new(),
    };
    push_text(&mut r, dur);
    push_text(&mut r, text_or_empty(&t.resolution));
    let rating = match t.rating {
        Some(x) => to_string(&fmt_i64(x as i64)),
        None => String::new(),
    };
    push_text(&mut r, rating);
    push_text(&mut r, text_or_empty(&t.rating_comment));
    push_text(&mut r, if t.reopen_pending { "sim".to_owned() } else { "nao".to_owned() });
    push_text(&mut r, text_or_empty(&t.reopen_reason));
    push_text(&mut r, text_or_empty(&t.last_reopen_reason));
    push_text(&mut r, text_or_empty(&t.nas_path));
    push_text(&mut r, to_string(&crate::text::fmt_u64(t.attachments.len() as u64)));
    push_text(&mut r, to_string(&crate::text::fmt_u64(t.comments.len() as u64)));
    proof {
        reveal_strlit("");
    }
    assert(views(r@) =~= ticket_row(*t, now));
    r
}

/// The spreadsheet rows of the ticket export; open tickets are timed until `now`.
pub fn compliance_xlsx_rows_at(tickets: &[Ticket], now: UtcTime) -> (r: Vec<Vec<String>>)
    requires
        chrono_instant(now.secs, now.nanos),
    ensures
        rows_view(r@) == xlsx_rows_spec(tickets@, now),
{
    let mut rows: Vec<Vec<String>> = Vec::new();
    rows.push(header_row_v());
    let ghost tr = tickets@.map_values(|t: Ticket| ticket_row(t, now));
    let mut i: usize = 0;
    assert(rows_view(rows@) =~= seq![header_row()] + tr.take(0));
    while i < tickets.len()
        invariant
            i <= tickets@.len(),
            chrono_instant(now.secs, now.nanos),
            tr == tickets@.map_values(|t: Ticket| ticket_row(t, now)),
            rows@.len() == i + 1,
            rows_view(rows@) == seq![header_row()] + tr.take(i as int),
        decreases tickets@.len() - i,
    {
        let row = ticket_row_v(&tickets[i], now);
        let ghost r0 = rows@;
        rows.push(row);
        i = i + 1;
        assert forall|k: int| 0 <= k < r0.len() implies #[trigger] rows_view(rows@)[k] == rows_view(r0)[k] by {
            assert(rows@[k] == r0[k]);
        }
        assert(rows_view(rows@) =~= seq![header_row()] + tr.take(i as int));
    }
    assert(tr.take(tickets@.len() as int) =~= tr);
    rows
}

/// The spreadsheet rows of the ticket export (open tickets timed until now).
pub fn compliance_xlsx_rows(tickets: &[Ticket]) -> (r: Vec<Vec<String>>)
    ensures
        exists|now: UtcTime| chrono_instant(now.secs, now.nanos) && rows_view(r@) == xlsx_rows_spec(tickets@, now),
{
    let now = utc_now();
    compliance_xlsx_rows_at(tickets, now)
}

// ---------------------------------------------------------------------------
// The ticket folder on the NAS
// ---------------------------------------------------------------------------

pub open spec fn or_dash(o: Option<String>) -> Seq<char> {
    match o {
        Some(s) => s@,
        None => "-"@,
    }
}

/// `descricao.md` of a ticket folder.
pub open spec fn ticket_markdown_spec(t: Ticket) -> Seq<char> {
    "# "@ + t.title@ + "\n\n**Codigo:** "@ + t.code@ + "\n**Host:** "@ + or_dash(t.hostname_snapshot)
        + "\n**Responsavel:** "@ + or_dash(t.owner_name_snapshot) + "\n**Status:** "@ + t.status@
        + "\n**Prioridade:** "@ + t.priority@ + "\n**Assignee:** "@ + or_dash(t.assignee)
        + "\n**Aberto:** "@ + t.created_at@ + "\n**Atualizado:** "@ + t.updated_at@
        + "\n**Fechado:** "@ + or_dash(t.closed_at) + "\n**Resolucao:** "@ + or_dash(t.resolution)
        + "\n**Avaliacao:** "@ + (match t.rating {
        Some(r) => int_digits(r as int),
        None => "-"@,
    }) + "\n\n"@ + or_empty(t.description) + "\n"@
}

fn push_or_dash(md: &mut Vec<char>, o: &Option<String>)
    ensures
        final(md)@ == old(md)@ + or_dash(*o),
{
    match o {
        Some(s) => extend_str(md, s.as_str()),
        None => extend_str(md, "-"),
    }
}

pub fn ticket_markdown(t: &Ticket) -> (r: String)
    ensures
        r@ == ticket_markdown_spec(*t),
{
    let mut md = chars("# ");
    extend_str(&mut md, t.title.as_str());
    extend_str(&mut md, "\n\n**Codigo:** ");
    extend_str(&mut md, t.code.as_str());
    extend_str(&mut md, "\n**Host:** ");
    push_or_dash(&mut md, &t.hostname_snapshot);
    extend_str(&mut md, "\n**Responsavel:** ");
    push_or_dash(&mut md, &t.owner_name_snapshot);
    extend_str(&mut md, "\n**Status:** ");
    extend_str(&mut md, t.status.as_str());
    extend_str(&mut md, "\n**Prioridade:** ");
    extend_str(&mut md, t.priority.as_str());
    extend_str(&mut md, "\n**Assignee:** ");
    push_or_dash(&mut md, &t.assignee);
    extend_str(&mut md, "\n**Aberto:** ");
    extend_str(&mut md, t.created_at.as_str());
    extend_str(&mut md, "\n**Atualizado:** ");
    extend_str(&mut md, t.updated_at.as_str());
    extend_str(&mut md, "\n**Fechado:** ");
    push_or_dash(&mut md, &t.closed_at);
    extend_str(&mut md, "\n**Resolucao:** ");
    push_or_dash(&mut md, &t.resolution);
    extend_str(&mut md, "\n**Avaliacao:** ");
    match t.rating {
        Some(r) => {
            let d = fmt_i64(r as i64);
            extend(&mut md, &d);
        },
        None => extend_str(&mut md, "-"),
    }
    extend_str(&mut md, "\n\n");
    match &t.description {
        Some(d) => extend_str(&mut md, d.as_str()),
        None => {},
    }
    extend_str(&mut md, "\n");
    proof {
        reveal_strlit("");
    }
    assert(md@ =~= ticket_markdown_spec(*t));
    to_string(&md)
}

/// The `meta.json` of a ticket: its fields, the folder (`dir`) where the ticket has
/// none, the duration, and how many attachments and comments it has.
pub open spec fn meta_matches(m: NasTicketMeta, t: Ticket, dir: Seq<char>, duration: Option<i64>) -> bool {
    &&& m.code@ == t.code@
    &&& m.machine_id@ == t.machine_id@
    &&& ostr(m.hostname_snapshot) == ostr(t.hostname_snapshot)
    &&& ostr(m.owner_name_snapshot) == ostr(t.owner_name_snapshot)
    &&& m.title@ == t.title@
    &&& ostr(m.description) == ostr(t.description)
    &&& m.status@ == t.status@
    &&& m.priority@ == t.priority@
    &&& ostr(m.created_by) == ostr(t.created_by)
    &&& ostr(m.assignee) == ostr(t.assignee)
    &&& m.created_at@ == t.created_at@
    &&& ostr(m.updated_at) == Some(t.updated_at@)
    &&& ostr(m.closed_at) == ostr(t.closed_at)
    &&& m.rating == t.rating
    &&& ostr(m.rating_comment) == ostr(t.rating_comment)
    &&& m.reopen_pending == t.reopen_pending
    &&& ostr(m.reopen_reason) == ostr(t.reopen_reason)
    &&& ostr(m.reopen_requested_at) == ostr(t.reopen_requested_at)
    &&& ostr(m.last_reopen_reason) == ostr(t.last_reopen_reason)
    &&& ostr(m.resolution) == ostr(t.resolution)
    &&& ostr(m.nas_path) == Some(
        match t.nas_path {
            Some(p) => p@,
            None => dir,
        },
    )
    &&& m.duration_min == duration
    &&& m.attachments_count == Some(t.attachments@.len() as usize)
    &&& m.comments_count == Some(t.comments@.len() as usize)
}

pub fn ticket_meta(t: &Ticket, dir: &str, duration: Option<i64>) -> (r: NasTicketMeta)
    ensures
        meta_matches(r, *t, dir@, duration),
{
    NasTicketMeta {
        code: t.code.clone(),
        machine_id: t.machine_id.clone(),
        hostname_snapshot: copy_opt(&t.hostname_snapshot),
        owner_name_snapshot: copy_opt(&t.owner_name_snapshot),
        title: t.title.clone(),
        description: copy_opt(&t.description),
        status: t.status.clone(),
        priority: t.priority.clone(),
        created_by: copy_opt(&t.created_by),
        assignee: copy_opt(&t.assignee),
        created_at: t.created_at.clone(),
        updated_at: Some(t.updated_at.clone()),
        closed_at: copy_opt(&t.closed_at),
        rating: t.rating,
        rating_comment: copy_opt(&t.rating_comment),
        reopen_pending: t.reopen_pending,
        reopen_reason: copy_opt(&t.reopen_reason),
        reopen_requested_at: copy_opt(&t.reopen_requested_at),
        last_reopen_reason: copy_opt(&t.last_reopen_reason),
        resolution: copy_opt(&t.resolution),
        nas_path: Some(
            match &t.nas_path {
                Some(p) => p.clone(),
                None => dir.to_owned(),
            },
        ),
        duration_min: duration,
        attachments_count: Some(t.attachments.len()),
        comments_count: Some(t.comments.len()),
    }
}

/// The outcome of creating a ticket's folder on the NAS, with a failure explained as
/// the NAS being out of the server's reach.
pub fn provision_ticket_folder(nas_outcome: Result<String, String>) -> (r: Result<String, String>)
    ensures
        match nas_outcome {
            Ok(d) => r matches Ok(x) && x@ == d@,
            Err(e) => r matches Err(m) && m@ == "NAS indisponivel para o servidor (use sync usuario / Belarc Chamado): "@ + e@,
        },
{
    match nas_outcome {
        Ok(d) => Ok(d),
        Err(e) => {
            let mut m = chars("NAS indisponivel para o servidor (use sync usuario / Belarc Chamado): ");
            extend_str(&mut m, e.as_str());
            Err(to_string(&m))
        },
    }
}

// ---------------------------------------------------------------------------
// Where a ticket's files are
// ---------------------------------------------------------------------------

/// The ticket's folder under the tickets root: `root\CODE`.
pub fn unc_ticket_dir(chamados_root: &str, code: &str) -> (r: String)
    ensures
        r@ == win_join(chamados_root@, code@),
{
    let a = chars(chamados_root);
    let b = chars(code);
    to_string(&win_join_v(&a, &b))
}

fn join_str(base: &Vec<char>, part: &str) -> (r: Vec<char>)
    ensures
        r@ == win_join(base@, part@),
{
    let p = chars(part);
    win_join_v(base, &p)
}

/// The file name a stored attachment name stands for: its last component, else the
/// name itself.
pub open spec fn attachment_leaf(stored: Seq<char>) -> Seq<char> {
    match file_name(stored) {
        Some(n) => if n.len() > 0 {
            n
        } else {
            stored
        },
        None => stored,
    }
}

/// The attachment's path on the NAS: `\\FILE-SHARE\Portal\Chamados\CODE\attachments\NAME`.
pub open spec fn nas_attachment_spec(code: Seq<char>, stored: Seq<char>) -> Seq<char> {
    win_join(win_join(win_join(DEFAULT_CHAMADOS_ROOT@, code), "attachments"@), attachment_leaf(stored))
}

pub fn nas_attachment_unc(ticket: &Ticket, stored_name: &str) -> (r: String)
    ensures
        r@ == nas_attachment_spec(ticket.code@, stored_name@),
{
    let st = chars(stored_name);
    let name = match file_name_v(&st) {
        Some(n) => if n.len() > 0 {
            n
        } else {
            st
        },
        None => st,
    };
    let root = chars(DEFAULT_CHAMADOS_ROOT);
    let d = join_str(&root, ticket.code.as_str());
    let a = join_str(&d, "attachments");
    to_string(&win_join_v(&a, &name))
}

pub open spec fn slashes_to_backslashes(s: Seq<char>) -> Seq<char> {
    s.map_values(|c: char| if c == '/' { '\\' } else { c })
}

/// A stored folder that is on the NAS: it starts with `\\` (either slash) and is not
/// the server's local mirror (`chamados-files`).
pub open spec fn nas_folder(p: Seq<char>) -> bool {
    let s = slashes_to_backslashes(p);
    !crate::text::contains(ascii_lower(s), "chamados-files"@) && crate::text::starts_with(s, "\\\\"@)
}

/// The ticket's folder to show: its stored folder when that is on the NAS, else the
/// canonical one under the root.
pub open spec fn prefer_unc_spec(root: Seq<char>, t: Ticket) -> Seq<char> {
    match t.nas_path {
        Some(p) => if nas_folder(p@) {
            p@
        } else {
            win_join(root, t.code@)
        },
        None => win_join(root, t.code@),
    }
}

fn backslashed(p: &str) -> (r: Vec<char>)
    ensures
        r@ == slashes_to_backslashes(p@),
{
    let v = chars(p);
    let mut r: Vec<char> = Vec::new();
    let mut i: usize = 0;
    while i < v.len()
        invariant
            i <= v@.len(),
            r@ == slashes_to_backslashes(v@.take(i as int)),
        decreases v@.len() - i,
    {
        r.push(if v[i] == '/' { '\\' } else { v[i] });
        i = i + 1;
        assert(r@ =~= slashes_to_backslashes(v@.take(i as int)));
    }
    assert(v@.take(v@.len() as int) =~= v@);
    r
}

fn nas_folder_v(p: &str) -> (r: bool)
    ensures
        r == nas_folder(p@),
{
    let s = backslashed(p);
    let l = lower_v(&s);
    let cf = chars("chamados-files");
    let unc = chars("\\\\");
    !crate::text::contains_v(&l, &cf) && crate::text::starts_with_v(&s, &unc)
}

pub fn prefer_unc_path(chamados_root: &str, ticket: &Ticket) -> (r: String)
    ensures
        r@ == prefer_unc_spec(chamados_root@, *ticket),
{
    if let Some(p) = &ticket.nas_path {
        if nas_folder_v(p.as_str()) {
            return p.clone();
        }
    }
    unc_ticket_dir(chamados_root, ticket.code.as_str())
}

/// Appends a path unless an equal one (component by component) is there.
pub open spec fn push_unique(list: Seq<Seq<char>>, p: Seq<char>) -> Seq<Seq<char>> {
    if exists|i: int| 0 <= i < list.len() && path_eq(#[trigger] list[i], p) {
        list
    } else {
        list.push(p)
    }
}

/// `l0` with the ticket's stored folder appended, when that starts with `\\` and no
/// equal folder is there yet.
pub open spec fn with_stored_unc(l0: Seq<Seq<char>>, t: Ticket) -> Seq<Seq<char>> {
    match t.nas_path {
        Some(p) => if crate::text::starts_with(slashes_to_backslashes(p@), "\\\\"@) {
            push_unique(l0, p@)
        } else {
            l0
        },
        None => l0,
    }
}

/// The ticket's folders on the NAS, each appended to `l0` unless already there: its
/// stored folder when that starts with `\\`, the preferred one, and the ticket
/// under each known NAS root.
pub open spec fn nas_roots_after(l0: Seq<Seq<char>>, root: Seq<char>, t: Ticket) -> Seq<Seq<char>> {
    let l1 = with_stored_unc(l0, t);
    let l2 = push_unique(l1, prefer_unc_spec(root, t));
    let l3 = push_unique(l2, win_join(DEFAULT_CHAMADOS_ROOT@, t.code@));
    let l4 = push_unique(l3, win_join("\\\\192.0.2.11\\Portal\\Chamados"@, t.code@));
    push_unique(l4, win_join(FALLBACK_CHAMADOS_ROOT@, t.code@))
}

/// The ticket's folders to look for files in, NAS first: its stored folder when that
/// starts with `\\`, the preferred one, the ticket under each known NAS root, and last
/// the server's local mirror (`local_root`); each once.
pub open spec fn root_candidates_spec(root: Seq<char>, t: Ticket, local_root: Seq<char>) -> Seq<Seq<char>> {
    push_unique(nas_roots_after(Seq::empty(), root, t), win_join(local_root, t.code@))
}

/// The folders an attachment file is looked for in: the server's local mirror
/// first, then the ticket's NAS folders (UNC name and IP), each once.
pub open spec fn file_roots_spec(root: Seq<char>, t: Ticket, local_root: Seq<char>) -> Seq<Seq<char>> {
    nas_roots_after(seq![win_join(local_root, t.code@)], root, t)
}

fn push_unique_v(list: &mut Vec<Vec<char>>, p: Vec<char>)
    ensures
        crate::text::vviews(final(list)@) == push_unique(crate::text::vviews(old(list)@), p@),
{
    let ghost lv = crate::text::vviews(list@);
    let mut i: usize = 0;
    while i < list.len()
        invariant
            i <= list@.len(),
            *list == *old(list),
            lv == crate::text::vviews(list@),
            forall|j: int| 0 <= j < i ==> !path_eq(#[trigger] lv[j], p@),
        decreases list@.len() - i,
    {
        assert(lv[i as int] == list@[i as int]@);
        if path_eq_v(&list[i], &p) {
            return;
        }
        i = i + 1;
    }
    list.push(p);
    assert(crate::text::vviews(list@) =~= lv.push(p@));
}

fn push_nas_roots(roots: &mut Vec<Vec<char>>, chamados_root: &str, ticket: &Ticket)
    ensures
        crate::text::vviews(final(roots)@) == nas_roots_after(crate::text::vviews(old(roots)@), chamados_root@, *ticket),
{
    if let Some(p) = &ticket.nas_path {
        let s = backslashed(p.as_str());
        let unc = chars("\\\\");
        if crate::text::starts_with_v(&s, &unc) {
            push_unique_v(roots, chars(p.as_str()));
        }
    }
    let pref = prefer_unc_path(chamados_root, ticket);
    push_unique_v(roots, chars(pref.as_str()));
    let r1 = chars(DEFAULT_CHAMADOS_ROOT);
    push_unique_v(roots, join_str(&r1, ticket.code.as_str()));
    let r2 = chars("\\\\192.0.2.11\\Portal\\Chamados");
    push_unique_v(roots, join_str(&r2, ticket.code.as_str()));
    let r3 = chars(FALLBACK_CHAMADOS_ROOT);
    push_unique_v(roots, join_str(&r3, ticket.code.as_str()));
}

fn to_strings(roots: &Vec<Vec<char>>) -> (out: Vec<String>)
    ensures
        views(out@) == crate::text::vviews(roots@),
{
    let mut out: Vec<String> = Vec::new();
    let mut i: usize = 0;
    let ghost rv = crate::text::vviews(roots@);
    while i < roots.len()
        invariant
            i <= roots@.len(),
            rv == crate::text::vviews(roots@),
            out@.len() == i,
            views(out@) == rv.take(i as int),
        decreases roots@.len() - i,
    {
        let ghost o0 = out@;
        out.push(to_string(&roots[i]));
        i = i + 1;
        assert forall|k: int| 0 <= k < i implies #[trigger] views(out@)[k] == rv.take(i as int)[k] by {
            if k < i - 1 {
                assert(out@[k] == o0[k]);
                assert(views(o0)[k] == rv[k]);
            }
        }
        assert(views(out@) =~= rv.take(i as int));
    }
    assert(rv.take(rv.len() as int) =~= rv);
    out
}

pub fn attachment_root_candidates(chamados_root: &str, ticket: &Ticket, local_root: &str) -> (r: Vec<String>)
    ensures
        views(r@) == root_candidates_spec(chamados_root@, *ticket, local_root@),
{
    let mut roots: Vec<Vec<char>> = Vec::new();
    assert(crate::text::vviews(roots@) =~= Seq::<Seq<char>>::empty());
    push_nas_roots(&mut roots, chamados_root, ticket);
    let r4 = chars(local_root);
    push_unique_v(&mut roots, join_str(&r4, ticket.code.as_str()));
    to_strings(&roots)
}

/// The folders an attachment file is looked for in (see [`file_roots_spec`]).
pub fn attachment_file_roots(chamados_root: &str, ticket: &Ticket, local_root: &str) -> (r: Vec<String>)
    ensures
        views(r@) == file_roots_spec(chamados_root@, *ticket, local_root@),
{
    let r4 = chars(local_root);
    let mut roots: Vec<Vec<char>> = Vec::new();
    roots.push(join_str(&r4, ticket.code.as_str()));
    assert(crate::text::vviews(roots@) =~= seq![win_join(local_root@, ticket.code@)]);
    push_nas_roots(&mut roots, chamados_root, ticket);
    to_strings(&roots)
}

/// Where an attachment may be: `attachments\NAME` under each of its folders, the
/// local mirror first, then the NAS UNC and IP folders.
pub open spec fn file_candidates_spec(root: Seq<char>, t: Ticket, stored: Seq<char>, local_root: Seq<char>) -> Seq<Seq<char>> {
    file_roots_spec(root, t, local_root).map_values(|r: Seq<char>| win_join(win_join(r, "attachments"@), stored))
}

pub fn attachment_file_candidates(chamados_root: &str, ticket: &Ticket, stored_name: &str, local_root: &str) -> (r: Vec<String>)
    ensures
        views(r@) == file_candidates_spec(chamados_root@, *ticket, stored_name@, local_root@),
{
    let roots = attachment_file_roots(chamados_root, ticket, local_root);
    let ghost rv = views(roots@);
    let st = chars(stored_name);
    let mut out: Vec<String> = Vec::new();
    let mut i: usize = 0;
    while i < roots.len()
        invariant
            i <= roots@.len(),
            rv == views(roots@),
            st@ == stored_name@,
            out@.len() == i,
            views(out@) == rv.take(i as int).map_values(|r: Seq<char>| win_join(win_join(r, "attachments"@), stored_name@)),
        decreases roots@.len() - i,
    {
        let r = chars(roots[i].as_str());
        let a = join_str(&r, "attachments");
        let f = win_join_v(&a, &st);
        let ghost o0 = out@;
        out.push(to_string(&f));
        i = i + 1;
        assert forall|k: int| 0 <= k < i implies #[trigger] views(out@)[k] == rv.take(i as int).map_values(|r: Seq<char>| win_join(win_join(r, "attachments"@), stored_name@))[k] by {
            if k < i - 1 {
                assert(out@[k] == o0[k]);
                assert(views(o0)[k] == o0[k]@);
            }
        }
        assert(views(out@) =~= rv.take(i as int).map_values(|r: Seq<char>| win_join(win_join(r, "attachments"@), stored_name@)));
    }
    assert(rv.take(rv.len() as int) =~= rv);
    out
}

proof fn lemma_digits_of(n: nat)
    ensures
        crate::text::all_digits(nat_digits(n)),
        crate::text::digits_value(nat_digits(n)) == n,
        nat_digits(n).len() > 0,
    decreases n,
{
    assert((crate::text::digit_char(n % 10) as u32) == 48 + n % 10);
    if n < 10 {
        let d = nat_digits(n);
        assert(d.drop_last() =~= Seq::<char>::empty());
        assert(crate::text::digits_value(d) == crate::text::digits_value(d.drop_last()) * 10 + ((d.last() as u32) - ('0' as u32)) as nat);
    }
    if n >= 10 {
        lemma_digits_of(n / 10);
        let d = nat_digits(n);
        assert(d.drop_last() =~= nat_digits(n / 10));
        assert(d.last() == crate::text::digit_char(n % 10));
        assert(crate::text::digits_value(d) == crate::text::digits_value(d.drop_last()) * 10 + ((d.last() as u32) - ('0' as u32)) as nat);
        assert((n / 10) * 10 + n % 10 == n);
        assert forall|i: int| 0 <= i < d.len() implies crate::text::is_ascii_digit(#[trigger] d[i]) by {
            if i < d.len() - 1 {
                assert(d[i] == nat_digits(n / 10)[i]);
            }
        }
    }
}

proof fn lemma_zero_prefix(d: Seq<char>)
    ensures
        crate::text::digits_value(seq!['0'] + d) == crate::text::digits_value(d),
    decreases d.len(),
{
    if d.len() > 0 {
        lemma_zero_prefix(d.drop_last());
        assert((seq!['0'] + d).drop_last() =~= seq!['0'] + d.drop_last());
        assert((seq!['0'] + d).last() == d.last());
        assert(crate::text::digits_value(seq!['0'] + d) == crate::text::digits_value((seq!['0'] + d).drop_last()) * 10
            + (((seq!['0'] + d).last() as u32) - ('0' as u32)) as nat);
        assert(crate::text::digits_value(d) == crate::text::digits_value(d.drop_last()) * 10 + ((d.last() as u32) - ('0' as u32)) as nat);
    } else {
        assert((seq!['0'] + d).drop_last() =~= Seq::<char>::empty());
        assert((seq!['0'] + d).last() == '0');
        assert(crate::text::digits_value(seq!['0'] + d) == crate::text::digits_value((seq!['0'] + d).drop_last()) * 10
            + (((seq!['0'] + d).last() as u32) - ('0' as u32)) as nat);
    }
}

proof fn lemma_pad3(n: nat)
    ensures
        crate::text::all_digits(pad3(n)),
        crate::text::digits_value(pad3(n)) == n,
        pad3(n).len() > 0,
{
    lemma_digits_of(n);
    let d = nat_digits(n);
    if d.len() == 2 {
        lemma_zero_prefix(d);
        assert forall|i: int| 0 <= i < pad3(n).len() implies crate::text::is_ascii_digit(#[trigger] pad3(n)[i]) by {
            if i > 0 {
                assert(pad3(n)[i] == d[i - 1]);
            }
        }
    } else if d.len() < 2 {
        lemma_zero_prefix(d);
        lemma_zero_prefix(seq!['0'] + d);
        assert(seq!['0', '0'] + d =~= seq!['0'] + (seq!['0'] + d));
        assert forall|i: int| 0 <= i < pad3(n).len() implies crate::text::is_ascii_digit(#[trigger] pad3(n)[i]) by {
            if i > 1 {
                assert(pad3(n)[i] == d[i - 2]);
            }
        }
    }
}

proof fn lemma_max_code_number(codes: Seq<Seq<char>>, prefix: Seq<char>, i: int)
    requires
        0 <= i < codes.len(),
        code_number(codes[i], prefix) is Some,
    ensures
        code_number(codes[i], prefix)->0 <= max_code_number(codes, prefix),
    decreases codes.len(),
{
    if i < codes.len() - 1 {
        assert(codes.drop_last()[i] == codes[i]);
        lemma_max_code_number(codes.drop_last(), prefix, i);
    }
}

/// A new ticket code is never one already taken: the next code of a day is above
/// every code of that day.
pub proof fn law_ticket_code_is_new(day: Seq<char>, codes: Seq<Seq<char>>)
    requires
        next_code_spec(day, codes) is Some,
    ensures
        !codes.contains(next_code_spec(day, codes)->0),
{
    let p = code_prefix(day);
    let m = max_code_number(codes, p);
    let c = next_code_spec(day, codes)->0;
    lemma_pad3((m + 1) as nat);
    if codes.contains(c) {
        let i = choose|i: int| 0 <= i < codes.len() && codes[i] == c;
        assert(c.take(p.len() as int) =~= p);
        assert(c.skip(p.len() as int) =~= pad3((m + 1) as nat));
        assert(crate::text::starts_with(c, p));
        assert(code_number(c, p) == Some((m + 1) as nat));
        lemma_max_code_number(codes, p, i);
    }
}

/// A stored attachment name stays inside the ticket's folder: it is never empty and
/// holds no path separator.
pub proof fn law_safe_name_stays_in_folder(name: Seq<char>)
    ensures
        sanitize_spec(name).len() > 0,
        !sanitize_spec(name).contains('/'),
        !sanitize_spec(name).contains('\\'),
{
    let base = name.skip(rfind_slash(name) + 1).map_values(|c: char| safe_char(c));
    if base.len() == 0 {
        reveal_strlit("anexo.bin");
        assert(!"anexo.bin"@.contains('/'));
        assert(!"anexo.bin"@.contains('\\'));
    } else {
        assert forall|i: int| 0 <= i < base.len() implies base[i] != '/' && base[i] != '\\' by {
            assert(base[i] == safe_char(name.skip(rfind_slash(name) + 1)[i]));
        }
    }
}


/// No folder of the list equals (component by component) an earlier one.
pub open spec fn distinct_paths(l: Seq<Seq<char>>) -> bool {
    forall|i: int, j: int| 0 <= i < j < l.len() ==> !path_eq(#[trigger] l[i], #[trigger] l[j])
}

/// A folder of the list equals `p` component by component.
pub open spec fn has_path(l: Seq<Seq<char>>, p: Seq<char>) -> bool {
    exists|i: int| 0 <= i < l.len() && #[trigger] path_eq(l[i], p)
}

proof fn lemma_push_unique(l: Seq<Seq<char>>, p: Seq<char>)
    ensures
        distinct_paths(l) ==> distinct_paths(push_unique(l, p)),
        has_path(push_unique(l, p), p),
        l.len() <= push_unique(l, p).len() <= l.len() + 1,
        forall|i: int| 0 <= i < l.len() ==> #[trigger] push_unique(l, p)[i] == l[i],
        !has_path(l, p) ==> push_unique(l, p) == l.push(p),
{
    let r = push_unique(l, p);
    if exists|i: int| 0 <= i < l.len() && path_eq(#[trigger] l[i], p) {
        assert(r == l);
    } else {
        assert(r == l.push(p));
        assert(path_eq(r[l.len() as int], p));
        if distinct_paths(l) {
            assert forall|i: int, j: int| 0 <= i < j < r.len() implies !path_eq(#[trigger] r[i], #[trigger] r[j]) by {
                if j == l.len() {
                    assert(r[i] == l[i]);
                    assert(!path_eq(l[i], p));
                } else {
                    assert(r[i] == l[i] && r[j] == l[j]);
                }
            }
        }
    }
}

/// A list that extends another keeps every folder the other has.
proof fn lemma_prefix_keeps(l: Seq<Seq<char>>, r: Seq<Seq<char>>, q: Seq<char>)
    requires
        l.len() <= r.len(),
        forall|i: int| 0 <= i < l.len() ==> #[trigger] r[i] == l[i],
        has_path(l, q),
    ensures
        has_path(r, q),
{
    let i = choose|i: int| 0 <= i < l.len() && #[trigger] path_eq(l[i], q);
    assert(r[i] == l[i]);
}

/// The folders that [`nas_roots_after`] appends, in order.
spec fn nas_alternates(root: Seq<char>, t: Ticket) -> Seq<Seq<char>> {
    seq![
        prefer_unc_spec(root, t),
        win_join(DEFAULT_CHAMADOS_ROOT@, t.code@),
        win_join("\\\\192.0.2.11\\Portal\\Chamados"@, t.code@),
        win_join(FALLBACK_CHAMADOS_ROOT@, t.code@),
    ]
}

proof fn lemma_nas_roots_after(l0: Seq<Seq<char>>, root: Seq<char>, t: Ticket)
    ensures
        distinct_paths(l0) ==> distinct_paths(nas_roots_after(l0, root, t)),
        has_path(nas_roots_after(l0, root, t), prefer_unc_spec(root, t)),
        l0.len() <= nas_roots_after(l0, root, t).len() <= l0.len() + 5,
        forall|i: int| 0 <= i < l0.len() ==> #[trigger] nas_roots_after(l0, root, t)[i] == l0[i],
        l0.len() == 0 && (t.nas_path matches Some(p) && crate::text::starts_with(slashes_to_backslashes(p@), "\\\\"@))
            ==> nas_roots_after(l0, root, t)[0] == t.nas_path.unwrap()@,
{
    let alt = nas_alternates(root, t);
    assert(alt[0] == prefer_unc_spec(root, t));
    assert(alt[1] == win_join(DEFAULT_CHAMADOS_ROOT@, t.code@));
    assert(alt[2] == win_join("\\\\192.0.2.11\\Portal\\Chamados"@, t.code@));
    assert(alt[3] == win_join(FALLBACK_CHAMADOS_ROOT@, t.code@));
    let l1 = with_stored_unc(l0, t);
    if let Some(p) = t.nas_path {
        lemma_push_unique(l0, p@);
        if l0.len() == 0 {
            assert(!has_path(l0, p@));
        }
    }
    let l2 = push_unique(l1, alt[0]);
    lemma_push_unique(l1, alt[0]);
    let l3 = push_unique(l2, alt[1]);
    lemma_push_unique(l2, alt[1]);
    let l4 = push_unique(l3, alt[2]);
    lemma_push_unique(l3, alt[2]);
    let l5 = push_unique(l4, alt[3]);
    lemma_push_unique(l4, alt[3]);
    assert(nas_roots_after(l0, root, t) == l5);
    lemma_prefix_keeps(l2, l3, alt[0]);
    lemma_prefix_keeps(l3, l4, alt[0]);
    lemma_prefix_keeps(l4, l5, alt[0]);
    assert forall|i: int| 0 <= i < l0.len() implies #[trigger] l5[i] == l0[i] by {
        assert(l1[i] == l0[i]);
        assert(l2[i] == l1[i]);
        assert(l3[i] == l2[i]);
        assert(l4[i] == l3[i]);
    }
}

/// The ticket's folders are each listed once (no folder equals an earlier one), the
/// preferred folder and the local mirror are among them, a stored UNC folder comes
/// first, the local mirror comes last unless an equal folder came before it, and there
/// are at most six.
pub proof fn law_root_candidates_each_once(root: Seq<char>, t: Ticket, local_root: Seq<char>)
    ensures
        distinct_paths(root_candidates_spec(root, t, local_root)),
        has_path(root_candidates_spec(root, t, local_root), prefer_unc_spec(root, t)),
        has_path(root_candidates_spec(root, t, local_root), win_join(local_root, t.code@)),
        !has_path(nas_roots_after(Seq::empty(), root, t), win_join(local_root, t.code@))
            ==> root_candidates_spec(root, t, local_root).last() == win_join(local_root, t.code@),
        t.nas_path matches Some(p) && crate::text::starts_with(slashes_to_backslashes(p@), "\\\\"@)
            ==> root_candidates_spec(root, t, local_root)[0] == t.nas_path.unwrap()@,
        root_candidates_spec(root, t, local_root).len() <= 6,
{
    let e = Seq::<Seq<char>>::empty();
    let n = nas_roots_after(e, root, t);
    lemma_nas_roots_after(e, root, t);
    lemma_push_unique(n, win_join(local_root, t.code@));
    lemma_prefix_keeps(n, push_unique(n, win_join(local_root, t.code@)), prefer_unc_spec(root, t));
}

/// An attachment's folders are each listed once, the local mirror first and the
/// preferred NAS folder among the rest.
pub proof fn law_file_roots_local_first(root: Seq<char>, t: Ticket, local_root: Seq<char>)
    ensures
        distinct_paths(file_roots_spec(root, t, local_root)),
        file_roots_spec(root, t, local_root)[0] == win_join(local_root, t.code@),
        has_path(file_roots_spec(root, t, local_root), prefer_unc_spec(root, t)),
        1 <= file_roots_spec(root, t, local_root).len() <= 6,
{
    let l0 = seq![win_join(local_root, t.code@)];
    lemma_nas_roots_after(l0, root, t);
}


/// An attachment's NAS path depends on its ticket only through the ticket's code (the
/// folder stored on the ticket never moves it) and names the file by the last
/// component of the stored name, or the stored name itself where that has none.
pub proof fn law_nas_attachment_by_code(t1: Ticket, t2: Ticket, stored: Seq<char>)
    requires
        t1.code@ == t2.code@,
    ensures
        nas_attachment_spec(t1.code@, stored) == nas_attachment_spec(t2.code@, stored),
        nas_attachment_spec(t1.code@, stored) == win_join(
            win_join(win_join(DEFAULT_CHAMADOS_ROOT@, t1.code@), "attachments"@),
            attachment_leaf(stored),
        ),
{
}

/// The list without the folders equal (component by component) to `p`.
pub open spec fn without_path(l: Seq<Seq<char>>, p: Seq<char>) -> Seq<Seq<char>>
    decreases l.len(),
{
    if l.len() == 0 {
        l
    } else if path_eq(l.last(), p) {
        without_path(l.drop_last(), p)
    } else {
        without_path(l.drop_last(), p).push(l.last())
    }
}

proof fn lemma_without_members(l: Seq<Seq<char>>, p: Seq<char>)
    ensures
        without_path(l, p).len() <= l.len(),
        forall|k: int| 0 <= k < without_path(l, p).len() ==> l.contains(#[trigger] without_path(l, p)[k]) && !path_eq(without_path(l, p)[k], p),
        forall|k: int| 0 <= k < l.len() && !path_eq(#[trigger] l[k], p) ==> without_path(l, p).contains(l[k]),
    decreases l.len(),
{
    if l.len() > 0 {
        let d = l.drop_last();
        lemma_without_members(d, p);
        let w = without_path(l, p);
        let wd = without_path(d, p);
        assert forall|k: int| 0 <= k < w.len() implies l.contains(#[trigger] w[k]) && !path_eq(w[k], p) by {
            if k < wd.len() {
                assert(w[k] == wd[k]);
                let j = choose|j: int| 0 <= j < d.len() && d[j] == wd[k];
                assert(l[j] == d[j]);
            } else {
                assert(w[k] == l.last());
                assert(l[l.len() - 1] == l.last());
            }
        }
        assert forall|k: int| 0 <= k < l.len() && !path_eq(#[trigger] l[k], p) implies w.contains(l[k]) by {
            if k < d.len() {
                assert(d[k] == l[k]);
                let j = choose|j: int| 0 <= j < wd.len() && wd[j] == d[k];
                assert(w[j] == wd[j]);
            } else {
                assert(w[w.len() - 1] == l[k]);
            }
        }
    }
}

/// With the local folder `lp` put first, keeping one folder per path commutes with
/// leaving out the folders equal to `lp`.
proof fn lemma_push_unique_local_first(l: Seq<Seq<char>>, x: Seq<char>, lp: Seq<char>)
    ensures
        push_unique(seq![lp] + without_path(l, lp), x) == seq![lp] + without_path(push_unique(l, x), lp),
{
    let g = seq![lp] + without_path(l, lp);
    lemma_without_members(l, lp);
    assert(g[0] == lp);
    if has_path(l, x) {
        assert(push_unique(l, x) == l);
        let q = choose|q: int| 0 <= q < l.len() && #[trigger] path_eq(l[q], x);
        if path_eq(l[q], lp) {
            assert(path_eq(g[0], x));
        } else {
            let j = choose|j: int| 0 <= j < without_path(l, lp).len() && without_path(l, lp)[j] == l[q];
            assert(g[j + 1] == without_path(l, lp)[j]);
            assert(path_eq(g[j + 1], x));
        }
        assert(push_unique(g, x) == g);
    } else {
        lemma_push_unique(l, x);
        assert(push_unique(l, x) == l.push(x));
        assert(l.push(x).drop_last() =~= l);
        if path_eq(x, lp) {
            assert(path_eq(g[0], x));
            assert(push_unique(g, x) == g);
            assert(without_path(l.push(x), lp) == without_path(l, lp));
        } else {
            assert forall|i: int| 0 <= i < g.len() implies !path_eq(#[trigger] g[i], x) by {
                if i > 0 {
                    assert(g[i] == without_path(l, lp)[i - 1]);
                    let j = choose|j: int| 0 <= j < l.len() && l[j] == without_path(l, lp)[i - 1];
                }
            }
            assert(push_unique(g, x) == g.push(x));
            assert(without_path(l.push(x), lp) == without_path(l, lp).push(x));
            assert(g.push(x) =~= seq![lp] + without_path(l, lp).push(x));
        }
    }
}

proof fn lemma_nas_roots_local_first(root: Seq<char>, t: Ticket, lp: Seq<char>)
    ensures
        nas_roots_after(seq![lp], root, t) == seq![lp] + without_path(nas_roots_after(Seq::empty(), root, t), lp),
{
    let e = Seq::<Seq<char>>::empty();
    assert(seq![lp] + without_path(e, lp) =~= seq![lp]);
    let l1 = with_stored_unc(e, t);
    if let Some(p) = t.nas_path {
        lemma_push_unique_local_first(e, p@, lp);
    }
    assert(with_stored_unc(seq![lp], t) == seq![lp] + without_path(l1, lp));
    let a0 = prefer_unc_spec(root, t);
    let a1 = win_join(DEFAULT_CHAMADOS_ROOT@, t.code@);
    let a2 = win_join("\\\\192.0.2.11\\Portal\\Chamados"@, t.code@);
    let a3 = win_join(FALLBACK_CHAMADOS_ROOT@, t.code@);
    let l2 = push_unique(l1, a0);
    let l3 = push_unique(l2, a1);
    let l4 = push_unique(l3, a2);
    lemma_push_unique_local_first(l1, a0, lp);
    lemma_push_unique_local_first(l2, a1, lp);
    lemma_push_unique_local_first(l3, a2, lp);
    lemma_push_unique_local_first(l4, a3, lp);
}

proof fn lemma_without_len(l: Seq<Seq<char>>, p: Seq<char>)
    requires
        distinct_paths(l),
    ensures
        has_path(l, p) ==> without_path(l, p).len() + 1 == l.len(),
        !has_path(l, p) ==> without_path(l, p) == l,
    decreases l.len(),
{
    if l.len() > 0 {
        let d = l.drop_last();
        assert forall|i: int, j: int| 0 <= i < j < d.len() implies !path_eq(#[trigger] d[i], #[trigger] d[j]) by {
            assert(d[i] == l[i] && d[j] == l[j]);
        }
        lemma_without_len(d, p);
        if path_eq(l.last(), p) {
            assert(path_eq(l[l.len() - 1], p));
            assert(!has_path(d, p)) by {
                if has_path(d, p) {
                    let i = choose|i: int| 0 <= i < d.len() && #[trigger] path_eq(d[i], p);
                    assert(d[i] == l[i]);
                    assert(path_eq(l[i], l[l.len() - 1]));
                }
            }
        } else {
            if has_path(l, p) {
                let i = choose|i: int| 0 <= i < l.len() && #[trigger] path_eq(l[i], p);
                assert(i < d.len());
                assert(d[i] == l[i]);
                assert(has_path(d, p));
            } else {
                assert(!has_path(d, p)) by {
                    if has_path(d, p) {
                        let i = choose|i: int| 0 <= i < d.len() && #[trigger] path_eq(d[i], p);
                        assert(d[i] == l[i]);
                    }
                }
                assert(d.push(l.last()) =~= l);
            }
        }
    }
}

/// An attachment's file candidates are the local mirror's first, then one under each
/// of the ticket's other root candidates, in the same order, and there are as many
/// file candidates as root candidates.
pub proof fn law_file_candidates_follow_root_candidates(
    root: Seq<char>,
    t: Ticket,
    stored: Seq<char>,
    local_root: Seq<char>,
)
    ensures
        file_roots_spec(root, t, local_root) == seq![win_join(local_root, t.code@)] + without_path(
            root_candidates_spec(root, t, local_root),
            win_join(local_root, t.code@),
        ),
        file_candidates_spec(root, t, stored, local_root).len() == root_candidates_spec(root, t, local_root).len(),
        forall|i: int| 0 <= i < file_candidates_spec(root, t, stored, local_root).len() ==>
            #[trigger] file_candidates_spec(root, t, stored, local_root)[i] == win_join(
                win_join(file_roots_spec(root, t, local_root)[i], "attachments"@),
                stored,
            ),
{
    let lp = win_join(local_root, t.code@);
    let e = Seq::<Seq<char>>::empty();
    let n = nas_roots_after(e, root, t);
    let c = root_candidates_spec(root, t, local_root);
    lemma_nas_roots_local_first(root, t, lp);
    lemma_nas_roots_after(e, root, t);
    lemma_push_unique(n, lp);
    // leaving out the local folder undoes appending it
    if has_path(n, lp) {
        assert(c == n);
    } else {
        assert(c == n.push(lp));
        assert(n.push(lp).drop_last() =~= n);
        assert(without_path(c, lp) == without_path(n, lp));
    }
    lemma_without_len(n, lp);
    law_root_candidates_each_once(root, t, local_root);
    lemma_without_len(c, lp);
    assert(has_path(c, lp));
}


/// What each priority name stands for, read trimmed and in ASCII lower case: `low`
/// and `baixa` are low; `normal`, `media` and `média` are normal; `high`, `alta` and
/// the urgent names `urgent` and `urgente` are high; any other name is none.
pub proof fn law_priority_names(s: Seq<char>)
    ensures
        ({
            let k = crate::text::ascii_lower(crate::text::trim(s));
            &&& (k == "urgent"@ || k == "urgente"@ || k == "high"@ || k == "alta"@) ==> priority_spec(s) == Some("high"@)
            &&& (k == "normal"@ || k == "media"@ || k == "média"@) ==> priority_spec(s) == Some("normal"@)
            &&& (k == "low"@ || k == "baixa"@) ==> priority_spec(s) == Some("low"@)
            &&& !(k == "urgent"@ || k == "urgente"@ || k == "high"@ || k == "alta"@ || k == "normal"@ || k == "media"@
                || k == "média"@ || k == "low"@ || k == "baixa"@) ==> priority_spec(s) is None
        }),
{
    reveal_strlit("urgent");
    reveal_strlit("urgente");
    reveal_strlit("high");
    reveal_strlit("alta");
    reveal_strlit("normal");
    reveal_strlit("media");
    reveal_strlit("média");
    reveal_strlit("low");
    reveal_strlit("baixa");
    assert("urgent"@[0] != "normal"@[0]);
    assert("media"@[0] != "baixa"@[0]);
    assert("média"@[0] != "baixa"@[0]);
    assert("urgent"@.len() == 6 && "urgente"@.len() == 7 && "high"@.len() == 4 && "alta"@.len() == 4);
    assert("normal"@.len() == 6 && "media"@.len() == 5 && "média"@.len() == 5);
    assert("low"@.len() == 3 && "baixa"@.len() == 5);
}


/// What each status name stands for, read trimmed and in ASCII lower case: `open`
/// and `aberto` are open; `in_progress`, `em_andamento` and `andamento` in progress;
/// `waiting` and `aguardando` waiting; `done`, `concluido`, `concluído`, `closed` and
/// `fechado` done; any other name is none.
pub proof fn law_status_names(s: Seq<char>)
    ensures
        ({
            let k = crate::text::ascii_lower(crate::text::trim(s));
            &&& (k == "open"@ || k == "aberto"@) ==> status_spec(s) == Some("open"@)
            &&& (k == "in_progress"@ || k == "em_andamento"@ || k == "andamento"@) ==> status_spec(s) == Some("in_progress"@)
            &&& (k == "waiting"@ || k == "aguardando"@) ==> status_spec(s) == Some("waiting"@)
            &&& (k == "done"@ || k == "concluido"@ || k == "concluído"@ || k == "closed"@ || k == "fechado"@)
                ==> status_spec(s) == Some("done"@)
            &&& !(k == "open"@ || k == "aberto"@ || k == "in_progress"@ || k == "em_andamento"@ || k == "andamento"@
                || k == "waiting"@ || k == "aguardando"@ || k == "done"@ || k == "concluido"@ || k == "concluído"@
                || k == "closed"@ || k == "fechado"@) ==> status_spec(s) is None
        }),
{
    reveal_strlit("open");
    reveal_strlit("aberto");
    reveal_strlit("in_progress");
    reveal_strlit("em_andamento");
    reveal_strlit("andamento");
    reveal_strlit("waiting");
    reveal_strlit("aguardando");
    reveal_strlit("done");
    reveal_strlit("concluido");
    reveal_strlit("concluído");
    reveal_strlit("closed");
    reveal_strlit("fechado");
    assert("open"@[0] != "done"@[0]);
    assert("aberto"@[0] != "closed"@[0]);
    assert("andamento"@[0] != "concluido"@[0]);
    assert("andamento"@[0] != "concluído"@[0]);
    assert("waiting"@[0] != "fechado"@[0]);
    assert("open"@.len() == 4 && "aberto"@.len() == 6 && "in_progress"@.len() == 11);
    assert("em_andamento"@.len() == 12 && "andamento"@.len() == 9 && "waiting"@.len() == 7);
    assert("aguardando"@.len() == 10 && "done"@.len() == 4 && "concluido"@.len() == 9);
    assert("concluído"@.len() == 9 && "closed"@.len() == 6 && "fechado"@.len() == 7);
}

/// What each department name stands for, read trimmed and in ASCII lower case: `ti`,
/// `desenho` and `projeto` themselves, `producao` and `produção` production; any other
/// name is none of the built-in departments.
pub proof fn law_department_names(s: Seq<char>)
    ensures
        ({
            let k = crate::text::ascii_lower(crate::text::trim(s));
            &&& k == "ti"@ ==> department_spec(s) == Some("ti"@)
            &&& k == "desenho"@ ==> department_spec(s) == Some("desenho"@)
            &&& k == "projeto"@ ==> department_spec(s) == Some("projeto"@)
            &&& (k == "producao"@ || k == "produção"@) ==> department_spec(s) == Some("producao"@)
            &&& !(k == "ti"@ || k == "desenho"@ || k == "projeto"@ || k == "producao"@ || k == "produção"@)
                ==> department_spec(s) is None
        }),
{
    reveal_strlit("ti");
    reveal_strlit("desenho");
    reveal_strlit("projeto");
    reveal_strlit("producao");
    reveal_strlit("produção");
    assert("desenho"@[0] != "projeto"@[0]);
    assert("ti"@.len() == 2 && "desenho"@.len() == 7 && "projeto"@.len() == 7);
    assert("producao"@.len() == 8 && "produção"@.len() == 8);
}

} // verus!
