//! The NAS mirror of the ticket folders: which folders an import reads, how a
//! folder's `meta.json` is completed, whether it replaces the stored ticket, what the
//! import counts, and the texts written into each folder and beside them.

use vstd::prelude::*;
use crate::admin::{copy_opt, ostr};
use crate::ext::{chrono_instant, parse_rfc3339, rfc3339_instant};
use crate::incidents::instant;
use crate::json::Json;
use crate::models::UtcTime;
use crate::text::{
    ascii_upper, chars, contains, contains_v, extend, extend_str, fmt_i64, int_digits, is_ws, lead_count, lt_v, nat_digits, occurs_at, seq_lt, starts_with, starts_with_v, strip_end, strip_start, to_string, trail_count, trim, trim_v, upper_v, CharClass,
};
use crate::tickets::{
    duration_minutes_at, duration_spec, opt_ref, NasSyncStats, NasTicketMeta, Ticket,
};

verus! {

// ---------------------------------------------------------------------------
// Folders
// ---------------------------------------------------------------------------

/// What a folder under the NAS ticket root is to an import.
#[derive(Clone, Copy, PartialEq, Eq, Structural)]
pub enum NasFolder {
    /// Not a ticket folder (its name does not start with `CHM-`).
    Other,
    /// A ticket the user's app has not received a code for yet (`-PEND-` in its
    /// name, in any case): it is counted as skipped and not read.
    Outbox,
    /// A ticket folder to read.
    Ticket,
}

pub open spec fn nas_folder_spec(name: Seq<char>) -> NasFolder {
    if !starts_with(name, "CHM-"@) {
        NasFolder::Other
    } else if contains(ascii_upper(name), "-PEND-"@) {
        NasFolder::Outbox
    } else {
        NasFolder::Ticket
    }
}

pub fn nas_folder_kind(name: &str) -> (r: NasFolder)
    ensures
        r == nas_folder_spec(name@),
{
    let n = chars(name);
    if !starts_with_v(&n, &chars("CHM-")) {
        NasFolder::Other
    } else if contains_v(&upper_v(&n), &chars("-PEND-")) {
        NasFolder::Outbox
    } else {
        NasFolder::Ticket
    }
}

// ---------------------------------------------------------------------------
// The description kept in `descricao.md`
// ---------------------------------------------------------------------------

/// Two line breaks: the separator of the paragraphs of `descricao.md`.
pub open spec fn blank_at(s: Seq<char>, i: int) -> bool {
    0 <= i && i + 1 < s.len() && s[i] == '\n' && s[i + 1] == '\n'
}

/// Where the last piece of `s.split("\n\n")` begins, scanning from `i` with the
/// current piece beginning at `start`: each separator found ends a piece, and the
/// scan goes on after it.
pub open spec fn piece_start_from(s: Seq<char>, i: nat, start: nat) -> nat
    decreases s.len() - i,
{
    if i + 1 >= s.len() {
        start
    } else if blank_at(s, i as int) {
        piece_start_from(s, i + 2, i + 2)
    } else {
        piece_start_from(s, i + 1, start)
    }
}

/// `s.split("\n\n").last()`.
pub open spec fn last_paragraph(s: Seq<char>) -> Seq<char> {
    s.skip(piece_start_from(s, 0, 0) as int)
}

/// The description an import takes from `descricao.md`: its last paragraph, trimmed,
/// unless that is empty or a heading.
pub open spec fn md_description(md: Seq<char>) -> Option<Seq<char>> {
    let body = trim(last_paragraph(md));
    if body.len() > 0 && body[0] != '#' {
        Some(body)
    } else {
        None
    }
}

proof fn lemma_piece_start_bound(s: Seq<char>, i: nat, start: nat)
    requires
        start <= s.len(),
    ensures
        piece_start_from(s, i, start) <= s.len(),
    decreases s.len() - i,
{
    if i + 1 >= s.len() {
    } else if blank_at(s, i as int) {
        lemma_piece_start_bound(s, i + 2, i + 2);
    } else {
        lemma_piece_start_bound(s, i + 1, start);
    }
}

fn last_paragraph_v(s: &Vec<char>) -> (r: Vec<char>)
    ensures
        r@ == last_paragraph(s@),
{
    let mut i: usize = 0;
    let mut start: usize = 0;
    while i < s.len() && s.len() - i >= 2
        invariant
            start <= i <= s@.len(),
            piece_start_from(s@, i as nat, start as nat) == piece_start_from(s@, 0, 0),
        decreases s@.len() - i,
    {
        if s[i] == '\n' && s[i + 1] == '\n' {
            i = i + 2;
            start = i;
        } else {
            i = i + 1;
        }
    }
    proof {
        lemma_piece_start_bound(s@, 0, 0);
    }
    let mut r: Vec<char> = Vec::new();
    let mut j: usize = start;
    while j < s.len()
        invariant
            start <= j <= s@.len(),
            start == piece_start_from(s@, 0, 0),
            r@ == s@.subrange(start as int, j as int),
        decreases s@.len() - j,
    {
        r.push(s[j]);
        j = j + 1;
    }
    assert(r@ =~= s@.skip(start as int));
    r
}

/// The description in the text of a `descricao.md` (see [`md_description`]).
pub fn description_from_md(md: &str) -> (r: Option<String>)
    ensures
        match r {
            Some(d) => md_description(md@) == Some(d@),
            None => md_description(md@) is None,
        },
{
    let body = trim_v(&last_paragraph_v(&chars(md)));
    if body.len() > 0 && body[0] != '#' {
        Some(to_string(&body))
    } else {
        None
    }
}

// ---------------------------------------------------------------------------
// Which copy wins
// ---------------------------------------------------------------------------

/// `a` is newer than `b`: as instants where both are RFC 3339 texts, else as texts.
pub open spec fn newer_spec(a: Seq<char>, b: Seq<char>) -> bool {
    match (instant(rfc3339_instant(a)), instant(rfc3339_instant(b))) {
        (Some(x), Some(y)) => x.later(y),
        _ => seq_lt(b, a),
    }
}

pub fn rfc3339_newer(a: &str, b: &str) -> (r: bool)
    ensures
        r == newer_spec(a@, b@),
{
    match (parse_rfc3339(a), parse_rfc3339(b)) {
        (Some(x), Some(y)) => x.is_later(&y),
        _ => lt_v(&chars(b), &chars(a)),
    }
}

/// What an import does with a ticket folder whose `meta.json` it has read.
#[derive(Clone, Copy, PartialEq, Eq, Structural)]
pub enum NasImport {
    /// No stored ticket has its code: the folder becomes a new ticket.
    Import,
    /// The folder is newer than the stored ticket, which takes its contents.
    Update,
    /// The stored ticket is as new or newer: only its attachments are synchronised.
    Keep,
}

/// When the folder was last changed: `updated_at`, else `created_at`.
pub open spec fn meta_updated(m: NasTicketMeta) -> Seq<char> {
    match m.updated_at {
        Some(u) => u@,
        None => m.created_at@,
    }
}

pub open spec fn nas_import_spec(m: NasTicketMeta, stored_updated_at: Option<Seq<char>>) -> NasImport {
    match stored_updated_at {
        None => NasImport::Import,
        Some(u) => if newer_spec(meta_updated(m), u) {
            NasImport::Update
        } else {
            NasImport::Keep
        },
    }
}

/// The NAS copy wins only where it is newer than the stored ticket
/// (`stored_updated_at`: the stored ticket of the same code, if any).
pub fn nas_import_action(meta: &NasTicketMeta, stored_updated_at: Option<&str>) -> (r: NasImport)
    ensures
        r == nas_import_spec(*meta, match stored_updated_at {
            Some(u) => Some(u@),
            None => None,
        }),
{
    match stored_updated_at {
        None => NasImport::Import,
        Some(u) => {
            let newer = match &meta.updated_at {
                Some(x) => rfc3339_newer(x.as_str(), u),
                None => rfc3339_newer(meta.created_at.as_str(), u),
            };
            if newer {
                NasImport::Update
            } else {
                NasImport::Keep
            }
        },
    }
}

// ---------------------------------------------------------------------------
// Completing a folder's meta.json
// ---------------------------------------------------------------------------

pub open spec fn ostr_or_empty(o: Option<String>) -> Seq<char> {
    match o {
        Some(s) => s@,
        None => Seq::empty(),
    }
}

/// The folder's description is missing or blank, so an import reads `descricao.md`.
pub open spec fn needs_description_spec(m: NasTicketMeta) -> bool {
    trim(ostr_or_empty(m.description)).len() == 0
}

pub fn meta_needs_description(meta: &NasTicketMeta) -> (r: bool)
    ensures
        r == needs_description_spec(*meta),
{
    match &meta.description {
        Some(d) => trim_v(&chars(d.as_str())).len() == 0,
        None => true,
    }
}

/// A `meta.json` as an import completes it: a blank code becomes the folder's name,
/// a missing or empty `updated_at` becomes `created_at`, and a blank description is
/// taken from `descricao.md` (`md`: its text, where it could be read).
pub fn complete_nas_meta(meta: NasTicketMeta, folder_name: &str, md: Option<&str>) -> (r: NasTicketMeta)
    ensures
        r.code@ == (if trim(meta.code@).len() == 0 {
            folder_name@
        } else {
            meta.code@
        }),
        r.updated_at == (if ostr_or_empty(meta.updated_at).len() == 0 {
            Some(meta.created_at)
        } else {
            meta.updated_at
        }),
        needs_description_spec(meta) ==> match md {
            Some(text) => match md_description(text@) {
                Some(d) => r.description matches Some(x) && x@ == d,
                None => r.description == meta.description,
            },
            None => r.description == meta.description,
        },
        !needs_description_spec(meta) ==> r.description == meta.description,
        r.machine_id == meta.machine_id && r.hostname_snapshot == meta.hostname_snapshot
            && r.owner_name_snapshot == meta.owner_name_snapshot && r.title == meta.title
            && r.status == meta.status && r.priority == meta.priority && r.created_by == meta.created_by
            && r.assignee == meta.assignee && r.created_at == meta.created_at && r.closed_at
            == meta.closed_at && r.rating == meta.rating && r.rating_comment == meta.rating_comment
            && r.reopen_pending == meta.reopen_pending && r.reopen_reason == meta.reopen_reason
            && r.reopen_requested_at == meta.reopen_requested_at && r.last_reopen_reason
            == meta.last_reopen_reason && r.resolution == meta.resolution && r.nas_path
            == meta.nas_path && r.duration_min == meta.duration_min && r.attachments_count
            == meta.attachments_count && r.comments_count == meta.comments_count,
{
    let needs = meta_needs_description(&meta);
    let mut m = meta;
    if trim_v(&chars(m.code.as_str())).len() == 0 {
        m.code = folder_name.to_owned();
    }
    let empty_updated = match &m.updated_at {
        Some(u) => u.unicode_len() == 0,
        None => true,
    };
    if empty_updated {
        m.updated_at = Some(m.created_at.clone());
    }
    if needs {
        if let Some(text) = md {
            if let Some(d) = description_from_md(text) {
                m.description = Some(d);
            }
        }
    }
    m
}

// ---------------------------------------------------------------------------
// Counting an import
// ---------------------------------------------------------------------------

/// How one folder under the NAS ticket root ended.
#[derive(Clone, Copy, PartialEq, Eq, Structural)]
pub enum NasEntry {
    /// An outbox folder (see [`NasFolder::Outbox`]).
    Outbox,
    /// A ticket folder whose meta.json could not be read, or whose import, update
    /// or lookup failed.
    Failed,
    Imported,
    Updated,
    /// The stored ticket was as new or newer.
    Unchanged,
}

impl NasSyncStats {
    /// Every ticket folder is scanned; an outbox folder is only skipped.
    pub fn record(&mut self, e: NasEntry)
        requires
            old(self).scanned < usize::MAX,
            old(self).imported < usize::MAX,
            old(self).updated < usize::MAX,
            old(self).skipped < usize::MAX,
            old(self).errors < usize::MAX,
        ensures
            final(self).scanned == old(self).scanned + (if e == NasEntry::Outbox { 0int } else { 1int }),
            final(self).skipped == old(self).skipped + (if e == NasEntry::Outbox || e == NasEntry::Unchanged {
                1int
            } else {
                0int
            }),
            final(self).errors == old(self).errors + (if e == NasEntry::Failed { 1int } else { 0int }),
            final(self).imported == old(self).imported + (if e == NasEntry::Imported { 1int } else { 0int }),
            final(self).updated == old(self).updated + (if e == NasEntry::Updated { 1int } else { 0int }),
            final(self).export_ok == old(self).export_ok,
    {
        match e {
            NasEntry::Outbox => {
                self.skipped = self.skipped + 1;
            },
            NasEntry::Failed => {
                self.scanned = self.scanned + 1;
                self.errors = self.errors + 1;
            },
            NasEntry::Imported => {
                self.scanned = self.scanned + 1;
                self.imported = self.imported + 1;
            },
            NasEntry::Updated => {
                self.scanned = self.scanned + 1;
                self.updated = self.updated + 1;
            },
            NasEntry::Unchanged => {
                self.scanned = self.scanned + 1;
                self.skipped = self.skipped + 1;
            },
        }
    }
}

// ---------------------------------------------------------------------------
// What a ticket's folder holds
// ---------------------------------------------------------------------------

/// `o.as_deref().unwrap_or("-")`.
pub open spec fn or_dash(o: Option<String>) -> Seq<char> {
    match o {
        Some(s) => s@,
        None => "-"@,
    }
}

pub open spec fn rating_text(r: Option<i32>) -> Seq<char> {
    match r {
        Some(n) => int_digits(n as int),
        None => "-"@,
    }
}

/// `descricao.md` up to the paragraph of the description.
pub open spec fn md_head(t: Ticket) -> Seq<char> {
    "# "@ + t.title@ + "\n\n**Codigo:** "@ + t.code@ + "\n**Host:** "@ + or_dash(t.hostname_snapshot)
        + "\n**Responsavel:** "@ + or_dash(t.owner_name_snapshot) + "\n**Status:** "@ + t.status@
        + "\n**Prioridade:** "@ + t.priority@ + "\n**Assignee:** "@ + or_dash(t.assignee)
        + "\n**Aberto:** "@ + t.created_at@ + "\n**Atualizado:** "@ + t.updated_at@ + "\n**Fechado:** "@
        + or_dash(t.closed_at) + "\n**Resolucao:** "@ + or_dash(t.resolution) + "\n**Avaliacao:** "@
        + rating_text(t.rating)
}

/// The `descricao.md` written into a ticket's folder.
pub open spec fn ticket_md_spec(t: Ticket) -> Seq<char> {
    md_head(t) + "\n\n"@ + ostr_or_empty(t.description) + "\n"@
}

fn push_or_dash(v: &mut Vec<char>, o: &Option<String>)
    ensures
        final(v)@ == old(v)@ + or_dash(*o),
{
    match o {
        Some(s) => extend_str(v, s.as_str()),
        None => extend_str(v, "-"),
    }
}

pub fn ticket_description_md(t: &Ticket) -> (r: String)
    ensures
        r@ == ticket_md_spec(*t),
{
    let mut v = chars("# ");
    extend_str(&mut v, t.title.as_str());
    extend_str(&mut v, "\n\n**Codigo:** ");
    extend_str(&mut v, t.code.as_str());
    extend_str(&mut v, "\n**Host:** ");
    push_or_dash(&mut v, &t.hostname_snapshot);
    extend_str(&mut v, "\n**Responsavel:** ");
    push_or_dash(&mut v, &t.owner_name_snapshot);
    extend_str(&mut v, "\n**Status:** ");
    extend_str(&mut v, t.status.as_str());
    extend_str(&mut v, "\n**Prioridade:** ");
    extend_str(&mut v, t.priority.as_str());
    extend_str(&mut v, "\n**Assignee:** ");
    push_or_dash(&mut v, &t.assignee);
    extend_str(&mut v, "\n**Aberto:** ");
    extend_str(&mut v, t.created_at.as_str());
    extend_str(&mut v, "\n**Atualizado:** ");
    extend_str(&mut v, t.updated_at.as_str());
    extend_str(&mut v, "\n**Fechado:** ");
    push_or_dash(&mut v, &t.closed_at);
    extend_str(&mut v, "\n**Resolucao:** ");
    push_or_dash(&mut v, &t.resolution);
    extend_str(&mut v, "\n**Avaliacao:** ");
    match t.rating {
        Some(n) => {
            let d = fmt_i64(n as i64);
            extend(&mut v, &d);
        },
        None => extend_str(&mut v, "-"),
    }
    assert(v@ == md_head(*t));
    extend_str(&mut v, "\n\n");
    match &t.description {
        Some(d) => extend_str(&mut v, d.as_str()),
        None => {},
    }
    extend_str(&mut v, "\n");
    to_string(&v)
}

/// The `meta.json` written into a ticket's folder `dir` at `now`: the ticket's fields,
/// the folder as its NAS path where it has none, its duration so far and its counts.
pub fn nas_meta_at(t: &Ticket, dir: &str, now: UtcTime) -> (r: NasTicketMeta)
    requires
        chrono_instant(now.secs, now.nanos),
    ensures
        r.code@ == t.code@ && r.machine_id@ == t.machine_id@ && r.title@ == t.title@ && r.status@
            == t.status@ && r.priority@ == t.priority@ && r.created_at@ == t.created_at@,
        ostr(r.hostname_snapshot) == ostr(t.hostname_snapshot) && ostr(r.owner_name_snapshot) == ostr(
            t.owner_name_snapshot,
        ) && ostr(r.description) == ostr(t.description) && ostr(r.created_by) == ostr(t.created_by)
            && ostr(r.assignee) == ostr(t.assignee) && ostr(r.closed_at) == ostr(t.closed_at) && ostr(
            r.rating_comment,
        ) == ostr(t.rating_comment) && ostr(r.reopen_reason) == ostr(t.reopen_reason) && ostr(
            r.reopen_requested_at,
        ) == ostr(t.reopen_requested_at) && ostr(r.last_reopen_reason) == ostr(t.last_reopen_reason)
            && ostr(r.resolution) == ostr(t.resolution),
        ostr(r.updated_at) == Some(t.updated_at@),
        r.rating == t.rating && r.reopen_pending == t.reopen_pending,
        ostr(r.nas_path) == Some(
            match t.nas_path {
                Some(p) => p@,
                None => dir@,
            },
        ),
        r.duration_min == duration_spec(t.created_at@, ostr(t.closed_at), now),
        r.attachments_count == Some(t.attachments@.len() as usize),
        r.comments_count == Some(t.comments@.len() as usize),
{
    let dur = duration_minutes_at(t.created_at.as_str(), opt_ref(&t.closed_at), now);
    let nas_path = match &t.nas_path {
        Some(p) => p.clone(),
        None => dir.to_owned(),
    };
    NasTicketMeta {
        code: t.code.clone(),
        machine_id: t.machine_id.clone(),
        hostname_snapshot: copy_opt(&t.hostname_snapshot),
        owner_name_snapshot: copy_opt(&t.owner_name_snapshot),
        title: t.title.clone(),
        description: copy_opt(&t.description),
        status: t.status.clone(),
        priority: t.priority.clone(),
        created_by: copy_opt(&t.created_by),
        assignee: copy_opt(&t.assignee),
        created_at: t.created_at.clone(),
        updated_at: Some(t.updated_at.clone()),
        closed_at: copy_opt(&t.closed_at),
        rating: t.rating,
        rating_comment: copy_opt(&t.rating_comment),
        reopen_pending: t.reopen_pending,
        reopen_reason: copy_opt(&t.reopen_reason),
        reopen_requested_at: copy_opt(&t.reopen_requested_at),
        last_reopen_reason: copy_opt(&t.last_reopen_reason),
        resolution: copy_opt(&t.resolution),
        nas_path: Some(nas_path),
        duration_min: dur,
        attachments_count: Some(t.attachments.len()),
        comments_count: Some(t.comments.len()),
    }
}

/// The `meta.json` of a ticket's folder `dir`, with its duration up to now.
pub fn nas_meta(t: &Ticket, dir: &str) -> (r: NasTicketMeta)
    ensures
        exists|now: UtcTime|
            chrono_instant(now.secs, now.nanos) && r.duration_min == duration_spec(
                t.created_at@,
                ostr(t.closed_at),
                now,
            ),
        r.code@ == t.code@ && ostr(r.updated_at) == Some(t.updated_at@) && ostr(r.nas_path) == Some(
            match t.nas_path {
                Some(p) => p@,
                None => dir@,
            },
        ),
{
    let now = crate::ext::utc_now();
    nas_meta_at(t, dir, now)
}

// ---------------------------------------------------------------------------
// The index beside the folders
// ---------------------------------------------------------------------------

/// An optional text as JSON: the string, or `null`.
pub open spec fn opt_str_json(j: Json, o: Option<String>) -> bool {
    match o {
        Some(x) => j.str_spec() == Some(x@),
        None => j is Null,
    }
}

/// An integer as serde_json holds it.
pub open spec fn i64_json(n: i64) -> Json {
    if n >= 0 {
        Json::UInt(n as u64)
    } else {
        Json::NegInt(n)
    }
}

pub open spec fn opt_i64_json(o: Option<i64>) -> Json {
    match o {
        Some(n) => i64_json(n),
        None => Json::Null,
    }
}

pub open spec fn opt_rating(o: Option<i32>) -> Option<i64> {
    match o {
        Some(n) => Some(n as i64),
        None => None,
    }
}

/// The entry of a ticket in `_index.json`, its keys in serde_json's order.
pub open spec fn index_entry_ok(j: Json, t: Ticket, now: UtcTime) -> bool {
    &&& j matches Json::Object(fs)
    &&& fs@.len() == 12
    &&& fs@[0].0@ == "assignee"@ && opt_str_json(fs@[0].1, t.assignee)
    &&& fs@[1].0@ == "closed_at"@ && opt_str_json(fs@[1].1, t.closed_at)
    &&& fs@[2].0@ == "code"@ && fs@[2].1.str_spec() == Some(t.code@)
    &&& fs@[3].0@ == "duration_min"@ && fs@[3].1 == opt_i64_json(
        duration_spec(t.created_at@, ostr(t.closed_at), now),
    )
    &&& fs@[4].0@ == "hostname"@ && opt_str_json(fs@[4].1, t.hostname_snapshot)
    &&& fs@[5].0@ == "nas_path"@ && opt_str_json(fs@[5].1, t.nas_path)
    &&& fs@[6].0@ == "owner"@ && opt_str_json(fs@[6].1, t.owner_name_snapshot)
    &&& fs@[7].0@ == "priority"@ && fs@[7].1.str_spec() == Some(t.priority@)
    &&& fs@[8].0@ == "rating"@ && fs@[8].1 == opt_i64_json(opt_rating(t.rating))
    &&& fs@[9].0@ == "status"@ && fs@[9].1.str_spec() == Some(t.status@)
    &&& fs@[10].0@ == "title"@ && fs@[10].1.str_spec() == Some(t.title@)
    &&& fs@[11].0@ == "updated_at"@ && fs@[11].1.str_spec() == Some(t.updated_at@)
}

fn opt_str_to_json(o: &Option<String>) -> (j: Json)
    ensures
        opt_str_json(j, *o),
{
    match o {
        Some(x) => Json::Str(x.clone()),
        None => Json::Null,
    }
}

fn i64_to_json(n: i64) -> (j: Json)
    ensures
        j == i64_json(n),
{
    if n >= 0 {
        Json::UInt(n as u64)
    } else {
        Json::NegInt(n)
    }
}

fn opt_i64_to_json(o: Option<i64>) -> (j: Json)
    ensures
        j == opt_i64_json(o),
{
    match o {
        Some(n) => i64_to_json(n),
        None => Json::Null,
    }
}

fn key(k: &str, v: Json) -> (r: (String, Json))
    ensures
        r.0@ == k@ && r.1 == v,
{
    (k.to_owned(), v)
}

fn index_entry(t: &Ticket, now: UtcTime) -> (j: Json)
    requires
        chrono_instant(now.secs, now.nanos),
    ensures
        index_entry_ok(j, *t, now),
{
    let dur = duration_minutes_at(t.created_at.as_str(), opt_ref(&t.closed_at), now);
    let rating = match t.rating {
        Some(n) => Some(n as i64),
        None => None,
    };
    let mut fs: Vec<(String, Json)> = Vec::new();
    fs.push(key("assignee", opt_str_to_json(&t.assignee)));
    fs.push(key("closed_at", opt_str_to_json(&t.closed_at)));
    fs.push(key("code", Json::Str(t.code.clone())));
    fs.push(key("duration_min", opt_i64_to_json(dur)));
    fs.push(key("hostname", opt_str_to_json(&t.hostname_snapshot)));
    fs.push(key("nas_path", opt_str_to_json(&t.nas_path)));
    fs.push(key("owner", opt_str_to_json(&t.owner_name_snapshot)));
    fs.push(key("priority", Json::Str(t.priority.clone())));
    fs.push(key("rating", opt_i64_to_json(rating)));
    fs.push(key("status", Json::Str(t.status.clone())));
    fs.push(key("title", Json::Str(t.title.clone())));
    fs.push(key("updated_at", Json::Str(t.updated_at.clone())));
    Json::Object(fs)
}

pub open spec fn index_doc_ok(j: Json, ts: Seq<Ticket>, generated_at: Seq<char>, now: UtcTime) -> bool {
    &&& j matches Json::Object(fs)
    &&& fs@.len() == 3
    &&& fs@[0].0@ == "count"@ && fs@[0].1 == Json::UInt(ts.len() as u64)
    &&& fs@[1].0@ == "generated_at"@ && fs@[1].1.str_spec() == Some(generated_at)
    &&& fs@[2].0@ == "tickets"@
    &&& fs@[2].1 matches Json::Array(es)
    &&& es@.len() == ts.len()
    &&& forall|i: int| 0 <= i < ts.len() ==> index_entry_ok(#[trigger] es@[i], ts[i], now)
}

/// The `_index.json` written beside the ticket folders at `now` (`generated_at`: the
/// same instant as RFC 3339 text), its keys in serde_json's order.
pub fn chamados_index_at(tickets: &[Ticket], generated_at: &str, now: UtcTime) -> (j: Json)
    requires
        chrono_instant(now.secs, now.nanos),
    ensures
        index_doc_ok(j, tickets@, generated_at@, now),
{
    let mut es: Vec<Json> = Vec::new();
    let mut i: usize = 0;
    while i < tickets.len()
        invariant
            i <= tickets@.len(),
            chrono_instant(now.secs, now.nanos),
            es@.len() == i,
            forall|k: int| 0 <= k < i ==> index_entry_ok(#[trigger] es@[k], tickets@[k], now),
        decreases tickets@.len() - i,
    {
        es.push(index_entry(&tickets[i], now));
        i = i + 1;
    }
    let mut fs: Vec<(String, Json)> = Vec::new();
    fs.push(key("count", Json::UInt(tickets.len() as u64)));
    fs.push(key("generated_at", Json::Str(generated_at.to_owned())));
    fs.push(key("tickets", Json::Array(es)));
    Json::Object(fs)
}

/// The `_index.json` written beside the ticket folders now (`generated_at`: the
/// current instant as RFC 3339 text).
pub fn chamados_index(tickets: &[Ticket], generated_at: &str) -> (j: Json)
    ensures
        exists|now: UtcTime| chrono_instant(now.secs, now.nanos) && index_doc_ok(j, tickets@, generated_at@, now),
{
    let now = crate::ext::utc_now();
    chamados_index_at(tickets, generated_at, now)
}

// ---------------------------------------------------------------------------
// What an import reads back of what was written
// ---------------------------------------------------------------------------

/// A scan that starts at or before `p`, where no separator can begin at `p - 1`,
/// passes through `p`.
proof fn lemma_scan_reaches(s: Seq<char>, i: nat, start: nat, p: nat) -> (start2: nat)
    requires
        i <= p,
        1 <= p,
        p + 1 < s.len(),
        s[p - 1] != '\n',
    ensures
        piece_start_from(s, i, start) == piece_start_from(s, p, start2),
    decreases p - i,
{
    if i == p {
        start
    } else if blank_at(s, i as int) {
        assert(i + 2 <= p);
        lemma_scan_reaches(s, i + 2, i + 2, p)
    } else {
        lemma_scan_reaches(s, i + 1, start, p)
    }
}

/// A scan over a stretch with no separator keeps its piece.
proof fn lemma_scan_tail(s: Seq<char>, j: nat, q: nat)
    requires
        forall|k: int| j <= k ==> !#[trigger] blank_at(s, k),
    ensures
        piece_start_from(s, j, q) == q,
    decreases s.len() - j,
{
    if j + 1 < s.len() {
        assert(!blank_at(s, j as int));
        lemma_scan_tail(s, j + 1, q);
    }
}

proof fn lemma_lead_count_facts(s: Seq<char>, k: CharClass)
    ensures
        lead_count(s, k) <= s.len(),
        forall|j: int| 0 <= j < lead_count(s, k) ==> k.holds(#[trigger] s[j]),
        lead_count(s, k) < s.len() ==> !k.holds(s[lead_count(s, k) as int]),
    decreases s.len(),
{
    if s.len() > 0 && k.holds(s[0]) {
        let t = s.drop_first();
        lemma_lead_count_facts(t, k);
        assert forall|j: int| 0 <= j < lead_count(s, k) implies k.holds(#[trigger] s[j]) by {
            if j > 0 {
                assert(s[j] == t[j - 1]);
            }
        }
        if lead_count(s, k) < s.len() {
            assert(s[lead_count(s, k) as int] == t[lead_count(t, k) as int]);
        }
    }
}

proof fn lemma_trail_bound(s: Seq<char>, k: CharClass)
    ensures
        trail_count(s, k) <= s.len(),
    decreases s.len(),
{
    if s.len() > 0 && k.holds(s.last()) {
        lemma_trail_bound(s.drop_last(), k);
    }
}

/// A trailing whitespace character does not change what `trim` keeps of a text
/// that is not all whitespace.
proof fn lemma_trim_push_ws(d: Seq<char>, c: char)
    requires
        is_ws(c),
        trim(d).len() > 0,
    ensures
        trim(d.push(c)) == trim(d),
{
    let k = CharClass::Whitespace;
    let e = d.push(c);
    lemma_lead_count_facts(d, k);
    let l = lead_count(d, k);
    if l == d.len() {
        assert(strip_start(d, k).len() == 0);
        assert(false);
    }
    assert forall|j: int| 0 <= j < l implies k.holds(#[trigger] e[j]) by {
        assert(e[j] == d[j]);
    }
    assert(e[l as int] == d[l as int]);
    crate::text::lemma_lead_count(e, k, l as int);
    let x = d.skip(l as int);
    assert(strip_start(e, k) =~= x.push(c));
    assert(x.push(c).drop_last() =~= x);
    assert(trail_count(x.push(c), k) == 1 + trail_count(x, k));
    lemma_trail_bound(x, k);
    assert(strip_end(x.push(c), k) =~= strip_end(x, k));
}

proof fn lemma_digits_last(n: nat)
    ensures
        nat_digits(n).len() > 0,
        nat_digits(n).last() != '\n',
    decreases n,
{
    if n >= 10 {
        lemma_digits_last(n / 10);
    }
}

/// What an import reads from the `descricao.md` written for a ticket is the ticket's
/// description, trimmed, where that is a single paragraph with visible text that is
/// not a heading.
pub proof fn law_description_round_trip(t: Ticket)
    requires
        t.description is Some,
        !contains(ostr_or_empty(t.description), "\n\n"@),
        ostr_or_empty(t.description).len() > 0 ==> ostr_or_empty(t.description).last() != '\n',
        trim(ostr_or_empty(t.description)).len() > 0,
        trim(ostr_or_empty(t.description))[0] != '#',
    ensures
        md_description(ticket_md_spec(t)) == Some(trim(ostr_or_empty(t.description))),
{
    reveal_strlit("\n\n");
    reveal_strlit("\n");
    reveal_strlit("-");
    let d = ostr_or_empty(t.description);
    let h = md_head(t);
    let s = ticket_md_spec(t);
    let r = rating_text(t.rating);
    match t.rating {
        Some(n) => {
            if n < 0 {
                lemma_digits_last((-n) as nat);
                assert(r.last() == nat_digits((-n) as nat).last());
            } else {
                lemma_digits_last(n as nat);
            }
        },
        None => {},
    }
    assert(r.len() > 0 && r.last() != '\n');
    assert(h.len() >= r.len());
    assert(h.last() == r.last());
    let p = h.len();
    assert(s.len() == p + 2 + d.len() + 1);
    assert(s[p - 1int] == h.last());
    assert(s[p as int] == '\n' && s[p + 1int] == '\n');
    let st2 = lemma_scan_reaches(s, 0, 0, p);
    assert(blank_at(s, p as int));
    assert forall|k: int| p + 2 <= k implies !#[trigger] blank_at(s, k) by {
        if blank_at(s, k) {
            if k + 2 < s.len() {
                let m = k - p - 2;
                assert(s[k] == d[m] && s[k + 1] == d[m + 1]);
                assert(d.subrange(m, m + 2) =~= "\n\n"@);
                assert(occurs_at(d, "\n\n"@, m));
            } else {
                assert(s[k] == d.last());
            }
        }
    }
    lemma_scan_tail(s, p + 2, p + 2);
    assert(last_paragraph(s) =~= d.push('\n'));
    lemma_trim_push_ws(d, '\n');
}

} // verus!
