//! Attachments of a ticket: what a request asks to store, how its content is
//! decoded, and which files are already on record.

use vstd::prelude::*;
use crate::ext::{b64_no_pad, b64_standard, decode_b64_no_pad, decode_b64_standard};
use crate::text::{char_is_ws, chars, ends_with, is_ws, to_string, trim};
use crate::tickets::{sanitize_filename, sanitize_spec, ApiError, AttachRequest, TicketAttachment};
use crate::workflow::{is_internal, trimmed};

verus! {

/// The text without its whitespace.
pub open spec fn strip_ws(s: Seq<char>) -> Seq<char>
    decreases s.len(),
{
    if s.len() == 0 {
        s
    } else if is_ws(s.last()) {
        strip_ws(s.drop_last())
    } else {
        strip_ws(s.drop_last()).push(s.last())
    }
}

/// Base64 with or without padding, whitespace ignored: the padded reading where it
/// succeeds, else the unpadded one with its error.
pub open spec fn decode_spec(s: Seq<char>) -> Result<Seq<u8>, Seq<char>> {
    match b64_standard(strip_ws(s)) {
        Some(b) => Ok(b),
        None => b64_no_pad(strip_ws(s)),
    }
}

/// Decodes base64 content, padded or not, ignoring whitespace.
pub fn decode_base64(input: &str) -> (r: Result<Vec<u8>, String>)
    ensures
        match r {
            Ok(b) => decode_spec(input@) == Ok::<Seq<u8>, Seq<char>>(b@),
            Err(e) => decode_spec(input@) == Err::<Seq<u8>, Seq<char>>(e@),
        },
{
    let v = chars(input);
    let mut kept: Vec<char> = Vec::new();
    let mut i: usize = 0;
    assert(v@.take(0) =~= Seq::<char>::empty());
    while i < v.len()
        invariant
            i <= v@.len(),
            kept@ == strip_ws(v@.take(i as int)),
        decreases v@.len() - i,
    {
        assert(v@.take(i + 1).drop_last() =~= v@.take(i as int));
        assert(v@.take(i + 1).last() == v@[i as int]);
        if !char_is_ws(v[i]) {
            kept.push(v[i]);
        }
        i = i + 1;
    }
    assert(v@.take(v@.len() as int) =~= v@);
    let cleaned = to_string(&kept);
    match decode_b64_standard(cleaned.as_str()) {
        Some(b) => Ok(b),
        None => decode_b64_no_pad(cleaned.as_str()),
    }
}

/// The largest attachment the server stores: 512 MiB.
pub const MAX_ATTACHMENT_BYTES: usize = 536870912;

/// What an attachment request asks for.
pub enum AttachPlan {
    /// Record a file the ticket client already wrote to the share.
    Register { filename: String, safe: String },
    /// Write the decoded bytes and record them.
    Write { filename: String, safe: String, bytes: Vec<u8> },
}

/// The name a request stores its file under: its own stored name, trimmed and made
/// safe, else the safe form of the file name.
pub open spec fn safe_name_spec(filename: Seq<char>, stored: Option<Seq<char>>) -> Seq<char> {
    match stored {
        Some(s) if trimmed(s) is Some => sanitize_spec(trim(s)),
        _ => sanitize_spec(filename),
    }
}

pub open spec fn plan_ok(req: AttachRequest, r: Result<AttachPlan, ApiError>) -> bool {
    let filename = trim(req.filename@);
    let stored = match req.stored_name {
        Some(s) => Some(s@),
        None => None,
    };
    let safe = safe_name_spec(filename, stored);
    if filename.len() == 0 {
        r is Err && is_internal(r->Err_0, "filename required"@)
    } else if trim(req.content_base64@).len() == 0 {
        r matches Ok(AttachPlan::Register { filename: f, safe: s }) && f@ == filename && s@ == safe
    } else {
        match decode_spec(req.content_base64@) {
            Err(e) => r is Err && is_internal(r->Err_0, "base64: "@ + e),
            Ok(b) => if b.len() == 0 {
                r is Err && is_internal(r->Err_0, "empty attachment"@)
            } else if b.len() > MAX_ATTACHMENT_BYTES {
                r is Err && is_internal(r->Err_0, "attachment too large (max 512MB)"@)
            } else {
                r matches Ok(AttachPlan::Write { filename: f, safe: s, bytes }) && f@ == filename && s@ == safe && bytes@
                    == b
            },
        }
    }
}

/// Checks an attachment request and decodes its content: a file name is required,
/// empty content registers a file already on the share, and content must decode to
/// between one byte and 512 MiB.
pub fn plan_attachment(req: &AttachRequest) -> (r: Result<AttachPlan, ApiError>)
    ensures
        plan_ok(*req, r),
{
    let fv = crate::text::trim_v(&chars(req.filename.as_str()));
    if fv.len() == 0 {
        return Err(ApiError::Internal("filename required".to_string()));
    }
    let filename = to_string(&fv);
    let safe = match &req.stored_name {
        Some(s) => {
            let t = crate::text::trim_v(&chars(s.as_str()));
            if t.len() > 0 {
                sanitize_filename(to_string(&t).as_str())
            } else {
                sanitize_filename(filename.as_str())
            }
        },
        None => sanitize_filename(filename.as_str()),
    };
    let content = crate::text::trim_v(&chars(req.content_base64.as_str()));
    if content.len() == 0 {
        return Ok(AttachPlan::Register { filename, safe });
    }
    match decode_base64(req.content_base64.as_str()) {
        Err(e) => {
            let mut m = chars("base64: ");
            crate::text::extend_str(&mut m, e.as_str());
            Err(ApiError::Internal(to_string(&m)))
        },
        Ok(bytes) => {
            if bytes.len() == 0 {
                Err(ApiError::Internal("empty attachment".to_string()))
            } else if bytes.len() > MAX_ATTACHMENT_BYTES {
                Err(ApiError::Internal("attachment too large (max 512MB)".to_string()))
            } else {
                Ok(AttachPlan::Write { filename, safe, bytes })
            }
        },
    }
}

/// Whether a registered file already stands for an upload: the same stored name, or
/// (with `by_filename`) the same original name.
pub open spec fn on_record(existing: Seq<TicketAttachment>, stored: Seq<char>, filename: Option<Seq<char>>) -> bool {
    exists|i: int|
        0 <= i < existing.len() && ((#[trigger] existing[i]).stored_name@ == stored || (filename matches Some(f)
            && existing[i].filename@ == f))
}

pub fn attachment_on_record(existing: &[TicketAttachment], stored: &str, filename: Option<&str>) -> (r: bool)
    ensures
        r == on_record(existing@, stored@, match filename {
            Some(f) => Some(f@),
            None => None,
        }),
{
    let ghost fv = match filename {
        Some(f) => Some(f@),
        None => None::<Seq<char>>,
    };
    let mut i: usize = 0;
    while i < existing.len()
        invariant
            i <= existing@.len(),
            fv == match filename {
                Some(f) => Some(f@),
                None => None::<Seq<char>>,
            },
            forall|k: int|
                0 <= k < i ==> !((#[trigger] existing@[k]).stored_name@ == stored@ || (fv matches Some(f)
                    && existing@[k].filename@ == f)),
        decreases existing@.len() - i,
    {
        let a = &existing[i];
        let by_name = match filename {
            Some(f) => crate::text::str_eq(a.filename.as_str(), f),
            None => false,
        };
        if crate::text::str_eq(a.stored_name.as_str(), stored) || by_name {
            assert(existing@[i as int] == *a);
            return true;
        }
        i = i + 1;
    }
    false
}

/// The first file in a ticket's attachment folder that a failed write may have left:
/// its name ends with the safe name.
pub open spec fn leftover_index(entries: Seq<Seq<char>>, safe: Seq<char>) -> int
    decreases entries.len(),
{
    if entries.len() == 0 {
        -1
    } else {
        let k = leftover_index(entries.drop_last(), safe);
        if k >= 0 {
            k
        } else if ends_with(entries.last(), safe) {
            entries.len() - 1
        } else {
            -1
        }
    }
}

pub fn leftover_entry(entries: &[String], safe: &str) -> (r: Option<usize>)
    ensures
        match r {
            Some(i) => leftover_index(crate::compliance::views(entries@), safe@) == i as int,
            None => leftover_index(crate::compliance::views(entries@), safe@) == -1,
        },
{
    let ghost ev = crate::compliance::views(entries@);
    let sv = chars(safe);
    let mut i: usize = 0;
    assert(ev.take(0) =~= Seq::<Seq<char>>::empty());
    while i < entries.len()
        invariant
            i <= entries@.len(),
            ev == crate::compliance::views(entries@),
            sv@ == safe@,
            leftover_index(ev.take(i as int), safe@) == -1,
        decreases entries@.len() - i,
    {
        assert(ev.take(i + 1).drop_last() =~= ev.take(i as int));
        assert(ev.take(i + 1).last() == entries@[i as int]@);
        let name = chars(entries[i].as_str());
        if crate::text::ends_with_v(&name, &sv) {
            proof {
                lemma_leftover_prefix(ev, safe@, i as int + 1);
            }
            return Some(i);
        }
        i = i + 1;
    }
    assert(ev.take(entries@.len() as int) =~= ev);
    None
}

proof fn lemma_leftover_prefix(s: Seq<Seq<char>>, safe: Seq<char>, n: int)
    requires
        0 <= n <= s.len(),
        leftover_index(s.take(n), safe) >= 0,
    ensures
        leftover_index(s, safe) == leftover_index(s.take(n), safe),
    decreases s.len() - n,
{
    if n < s.len() {
        assert(s.take(n + 1).drop_last() =~= s.take(n));
        lemma_leftover_prefix(s, safe, n + 1);
    } else {
        assert(s.take(n) =~= s);
    }
}

proof fn lemma_strip_ws_idempotent(s: Seq<char>)
    ensures
        strip_ws(strip_ws(s)) == strip_ws(s),
    decreases s.len(),
{
    if s.len() > 0 {
        lemma_strip_ws_idempotent(s.drop_last());
        let t = strip_ws(s.drop_last());
        if !is_ws(s.last()) {
            assert(t.push(s.last()).drop_last() =~= t);
        }
    }
}

/// Whitespace in base64 content changes nothing: content decodes as the same content
/// with its whitespace removed.
pub proof fn law_base64_ignores_whitespace(s: Seq<char>)
    ensures
        decode_spec(s) == decode_spec(strip_ws(s)),
{
    lemma_strip_ws_idempotent(s);
}

} // verus!
