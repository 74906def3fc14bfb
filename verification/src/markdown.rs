//! The Markdown inventory report of a machine: identification, compliance, alerts,
//! incidents, and one section per collector.

use vstd::prelude::*;
use crate::certs::{array_or_empty, array_or_empty_v, classify_certificate, classify_spec, CertClass};
use crate::json::{get_array, get_bool, get_i64, get_str, get_u64, json_array, json_bool, json_i64, json_str, json_u64, str_or, str_or_v, Json};
use crate::compliance::{band_spec, breakdown_text, collectors_sliceable, compute_score_breakdown, lemma_breakdown_text, total_spec};
use crate::alerts::{alerts_md, alerts_to_markdown};
use crate::ext::{format_utc, utc_now, utc_text_or_empty};
use crate::models::{CollectorResult, IncidentRecord, MachineSummary, UtcTime};
use crate::num::{fmt_decimal, fmt_fixed};
use crate::text::{chars, extend, extend_str, fmt_i64, fmt_u64, int_digits, nat_digits, to_string};

verus! {

// ---------------------------------------------------------------------------
// JSON as compact text
// ---------------------------------------------------------------------------

pub open spec fn hex_digit(d: nat) -> char {
    if d < 10 {
        (('0' as u32) + d) as char
    } else {
        (('a' as u32) + (d - 10)) as char
    }
}

/// How serde_json writes one character inside a string.
pub open spec fn escape_char(c: char) -> Seq<char> {
    if c == '"' {
        seq!['\\', '"']
    } else if c == '\\' {
        seq!['\\', '\\']
    } else if c == '\n' {
        seq!['\\', 'n']
    } else if c == '\r' {
        seq!['\\', 'r']
    } else if c == '\t' {
        seq!['\\', 't']
    } else if (c as u32) == 8 {
        seq!['\\', 'b']
    } else if (c as u32) == 12 {
        seq!['\\', 'f']
    } else if (c as u32) < 32 {
        seq!['\\', 'u', '0', '0', hex_digit((c as u32 / 16) as nat), hex_digit((c as u32 % 16) as nat)]
    } else {
        seq![c]
    }
}

pub open spec fn escape_text(s: Seq<char>) -> Seq<char>
    decreases s.len(),
{
    if s.len() == 0 {
        Seq::empty()
    } else {
        escape_text(s.drop_last()) + escape_char(s.last())
    }
}

/// A JSON string: the text between quotes, escaped.
pub open spec fn quoted(s: Seq<char>) -> Seq<char> {
    seq!['"'] + escape_text(s) + seq!['"']
}

/// serde_json's compact text of a value (`Value::to_string`).
pub open spec fn json_text(v: Json) -> Seq<char>
    decreases v, 1nat,
{
    match v {
        Json::Null => "null"@,
        Json::Bool(b) => if b {
            "true"@
        } else {
            "false"@
        },
        Json::UInt(n) => nat_digits(n as nat),
        Json::NegInt(n) => int_digits(n as int),
        Json::Float(_, t, _) => t@,
        Json::Str(s) => quoted(s@),
        Json::Array(items) => seq!['['] + items_text(items@) + seq![']'],
        Json::Object(fields) => seq!['{'] + fields_text(fields@) + seq!['}'],
    }
}

pub open spec fn items_text(s: Seq<Json>) -> Seq<char>
    decreases s, 0nat,
{
    if s.len() == 0 {
        Seq::empty()
    } else if s.len() == 1 {
        json_text(s[0])
    } else {
        items_text(s.drop_last()) + seq![','] + json_text(s.last())
    }
}

pub open spec fn fields_text(s: Seq<(String, Json)>) -> Seq<char>
    decreases s, 0nat,
{
    if s.len() == 0 {
        Seq::empty()
    } else {
        let f = s.last();
        let one = quoted(f.0@) + seq![':'] + json_text(f.1);
        if s.len() == 1 {
            one
        } else {
            fields_text(s.drop_last()) + seq![','] + one
        }
    }
}

fn hex_digit_v(d: u32) -> (c: char)
    requires
        d < 16,
    ensures
        c == hex_digit(d as nat),
{
    if d < 10 {
        let b: u8 = 48u8 + (d as u8);
        b as char
    } else {
        let b: u8 = 97u8 + ((d - 10) as u8);
        b as char
    }
}

fn push_escaped(out: &mut Vec<char>, s: &str)
    ensures
        final(out)@ == old(out)@ + escape_text(s@),
{
    let v = chars(s);
    let ghost o0 = out@;
    let mut i: usize = 0;
    assert(escape_text(v@.take(0)) =~= Seq::<char>::empty());
    assert(out@ =~= o0 + escape_text(v@.take(0)));
    while i < v.len()
        invariant
            i <= v@.len(),
            out@ == o0 + escape_text(v@.take(i as int)),
        decreases v@.len() - i,
    {
        let c = v[i];
        assert(v@.take(i + 1).drop_last() =~= v@.take(i as int));
        assert(v@.take(i + 1).last() == c);
        let u = c as u32;
        let ghost before = out@;
        if c == '"' {
            out.push('\\');
            out.push('"');
        } else if c == '\\' {
            out.push('\\');
            out.push('\\');
        } else if c == '\n' {
            out.push('\\');
            out.push('n');
        } else if c == '\r' {
            out.push('\\');
            out.push('r');
        } else if c == '\t' {
            out.push('\\');
            out.push('t');
        } else if u == 8 {
            out.push('\\');
            out.push('b');
        } else if u == 12 {
            out.push('\\');
            out.push('f');
        } else if u < 32 {
            out.push('\\');
            out.push('u');
            out.push('0');
            out.push('0');
            out.push(hex_digit_v(u / 16));
            out.push(hex_digit_v(u % 16));
        } else {
            out.push(c);
        }
        assert(out@ =~= before + escape_char(c));
        i = i + 1;
    }
    assert(v@.take(v@.len() as int) =~= v@);
}

fn push_quoted(out: &mut Vec<char>, s: &str)
    ensures
        final(out)@ == old(out)@ + quoted(s@),
{
    let ghost o0 = out@;
    out.push('"');
    push_escaped(out, s);
    out.push('"');
    assert(out@ =~= o0 + quoted(s@));
}

/// Appends serde_json's compact text of a value.
pub fn push_json_text(out: &mut Vec<char>, v: &Json)
    ensures
        final(out)@ == old(out)@ + json_text(*v),
    decreases *v,
{
    let ghost o0 = out@;
    match v {
        Json::Null => extend_str(out, "null"),
        Json::Bool(b) => if *b {
            extend_str(out, "true")
        } else {
            extend_str(out, "false")
        },
        Json::UInt(n) => {
            let d = fmt_u64(*n);
            extend(out, &d);
        },
        Json::NegInt(n) => {
            let d = fmt_i64(*n);
            extend(out, &d);
        },
        Json::Float(_, t, _) => extend_str(out, t.as_str()),
        Json::Str(s) => push_quoted(out, s.as_str()),
        Json::Array(items) => {
            out.push('[');
            let ghost o1 = out@;
            let mut i: usize = 0;
            assert(items_text(items@.take(0)) =~= Seq::<char>::empty());
            assert(out@ =~= o1 + items_text(items@.take(0)));
            while i < items.len()
                invariant
                    i <= items@.len(),
                    *v is Array,
                    (*v)->Array_0 == *items,
                    out@ == o1 + items_text(items@.take(i as int)),
                decreases items@.len() - i,
            {
                assert(items@.take(i + 1).drop_last() =~= items@.take(i as int));
                assert(items@.take(i + 1).last() == items@[i as int]);
                if i > 0 {
                    out.push(',');
                } else {
                    assert(items@.take(1)[0] == items@[0]);
                }
                assert(decreases_to!(*v => (*v)->Array_0));
                assert(decreases_to!(*items => items@));
                assert(decreases_to!(items@ => items@[i as int]));
                push_json_text(out, &items[i]);
                i = i + 1;
            }
            assert(items@.take(items@.len() as int) =~= items@);
            out.push(']');
        },
        Json::Object(fields) => {
            out.push('{');
            let ghost o1 = out@;
            let mut i: usize = 0;
            assert(fields_text(fields@.take(0)) =~= Seq::<char>::empty());
            assert(out@ =~= o1 + fields_text(fields@.take(0)));
            while i < fields.len()
                invariant
                    i <= fields@.len(),
                    *v is Object,
                    (*v)->Object_0 == *fields,
                    out@ == o1 + fields_text(fields@.take(i as int)),
                decreases fields@.len() - i,
            {
                assert(fields@.take(i + 1).drop_last() =~= fields@.take(i as int));
                assert(fields@.take(i + 1).last() == fields@[i as int]);
                if i > 0 {
                    out.push(',');
                }
                push_quoted(out, fields[i].0.as_str());
                out.push(':');
                assert(decreases_to!(*v => (*v)->Object_0));
                assert(decreases_to!(*fields => fields@));
                assert(decreases_to!(fields@ => fields@[i as int]));
                assert(decreases_to!(fields@[i as int] => fields@[i as int].1));
                push_json_text(out, &fields[i].1);
                i = i + 1;
            }
            assert(fields@.take(fields@.len() as int) =~= fields@);
            out.push('}');
        },
    }
    assert(out@ =~= o0 + json_text(*v));
}

// ---------------------------------------------------------------------------
// Collected data as nested lists
// ---------------------------------------------------------------------------

/// How a value is shown: `—` for null, the text of a string, JSON otherwise.
pub open spec fn scalar_text(v: Json) -> Seq<char> {
    match v {
        Json::Null => "—"@,
        Json::Str(s) => s@,
        _ => json_text(v),
    }
}

pub fn push_scalar(out: &mut Vec<char>, v: &Json)
    ensures
        final(out)@ == old(out)@ + scalar_text(*v),
{
    match v {
        Json::Null => extend_str(out, "—"),
        Json::Str(s) => extend_str(out, s.as_str()),
        _ => push_json_text(out, v),
    }
}

pub open spec fn is_nested(v: Json) -> bool {
    v is Object || v is Array
}

/// The label of an object in a list: its `name`, `hostname` or `display_name`.
pub open spec fn item_label(v: Json) -> Seq<char> {
    match v.get_spec("name"@) {
        Some(x) => scalar_text(x),
        None => match v.get_spec("hostname"@) {
            Some(x) => scalar_text(x),
            None => match v.get_spec("display_name"@) {
                Some(x) => scalar_text(x),
                None => "item"@,
            },
        },
    }
}

pub open spec fn is_label_key(k: Seq<char>) -> bool {
    k == "name"@ || k == "hostname"@ || k == "display_name"@
}

/// The other fields of a listed object, one line each.
pub open spec fn item_fields(s: Seq<(String, Json)>, ind: Seq<char>) -> Seq<char>
    decreases s.len(),
{
    if s.len() == 0 {
        Seq::empty()
    } else {
        let f = s.last();
        item_fields(s.drop_last(), ind) + if is_label_key(f.0@) {
            Seq::empty()
        } else {
            ind + "  - "@ + f.0@ + ": "@ + scalar_text(f.1) + "\n"@
        }
    }
}

pub open spec fn list_item(v: Json, ind: Seq<char>) -> Seq<char> {
    match v {
        Json::Object(obj) => ind + "- "@ + item_label(v) + "\n"@ + item_fields(obj@, ind),
        _ => ind + "- "@ + scalar_text(v) + "\n"@,
    }
}

pub open spec fn list_items(s: Seq<Json>, ind: Seq<char>) -> Seq<char>
    decreases s.len(),
{
    if s.len() == 0 {
        Seq::empty()
    } else {
        list_items(s.drop_last(), ind) + list_item(s.last(), ind)
    }
}

/// A value as nested Markdown lists: an object's fields (nested values one level
/// deeper), an array's first 50 items, or the value itself.
pub open spec fn json_md(v: Json, ind: Seq<char>) -> Seq<char>
    decreases v, 1nat,
{
    match v {
        Json::Object(fields) => fields_md(fields@, ind),
        Json::Array(items) => {
            let n = items@.len();
            let limit = if n < 50 {
                n
            } else {
                50
            };
            list_items(items@.take(limit as int), ind) + if n > limit {
                ind + "_… mais "@ + nat_digits((n - limit) as nat) + " itens omitidos._\n"@
            } else {
                Seq::empty()
            }
        },
        _ => ind + scalar_text(v) + "\n"@,
    }
}

pub open spec fn fields_md(s: Seq<(String, Json)>, ind: Seq<char>) -> Seq<char>
    decreases s, 0nat,
{
    if s.len() == 0 {
        Seq::empty()
    } else {
        let f = s.last();
        fields_md(s.drop_last(), ind) + if is_nested(f.1) {
            ind + "- **"@ + f.0@ + ":**\n"@ + json_md(f.1, ind + "  "@)
        } else {
            ind + "- **"@ + f.0@ + ":** "@ + scalar_text(f.1) + "\n"@
        }
    }
}

fn push_item_label(out: &mut Vec<char>, v: &Json)
    ensures
        final(out)@ == old(out)@ + item_label(*v),
{
    match v.get("name") {
        Some(x) => push_scalar(out, x),
        None => match v.get("hostname") {
            Some(x) => push_scalar(out, x),
            None => match v.get("display_name") {
                Some(x) => push_scalar(out, x),
                None => extend_str(out, "item"),
            },
        },
    }
}

fn push_list_item(out: &mut Vec<char>, v: &Json, ind: &Vec<char>)
    ensures
        final(out)@ == old(out)@ + list_item(*v, ind@),
{
    let ghost o0 = out@;
    extend(out, ind);
    extend_str(out, "- ");
    match v {
        Json::Object(obj) => {
            push_item_label(out, v);
            extend_str(out, "\n");
            let ghost o1 = out@;
            let mut i: usize = 0;
            assert(out@ =~= o1 + item_fields(obj@.take(0), ind@));
            while i < obj.len()
                invariant
                    i <= obj@.len(),
                    out@ == o1 + item_fields(obj@.take(i as int), ind@),
                decreases obj@.len() - i,
            {
                assert(obj@.take(i + 1).drop_last() =~= obj@.take(i as int));
                assert(obj@.take(i + 1).last() == obj@[i as int]);
                let k = obj[i].0.as_str();
                if !(crate::text::str_eq(k, "name") || crate::text::str_eq(k, "hostname") || crate::text::str_eq(k, "display_name")) {
                    extend(out, ind);
                    extend_str(out, "  - ");
                    extend_str(out, k);
                    extend_str(out, ": ");
                    push_scalar(out, &obj[i].1);
                    extend_str(out, "\n");
                }
                proof {
                    reveal_strlit("");
                }
                assert(out@ =~= o1 + item_fields(obj@.take(i + 1), ind@));
                i = i + 1;
            }
            assert(obj@.take(obj@.len() as int) =~= obj@);
        },
        _ => {
            push_scalar(out, v);
            extend_str(out, "\n");
        },
    }
    assert(out@ =~= o0 + list_item(*v, ind@));
}

/// Appends a value as nested Markdown lists, each line after `ind`.
pub fn push_json_md(out: &mut Vec<char>, v: &Json, ind: &Vec<char>)
    ensures
        final(out)@ == old(out)@ + json_md(*v, ind@),
    decreases *v,
{
    let ghost o0 = out@;
    match v {
        Json::Object(fields) => {
            let mut i: usize = 0;
            assert(out@ =~= o0 + fields_md(fields@.take(0), ind@));
            while i < fields.len()
                invariant
                    i <= fields@.len(),
                    *v is Object,
                    (*v)->Object_0 == *fields,
                    out@ == o0 + fields_md(fields@.take(i as int), ind@),
                decreases fields@.len() - i,
            {
                assert(fields@.take(i + 1).drop_last() =~= fields@.take(i as int));
                assert(fields@.take(i + 1).last() == fields@[i as int]);
                let val = &fields[i].1;
                extend(out, ind);
                extend_str(out, "- **");
                extend_str(out, fields[i].0.as_str());
                let nested = match val {
                    Json::Object(_) => true,
                    Json::Array(_) => true,
                    _ => false,
                };
                if nested {
                    extend_str(out, ":**\n");
                    assert(decreases_to!(*v => (*v)->Object_0));
                    assert(decreases_to!(*fields => fields@));
                    assert(decreases_to!(fields@ => fields@[i as int]));
                    assert(decreases_to!(fields@[i as int] => fields@[i as int].1));
                    let mut deeper = ind.clone();
                    extend_str(&mut deeper, "  ");
                    push_json_md(out, val, &deeper);
                } else {
                    extend_str(out, ":** ");
                    push_scalar(out, val);
                    extend_str(out, "\n");
                }
                assert(out@ =~= o0 + fields_md(fields@.take(i + 1), ind@));
                i = i + 1;
            }
            assert(fields@.take(fields@.len() as int) =~= fields@);
        },
        Json::Array(items) => {
            let n = items.len();
            let limit = if n < 50 {
                n
            } else {
                50
            };
            let mut i: usize = 0;
            assert(out@ =~= o0 + list_items(items@.take(limit as int).take(0), ind@));
            while i < limit
                invariant
                    i <= limit,
                    limit <= items@.len(),
                    out@ == o0 + list_items(items@.take(limit as int).take(i as int), ind@),
                decreases limit - i,
            {
                let ghost t = items@.take(limit as int);
                assert(t.take(i + 1).drop_last() =~= t.take(i as int));
                assert(t.take(i + 1).last() == items@[i as int]);
                push_list_item(out, &items[i], ind);
                i = i + 1;
            }
            assert(items@.take(limit as int).take(limit as int) =~= items@.take(limit as int));
            if n > limit {
                extend(out, ind);
                extend_str(out, "_… mais ");
                let d = fmt_u64((n - limit) as u64);
                extend(out, &d);
                extend_str(out, " itens omitidos._\n");
            }
        },
        _ => {
            extend(out, ind);
            push_scalar(out, v);
            extend_str(out, "\n");
        },
    }
    proof {
        reveal_strlit("");
    }
    assert(out@ =~= o0 + json_md(*v, ind@));
}

// ---------------------------------------------------------------------------
// Certificates
// ---------------------------------------------------------------------------

/// `str::replace(pat, "")`: every occurrence of `pat`, left to right, removed.
pub open spec fn remove_all(s: Seq<char>, pat: Seq<char>) -> Seq<char>
    decreases s.len(),
{
    if s.len() == 0 {
        s
    } else if pat.len() > 0 && crate::text::starts_with(s, pat) {
        remove_all(s.skip(pat.len() as int), pat)
    } else {
        seq![s[0]] + remove_all(s.skip(1), pat)
    }
}

fn remove_all_v(s: &Vec<char>, pat: &Vec<char>) -> (r: Vec<char>)
    ensures
        r@ == remove_all(s@, pat@),
{
    let mut out: Vec<char> = Vec::new();
    let mut i: usize = 0;
    assert(s@.skip(0) =~= s@);
    while i < s.len()
        invariant
            i <= s@.len(),
            out@ + remove_all(s@.skip(i as int), pat@) == remove_all(s@, pat@),
        decreases s@.len() - i,
    {
        let ghost rest = s@.skip(i as int);
        if pat.len() > 0 && crate::text::occurs_at_v(s, pat, i) {
            assert(crate::text::starts_with(rest, pat@)) by {
                assert(rest.take(pat@.len() as int) =~= s@.subrange(i as int, i + pat@.len()));
            }
            assert(rest.skip(pat@.len() as int) =~= s@.skip(i + pat@.len()));
            i = i + pat.len();
        } else {
            assert(!(pat@.len() > 0 && crate::text::starts_with(rest, pat@))) by {
                if pat@.len() > 0 && crate::text::starts_with(rest, pat@) {
                    assert(rest.take(pat@.len() as int) =~= s@.subrange(i as int, i + pat@.len()));
                }
            }
            assert(rest.skip(1) =~= s@.skip(i + 1));
            let ghost o0 = out@;
            out.push(s[i]);
            assert(out@ + remove_all(s@.skip(i + 1), pat@) =~= o0 + (seq![rest[0]] + remove_all(rest.skip(1), pat@)));
            i = i + 1;
        }
    }
    assert(remove_all(s@.skip(i as int), pat@) =~= Seq::<char>::empty());
    assert(out@ =~= out@ + Seq::<char>::empty());
    out
}

/// What de-duplicates certificates: the thumbprint, else the subject.
pub open spec fn cert_id(c: Json) -> Seq<char> {
    match get_str(c, "thumbprint"@) {
        Some(t) => t,
        None => str_or(c, "subject"@, ""@),
    }
}

/// The certificates in the order expired, expiring, all; the first of each id.
pub open spec fn unique_certs(cs: Seq<Json>) -> Seq<Json>
    decreases cs.len(),
{
    if cs.len() == 0 {
        cs
    } else {
        let u = unique_certs(cs.drop_last());
        if exists|i: int| 0 <= i < u.len() && cert_id(#[trigger] u[i]) == cert_id(cs.last()) {
            u
        } else {
            u.push(cs.last())
        }
    }
}

pub open spec fn report_certs(data: Json) -> Seq<Json> {
    array_or_empty(data, "expired"@) + array_or_empty(data, "expiring_soon"@) + array_or_empty(data, "certificates"@)
}

/// The name of a corporate certificate: its common name, else its subject.
pub open spec fn cert_cn(subject: Seq<char>) -> Seq<char> {
    if crate::text::starts_with(subject, "CN="@) {
        crate::text::before_char(subject.skip(3), ',')
    } else {
        subject
    }
}

pub open spec fn validity_text(days: i64) -> Seq<char> {
    if days < 0 {
        "Expirado ("@ + int_digits(days as int) + "d)"@
    } else if days <= 30 {
        "Expira em "@ + int_digits(days as int) + "d"@
    } else {
        "Válido ("@ + int_digits(days as int) + "d)"@
    }
}

/// A corporate certificate's row: name, days left, validity text and store.
pub type CorpRow = (Seq<char>, i64, Seq<char>, Seq<char>);

pub open spec fn corp_row(c: Json) -> CorpRow {
    let days = match get_i64(c, "days_left"@) {
        Some(d) => d,
        None => 9999,
    };
    (
        cert_cn(str_or(c, "subject"@, "?"@)),
        days,
        validity_text(days),
        remove_all(str_or(c, "store"@, ""@), "Cert:\\"@),
    )
}

/// One row per name, in order of first appearance, with the lowest days left (and
/// its text) and the store of the first certificate of that name.
pub open spec fn corp_upsert(m: Seq<CorpRow>, r: CorpRow) -> Seq<CorpRow> {
    if exists|i: int| 0 <= i < m.len() && (#[trigger] m[i]).0 == r.0 {
        let i = choose|i: int|
            0 <= i < m.len() && (#[trigger] m[i]).0 == r.0 && forall|k: int| 0 <= k < i ==> (#[trigger] m[k]).0 != r.0;
        if r.1 < m[i].1 {
            m.update(i, (m[i].0, r.1, r.2, m[i].3))
        } else {
            m
        }
    } else {
        m.push(r)
    }
}

pub open spec fn corp_rows(cs: Seq<Json>) -> Seq<CorpRow>
    decreases cs.len(),
{
    if cs.len() == 0 {
        Seq::empty()
    } else {
        let m = corp_rows(cs.drop_last());
        if classify_spec(cs.last()) == CertClass::Corporate {
            corp_upsert(m, corp_row(cs.last()))
        } else {
            m
        }
    }
}

pub open spec fn class_count(cs: Seq<Json>, k: CertClass) -> nat
    decreases cs.len(),
{
    if cs.len() == 0 {
        0
    } else {
        class_count(cs.drop_last(), k) + if classify_spec(cs.last()) == k {
            1nat
        } else {
            0nat
        }
    }
}

pub open spec fn rows_where(m: Seq<CorpRow>, expired: bool) -> nat
    decreases m.len(),
{
    if m.len() == 0 {
        0
    } else {
        let d = m.last().1;
        rows_where(m.drop_last(), expired) + if (expired && d < 0) || (!expired && d >= 0 && d <= 30) {
            1nat
        } else {
            0nat
        }
    }
}

pub open spec fn insert_by_days(s: Seq<CorpRow>, x: CorpRow) -> Seq<CorpRow>
    decreases s.len(),
{
    if s.len() == 0 {
        seq![x]
    } else if x.1 < s.last().1 {
        insert_by_days(s.drop_last(), x).push(s.last())
    } else {
        s.push(x)
    }
}

/// The stable sort by days left (`sort_by_key`).
pub open spec fn sort_by_days(s: Seq<CorpRow>) -> Seq<CorpRow>
    decreases s.len(),
{
    if s.len() == 0 {
        s
    } else {
        insert_by_days(sort_by_days(s.drop_last()), s.last())
    }
}

pub open spec fn row_lines(s: Seq<CorpRow>) -> Seq<char>
    decreases s.len(),
{
    if s.len() == 0 {
        Seq::empty()
    } else {
        row_lines(s.drop_last()) + "| "@ + s.last().0 + " | "@ + s.last().2 + " | "@ + s.last().3 + " |\n"@
    }
}

/// The opening lines of the certificates section: the total and a summary by class.
pub open spec fn cert_head(total: nat, expired: nat, soon: nat, self_signed: nat, root: nat) -> Seq<char> {
    "- **Total coletado:** "@ + nat_digits(total) + "\n\n"@ + "**Resumo:** Corporativos expirados: "@
        + nat_digits(expired) + " · Expirando: "@ + nat_digits(soon) + " · Autoassinados: "@
        + nat_digits(self_signed) + " · Raiz/histórico: "@ + nat_digits(root) + " (ignorados no score)\n\n"@
}

/// The table of corporate certificates, or a note that there are none.
pub open spec fn cert_table(shown: Seq<CorpRow>) -> Seq<char> {
    if shown.len() > 0 {
        "**Certificados corporativos (e-CNPJ / ICP-Brasil):**\n\n"@ + "| Nome | Validade | Store |\n"@
            + "|------|----------|-------|\n"@ + row_lines(shown) + "\n"@
    } else {
        "_Nenhum certificado corporativo detectado em My._\n\n"@
    }
}

/// The certificates section: the total, a summary by class, and the corporate
/// certificates (first 15 by days left).
pub open spec fn certificates_md(data: Json) -> Seq<char> {
    let certs = unique_certs(report_certs(data));
    let m = corp_rows(certs);
    let sorted = sort_by_days(m);
    let shown = if sorted.len() <= 15 {
        sorted
    } else {
        sorted.take(15)
    };
    let total = match get_u64(data, "total_count"@) {
        Some(n) => n as nat,
        None => 0,
    };
    cert_head(
        total,
        rows_where(m, true),
        rows_where(m, false),
        class_count(certs, CertClass::SelfSigned),
        class_count(certs, CertClass::RootHistorical),
    ) + cert_table(shown) + "_Lista completa de raízes Windows omitida — são inventário histórico._\n"@
}

pub type CorpRows = Vec<(Vec<char>, i64, Vec<char>, Vec<char>)>;

pub open spec fn corp_view(m: Seq<(Vec<char>, i64, Vec<char>, Vec<char>)>) -> Seq<CorpRow> {
    m.map_values(|t: (Vec<char>, i64, Vec<char>, Vec<char>)| (t.0@, t.1, t.2@, t.3@))
}

fn cert_id_v(c: &Json) -> (r: Vec<char>)
    ensures
        r@ == cert_id(*c),
{
    match json_str(c, "thumbprint") {
        Some(t) => chars(t),
        None => str_or_v(c, "subject", ""),
    }
}

pub open spec fn derefs(s: Seq<&Json>) -> Seq<Json> {
    s.map_values(|r: &Json| *r)
}

fn unique_certs_v<'a>(data: &'a Json, empty: &'a Vec<Json>) -> (r: Vec<&'a Json>)
    requires
        empty@.len() == 0,
    ensures
        derefs(r@) == unique_certs(report_certs(*data)),
{
    let a1 = array_or_empty_v(data, "expired", empty);
    let a2 = array_or_empty_v(data, "expiring_soon", empty);
    let a3 = array_or_empty_v(data, "certificates", empty);
    let ghost all = report_certs(*data);
    let mut out: Vec<&Json> = Vec::new();
    let mut ids: Vec<Vec<char>> = Vec::new();
    let mut k: usize = 0;
    let ghost mut done: int = 0;
    assert(derefs(out@) =~= unique_certs(all.take(0)));
    while k < 3
        invariant
            k <= 3,
            all == a1@ + a2@ + a3@,
            done == if k == 0 {
                0
            } else if k == 1 {
                a1@.len() as int
            } else if k == 2 {
                (a1@.len() + a2@.len()) as int
            } else {
                all.len() as int
            },
            derefs(out@) == unique_certs(all.take(done)),
            ids@.len() == out@.len(),
            forall|m: int| 0 <= m < out@.len() ==> #[trigger] ids@[m]@ == cert_id(*out@[m]),
        decreases 3 - k,
    {
        let arr = if k == 0 {
            a1
        } else if k == 1 {
            a2
        } else {
            a3
        };
        let mut i: usize = 0;
        while i < arr.len()
            invariant
                i <= arr@.len(),
                0 <= done,
                done + arr@.len() <= all.len(),
                forall|m: int| 0 <= m < arr@.len() ==> #[trigger] all[done + m] == arr@[m],
                derefs(out@) == unique_certs(all.take(done + i)),
                ids@.len() == out@.len(),
                forall|m: int| 0 <= m < out@.len() ==> #[trigger] ids@[m]@ == cert_id(*out@[m]),
            decreases arr@.len() - i,
        {
            let c = &arr[i];
            let id = cert_id_v(c);
            assert(all.take(done + i + 1).drop_last() =~= all.take(done + i));
            assert(all.take(done + i + 1).last() == arr@[i as int]);
            let mut found = false;
            let mut m: usize = 0;
            while m < ids.len() && !found
                invariant
                    m <= ids@.len(),
                    ids@.len() == out@.len(),
                    forall|q: int| 0 <= q < out@.len() ==> #[trigger] ids@[q]@ == cert_id(*out@[q]),
                    !found ==> forall|q: int| 0 <= q < m ==> cert_id(*(#[trigger] out@[q])) != id@,
                    found ==> exists|q: int| 0 <= q < out@.len() && cert_id(*(#[trigger] out@[q])) == id@,
                decreases ids@.len() - m + (if found { 0int } else { 1int }),
            {
                if crate::text::eq_v(&ids[m], &id) {
                    assert(cert_id(*out@[m as int]) == id@);
                    found = true;
                } else {
                    m = m + 1;
                }
            }
            proof {
                let u = derefs(out@);
                if found {
                    let q = choose|q: int| 0 <= q < out@.len() && cert_id(*(#[trigger] out@[q])) == id@;
                    assert(u[q] == *out@[q]);
                } else {
                    assert forall|q: int| 0 <= q < u.len() implies cert_id(#[trigger] u[q]) != cert_id(arr@[i as int]) by {
                        assert(u[q] == *out@[q]);
                    }
                }
            }
            if !found {
                let ghost o0 = out@;
                out.push(c);
                ids.push(id);
                assert(derefs(out@) =~= derefs(o0).push(*c));
            }
            i = i + 1;
        }
        proof {
            if k == 0 {
                assert(arr@ == a1@);
            }
            done = done + arr@.len();
        }
        k = k + 1;
    }
    assert(all.take(all.len() as int) =~= all);
    out
}

fn cert_cn_v(subject: &Vec<char>) -> (r: Vec<char>)
    ensures
        r@ == cert_cn(subject@),
{
    let p = chars("CN=");
    if crate::text::starts_with_v(subject, &p) {
        proof {
            reveal_strlit("CN=");
        }
        let rest = crate::text::copy_range(subject, 3, subject.len());
        crate::text::before_char_v(&rest, ',')
    } else {
        crate::text::copy_range(subject, 0, subject.len())
    }
}

fn validity_text_v(days: i64) -> (r: Vec<char>)
    ensures
        r@ == validity_text(days),
{
    let d = fmt_i64(days);
    let mut t = if days < 0 {
        chars("Expirado (")
    } else if days <= 30 {
        chars("Expira em ")
    } else {
        chars("Válido (")
    };
    extend(&mut t, &d);
    if days <= 30 && days >= 0 {
        extend_str(&mut t, "d");
    } else {
        extend_str(&mut t, "d)");
    }
    t
}

fn corp_row_v(c: &Json) -> (r: (Vec<char>, i64, Vec<char>, Vec<char>))
    ensures
        (r.0@, r.1, r.2@, r.3@) == corp_row(*c),
{
    let days = match json_i64(c, "days_left") {
        Some(d) => d,
        None => 9999,
    };
    let subject = str_or_v(c, "subject", "?");
    let store = str_or_v(c, "store", "");
    let pat = chars("Cert:\\");
    (cert_cn_v(&subject), days, validity_text_v(days), remove_all_v(&store, &pat))
}

fn corp_upsert_v(m: &mut CorpRows, row: (Vec<char>, i64, Vec<char>, Vec<char>))
    ensures
        corp_view(final(m)@) == corp_upsert(corp_view(old(m)@), (row.0@, row.1, row.2@, row.3@)),
        final(m)@.len() <= old(m)@.len() + 1,
{
    let ghost mv = corp_view(m@);
    let ghost rv = (row.0@, row.1, row.2@, row.3@);
    let mut i: usize = 0;
    while i < m.len()
        invariant
            i <= m@.len(),
            *m == *old(m),
            mv == corp_view(m@),
            rv == (row.0@, row.1, row.2@, row.3@),
            forall|k: int| 0 <= k < i ==> (#[trigger] mv[k]).0 != rv.0,
        decreases m@.len() - i,
    {
        assert(mv[i as int] == (m@[i as int].0@, m@[i as int].1, m@[i as int].2@, m@[i as int].3@));
        if crate::text::eq_v(&m[i].0, &row.0) {
            proof {
                let w = choose|k: int|
                    0 <= k < mv.len() && (#[trigger] mv[k]).0 == rv.0 && forall|q: int| 0 <= q < k ==> (#[trigger] mv[q]).0 != rv.0;
                assert(mv[i as int].0 == rv.0);
                assert(0 <= w < mv.len() && mv[w].0 == rv.0 && forall|q: int| 0 <= q < w ==> (#[trigger] mv[q]).0 != rv.0);
                if w < i {
                    assert(mv[w].0 != rv.0);
                } else if w > i {
                    assert(mv[i as int].0 != rv.0);
                }
                assert(w == i);
            }
            if row.1 < m[i].1 {
                let old_entry = m[i].0.clone();
                let store = m[i].3.clone();
                m.set(i, (old_entry, row.1, row.2, store));
                assert(corp_view(m@) =~= mv.update(i as int, (mv[i as int].0, rv.1, rv.2, mv[i as int].3)));
            }
            return;
        }
        i = i + 1;
    }
    m.push(row);
    assert(corp_view(m@) =~= mv.push(rv));
}

proof fn lemma_insert_at(s: Seq<CorpRow>, x: CorpRow, p: int)
    requires
        0 <= p <= s.len(),
        forall|k: int| p <= k < s.len() ==> x.1 < (#[trigger] s[k]).1,
        p == 0 || !(x.1 < s[p - 1].1),
    ensures
        insert_by_days(s, x) == s.insert(p, x),
    decreases s.len(),
{
    if s.len() == 0 {
        assert(s.insert(p, x) =~= seq![x]);
    } else if p == s.len() {
        assert(s.insert(p, x) =~= s.push(x));
    } else {
        assert(x.1 < s[s.len() - 1].1);
        let d = s.drop_last();
        assert forall|k: int| p <= k < d.len() implies x.1 < (#[trigger] d[k]).1 by {
            assert(d[k] == s[k]);
        }
        if p > 0 {
            assert(d[p - 1] == s[p - 1]);
        }
        lemma_insert_at(d, x, p);
        assert(d.insert(p, x).push(s.last()) =~= s.insert(p, x));
    }
}

fn insert_by_days_v(s: &mut CorpRows, x: (Vec<char>, i64, Vec<char>, Vec<char>))
    ensures
        corp_view(final(s)@) == insert_by_days(corp_view(old(s)@), (x.0@, x.1, x.2@, x.3@)),
{
    let ghost sv = corp_view(s@);
    let ghost xv = (x.0@, x.1, x.2@, x.3@);
    let mut p: usize = s.len();
    while p > 0 && x.1 < s[p - 1].1
        invariant
            p <= s@.len(),
            sv == corp_view(s@),
            forall|k: int| p <= k < s@.len() ==> x.1 < (#[trigger] sv[k]).1,
        decreases p,
    {
        assert(sv[p - 1] == (s@[p - 1].0@, s@[p - 1].1, s@[p - 1].2@, s@[p - 1].3@));
        p = p - 1;
    }
    proof {
        if p > 0 {
            assert(sv[p - 1] == (s@[p - 1].0@, s@[p - 1].1, s@[p - 1].2@, s@[p - 1].3@));
        }
        lemma_insert_at(sv, xv, p as int);
    }
    s.insert(p, x);
    assert(corp_view(s@) =~= sv.insert(p as int, xv));
}

fn copy_row(r: &(Vec<char>, i64, Vec<char>, Vec<char>)) -> (c: (Vec<char>, i64, Vec<char>, Vec<char>))
    ensures
        (c.0@, c.1, c.2@, c.3@) == (r.0@, r.1, r.2@, r.3@),
{
    (r.0.clone(), r.1, r.2.clone(), r.3.clone())
}

fn sort_by_days_v(m: &CorpRows) -> (r: CorpRows)
    ensures
        corp_view(r@) == sort_by_days(corp_view(m@)),
{
    let ghost mv = corp_view(m@);
    let mut out: CorpRows = Vec::new();
    let mut i: usize = 0;
    assert(corp_view(out@) =~= sort_by_days(mv.take(0)));
    while i < m.len()
        invariant
            i <= m@.len(),
            mv == corp_view(m@),
            corp_view(out@) == sort_by_days(mv.take(i as int)),
        decreases m@.len() - i,
    {
        assert(mv.take(i + 1).drop_last() =~= mv.take(i as int));
        assert(mv.take(i + 1).last() == mv[i as int]);
        assert(mv[i as int] == (m@[i as int].0@, m@[i as int].1, m@[i as int].2@, m@[i as int].3@));
        let row = copy_row(&m[i]);
        insert_by_days_v(&mut out, row);
        i = i + 1;
    }
    assert(mv.take(m@.len() as int) =~= mv);
    out
}

fn rows_where_v(m: &CorpRows, expired: bool) -> (n: u64)
    requires
        m@.len() <= u64::MAX,
    ensures
        n == rows_where(corp_view(m@), expired),
{
    let ghost mv = corp_view(m@);
    let mut n: u64 = 0;
    let mut i: usize = 0;
    assert(mv.take(0) =~= Seq::<CorpRow>::empty());
    while i < m.len()
        invariant
            i <= m@.len(),
            m@.len() <= u64::MAX,
            mv == corp_view(m@),
            n == rows_where(mv.take(i as int), expired),
            n <= i,
        decreases m@.len() - i,
    {
        assert(mv.take(i + 1).drop_last() =~= mv.take(i as int));
        assert(mv.take(i + 1).last() == mv[i as int]);
        assert(mv[i as int].1 == m@[i as int].1);
        let d = m[i].1;
        if (expired && d < 0) || (!expired && d >= 0 && d <= 30) {
            n = n + 1;
        }
        i = i + 1;
    }
    assert(mv.take(m@.len() as int) =~= mv);
    n
}

fn push_row_lines(out: &mut Vec<char>, m: &CorpRows, n: usize)
    requires
        n <= m@.len(),
    ensures
        final(out)@ == old(out)@ + row_lines(corp_view(m@).take(n as int)),
{
    let ghost mv = corp_view(m@);
    let ghost o0 = out@;
    let mut i: usize = 0;
    assert(mv.take(0) =~= Seq::<CorpRow>::empty());
    assert(out@ =~= o0 + row_lines(mv.take(0)));
    while i < n
        invariant
            i <= n <= m@.len(),
            mv == corp_view(m@),
            out@ == o0 + row_lines(mv.take(i as int)),
        decreases n - i,
    {
        assert(mv.take(i + 1).drop_last() =~= mv.take(i as int));
        assert(mv.take(i + 1).last() == mv[i as int]);
        assert(mv[i as int] == (m@[i as int].0@, m@[i as int].1, m@[i as int].2@, m@[i as int].3@));
        let ghost before = out@;
        extend_str(out, "| ");
        extend(out, &m[i].0);
        extend_str(out, " | ");
        extend(out, &m[i].2);
        extend_str(out, " | ");
        extend(out, &m[i].3);
        extend_str(out, " |\n");
        assert(out@ =~= before + ("| "@ + mv[i as int].0 + " | "@ + mv[i as int].2 + " | "@ + mv[i as int].3 + " |\n"@));
        i = i + 1;
    }
}

fn push_cert_head(out: &mut Vec<char>, total: u64, expired: u64, soon: u64, self_signed: u64, root: u64)
    ensures
        final(out)@ == old(out)@ + cert_head(total as nat, expired as nat, soon as nat, self_signed as nat, root as nat),
{
    let ghost o0 = out@;
    extend_str(out, "- **Total coletado:** ");
    extend(out, &fmt_u64(total));
    extend_str(out, "\n\n");
    extend_str(out, "**Resumo:** Corporativos expirados: ");
    extend(out, &fmt_u64(expired));
    extend_str(out, " · Expirando: ");
    extend(out, &fmt_u64(soon));
    extend_str(out, " · Autoassinados: ");
    extend(out, &fmt_u64(self_signed));
    extend_str(out, " · Raiz/histórico: ");
    extend(out, &fmt_u64(root));
    extend_str(out, " (ignorados no score)\n\n");
    assert(out@ =~= o0 + cert_head(total as nat, expired as nat, soon as nat, self_signed as nat, root as nat));
}

fn push_cert_table(out: &mut Vec<char>, sorted: &CorpRows, n: usize)
    requires
        n <= sorted@.len(),
    ensures
        final(out)@ == old(out)@ + cert_table(corp_view(sorted@).take(n as int)),
{
    let ghost o0 = out@;
    if n > 0 {
        extend_str(out, "**Certificados corporativos (e-CNPJ / ICP-Brasil):**\n\n");
        extend_str(out, "| Nome | Validade | Store |\n");
        extend_str(out, "|------|----------|-------|\n");
        push_row_lines(out, sorted, n);
        extend_str(out, "\n");
    } else {
        extend_str(out, "_Nenhum certificado corporativo detectado em My._\n\n");
    }
    assert(out@ =~= o0 + cert_table(corp_view(sorted@).take(n as int)));
}

/// The certificates section of the report.
pub fn certificates_to_markdown(data: &Json) -> (r: String)
    ensures
        r@ == certificates_md(*data),
{
    let empty: Vec<Json> = Vec::new();
    let certs = unique_certs_v(data, &empty);
    let ghost cs = derefs(certs@);
    let mut m: CorpRows = Vec::new();
    let mut self_signed: u64 = 0;
    let mut root: u64 = 0;
    let mut i: usize = 0;
    assert(cs.take(0) =~= Seq::<Json>::empty());
    while i < certs.len()
        invariant
            i <= certs@.len(),
            cs == derefs(certs@),
            corp_view(m@) == corp_rows(cs.take(i as int)),
            self_signed == class_count(cs.take(i as int), CertClass::SelfSigned),
            root == class_count(cs.take(i as int), CertClass::RootHistorical),
            self_signed <= i,
            root <= i,
            m@.len() <= i,
        decreases certs@.len() - i,
    {
        let c: &Json = certs[i];
        assert(cs[i as int] == *c);
        assert(cs.take(i + 1).drop_last() =~= cs.take(i as int));
        assert(cs.take(i + 1).last() == *c);
        match classify_certificate(c) {
            CertClass::Corporate => {
                let row = corp_row_v(c);
                corp_upsert_v(&mut m, row);
            },
            CertClass::SelfSigned => {
                self_signed = self_signed + 1;
            },
            CertClass::RootHistorical => {
                root = root + 1;
            },
            CertClass::Other => {},
        }
        i = i + 1;
    }
    assert(cs.take(certs@.len() as int) =~= cs);
    let corp_exp = rows_where_v(&m, true);
    let corp_soon = rows_where_v(&m, false);
    let sorted = sort_by_days_v(&m);
    let ghost sv = corp_view(sorted@);
    proof {
        lemma_sort_len(corp_view(m@));
    }
    let n = if sorted.len() <= 15 {
        sorted.len()
    } else {
        15
    };
    let total = match json_u64(data, "total_count") {
        Some(t) => t,
        None => 0,
    };
    let mut md: Vec<char> = Vec::new();
    push_cert_head(&mut md, total, corp_exp, corp_soon, self_signed, root);
    push_cert_table(&mut md, &sorted, n);
    extend_str(&mut md, "_Lista completa de raízes Windows omitida — são inventário histórico._\n");
    proof {
        let shown = if sv.len() <= 15 {
            sv
        } else {
            sv.take(15)
        };
        assert(sv.take(n as int) =~= shown);
    }
    assert(md@ =~= certificates_md(*data));
    to_string(&md)
}

proof fn lemma_insert_len(s: Seq<CorpRow>, x: CorpRow)
    ensures
        insert_by_days(s, x).len() == s.len() + 1,
    decreases s.len(),
{
    if s.len() > 0 {
        lemma_insert_len(s.drop_last(), x);
    }
}

proof fn lemma_sort_len(s: Seq<CorpRow>)
    ensures
        sort_by_days(s).len() == s.len(),
    decreases s.len(),
{
    if s.len() > 0 {
        lemma_sort_len(s.drop_last());
        lemma_insert_len(sort_by_days(s.drop_last()), s.last());
    }
}

// ---------------------------------------------------------------------------
// One line per listed item
// ---------------------------------------------------------------------------

/// A value under `key` as a report shows it, or `default` where the key is absent.
pub open spec fn scalar_or(v: Json, key: Seq<char>, default: Seq<char>) -> Seq<char> {
    match v.get_spec(key) {
        Some(x) => scalar_text(x),
        None => default,
    }
}

/// The string under `k1`, else the string under `k2`, else `default`.
pub open spec fn str_or_else(v: Json, k1: Seq<char>, k2: Seq<char>, default: Seq<char>) -> Seq<char> {
    match get_str(v, k1) {
        Some(s) => s,
        None => str_or(v, k2, default),
    }
}

/// A program's name: the value under `name` (else `display_name`) if it is a string.
pub open spec fn program_name(p: Json) -> Seq<char> {
    let n = match p.get_spec("name"@) {
        Some(x) => Some(x),
        None => p.get_spec("display_name"@),
    };
    match n {
        Some(x) => match x.str_spec() {
            Some(s) => s,
            None => "?"@,
        },
        None => "?"@,
    }
}

/// The kinds of listed items a section writes one line for.
#[derive(Clone, Copy, PartialEq, Eq, Structural)]
pub enum LineKind {
    Browser,
    StandardApp,
    Program,
    DiskSample,
    Temperature,
    TopCpu,
    Reliability,
    Timeline,
    CriticalApp,
    DiskEvent,
    Stability,
}

pub open spec fn line_of(k: LineKind, j: Json) -> Seq<char> {
    match k {
        LineKind::Browser => "- **Navegador:** "@ + str_or(j, "name"@, "?"@) + " v"@ + str_or(j, "version"@, "—"@) + "\n"@,
        LineKind::StandardApp => "| "@ + str_or(j, "label"@, "?"@) + " | "@ + (if get_bool(j, "installed"@) == Some(true) {
            "Instalado"@
        } else {
            "Ausente"@
        }) + " |\n"@,
        LineKind::Program => {
            let ver = str_or(j, "version"@, ""@);
            "- "@ + program_name(j) + (if ver.len() == 0 {
                Seq::empty()
            } else {
                " v"@ + ver
            }) + "\n"@
        },
        LineKind::DiskSample => "- "@ + str_or(j, "time"@, "—"@) + ": "@ + scalar_or(j, "value"@, "—"@) + "%\n"@,
        LineKind::Temperature => "- "@ + str_or(j, "source"@, "—"@) + " "@ + str_or(j, "instance"@, ""@) + ": "@
            + scalar_or(j, "celsius"@, "—"@) + "°C\n"@,
        LineKind::TopCpu => "- "@ + str_or(j, "name"@, "?"@) + " ("@ + scalar_or(j, "memory_mb"@, ""@) + " MB RAM)\n"@,
        LineKind::Reliability => "- "@ + str_or(j, "time"@, "—"@) + " — "@ + str_or(j, "record_type"@, "—"@) + ": "@
            + str_or(j, "product"@, "—"@) + "\n"@,
        LineKind::Timeline => "- "@ + str_or(j, "time"@, "—"@) + " — **"@ + str_or(j, "category"@, "—"@) + "** — "@
            + str_or_else(j, "title"@, "message"@, "—"@) + "\n"@,
        LineKind::CriticalApp => "- "@ + str_or(j, "time"@, "—"@) + " — "@ + str_or(j, "app_label"@, "—"@) + " (ID "@
            + scalar_or(j, "event_id"@, "—"@) + "): "@ + str_or(j, "message"@, "—"@) + "\n"@,
        LineKind::DiskEvent => "- "@ + str_or(j, "time"@, "—"@) + " — "@ + str_or_else(j, "summary"@, "message"@, "—"@) + "\n"@,
        LineKind::Stability => "- "@ + str_or(j, "time"@, "—"@) + " — "@ + str_or(j, "summary"@, "—"@) + "\n"@,
    }
}

pub open spec fn lines(s: Seq<Json>, k: LineKind) -> Seq<char>
    decreases s.len(),
{
    if s.len() == 0 {
        Seq::empty()
    } else {
        lines(s.drop_last(), k) + line_of(k, s.last())
    }
}

/// The first `n` items, or all of them where there are fewer.
pub open spec fn first_n<T>(s: Seq<T>, n: nat) -> Seq<T> {
    if s.len() <= n {
        s
    } else {
        s.take(n as int)
    }
}

fn push_scalar_or(out: &mut Vec<char>, v: &Json, key: &str, default: &str)
    ensures
        final(out)@ == old(out)@ + scalar_or(*v, key@, default@),
{
    match v.get(key) {
        Some(x) => push_scalar(out, x),
        None => extend_str(out, default),
    }
}

pub fn push_str_or(out: &mut Vec<char>, v: &Json, key: &str, default: &str)
    ensures
        final(out)@ == old(out)@ + str_or(*v, key@, default@),
{
    let t = str_or_v(v, key, default);
    extend(out, &t);
}

fn push_str_or_else(out: &mut Vec<char>, v: &Json, k1: &str, k2: &str, default: &str)
    ensures
        final(out)@ == old(out)@ + str_or_else(*v, k1@, k2@, default@),
{
    match json_str(v, k1) {
        Some(t) => extend_str(out, t),
        None => push_str_or(out, v, k2, default),
    }
}

fn push_program_name(out: &mut Vec<char>, p: &Json)
    ensures
        final(out)@ == old(out)@ + program_name(*p),
{
    let n = match p.get("name") {
        Some(x) => Some(x),
        None => p.get("display_name"),
    };
    match n {
        Some(x) => match x.as_str() {
            Some(t) => extend_str(out, t),
            None => extend_str(out, "?"),
        },
        None => extend_str(out, "?"),
    }
}

fn push_line_browser(out: &mut Vec<char>, j: &Json)
    ensures
        final(out)@ == old(out)@ + line_of(LineKind::Browser, *j),
{
    let ghost o0 = out@;
        extend_str(out, "- **Navegador:** ");
        push_str_or(out, j, "name", "?");
        extend_str(out, " v");
        push_str_or(out, j, "version", "—");
        extend_str(out, "\n");
    proof {
        reveal_strlit("");
    }
    assert(out@ =~= o0 + line_of(LineKind::Browser, *j));
}

fn push_line_standard_app(out: &mut Vec<char>, j: &Json)
    ensures
        final(out)@ == old(out)@ + line_of(LineKind::StandardApp, *j),
{
    let ghost o0 = out@;
        extend_str(out, "| ");
        push_str_or(out, j, "label", "?");
        extend_str(out, " | ");
        let ok = match json_bool(j, "installed") {
            Some(b) => b,
            None => false,
        };
        if ok {
            extend_str(out, "Instalado");
        } else {
            extend_str(out, "Ausente");
        }
        extend_str(out, " |\n");
    proof {
        reveal_strlit("");
    }
    assert(out@ =~= o0 + line_of(LineKind::StandardApp, *j));
}

fn push_line_program(out: &mut Vec<char>, j: &Json)
    ensures
        final(out)@ == old(out)@ + line_of(LineKind::Program, *j),
{
    let ghost o0 = out@;
        extend_str(out, "- ");
        push_program_name(out, j);
        let ver = str_or_v(j, "version", "");
        if ver.len() > 0 {
            extend_str(out, " v");
            extend(out, &ver);
        }
        extend_str(out, "\n");
    proof {
        reveal_strlit("");
    }
    assert(out@ =~= o0 + line_of(LineKind::Program, *j));
}

fn push_line_disk_sample(out: &mut Vec<char>, j: &Json)
    ensures
        final(out)@ == old(out)@ + line_of(LineKind::DiskSample, *j),
{
    let ghost o0 = out@;
        extend_str(out, "- ");
        push_str_or(out, j, "time", "—");
        extend_str(out, ": ");
        push_scalar_or(out, j, "value", "—");
        extend_str(out, "%\n");
    proof {
        reveal_strlit("");
    }
    assert(out@ =~= o0 + line_of(LineKind::DiskSample, *j));
}

fn push_line_temperature(out: &mut Vec<char>, j: &Json)
    ensures
        final(out)@ == old(out)@ + line_of(LineKind::Temperature, *j),
{
    let ghost o0 = out@;
        extend_str(out, "- ");
        push_str_or(out, j, "source", "—");
        extend_str(out, " ");
        push_str_or(out, j, "instance", "");
        extend_str(out, ": ");
        push_scalar_or(out, j, "celsius", "—");
        extend_str(out, "°C\n");
    proof {
        reveal_strlit("");
    }
    assert(out@ =~= o0 + line_of(LineKind::Temperature, *j));
}

fn push_line_top_cpu(out: &mut Vec<char>, j: &Json)
    ensures
        final(out)@ == old(out)@ + line_of(LineKind::TopCpu, *j),
{
    let ghost o0 = out@;
        extend_str(out, "- ");
        push_str_or(out, j, "name", "?");
        extend_str(out, " (");
        push_scalar_or(out, j, "memory_mb", "");
        extend_str(out, " MB RAM)\n");
    proof {
        reveal_strlit("");
    }
    assert(out@ =~= o0 + line_of(LineKind::TopCpu, *j));
}

fn push_line_reliability(out: &mut Vec<char>, j: &Json)
    ensures
        final(out)@ == old(out)@ + line_of(LineKind::Reliability, *j),
{
    let ghost o0 = out@;
        extend_str(out, "- ");
        push_str_or(out, j, "time", "—");
        extend_str(out, " — ");
        push_str_or(out, j, "record_type", "—");
        extend_str(out, ": ");
        push_str_or(out, j, "product", "—");
        extend_str(out, "\n");
    proof {
        reveal_strlit("");
    }
    assert(out@ =~= o0 + line_of(LineKind::Reliability, *j));
}

fn push_line_timeline(out: &mut Vec<char>, j: &Json)
    ensures
        final(out)@ == old(out)@ + line_of(LineKind::Timeline, *j),
{
    let ghost o0 = out@;
        extend_str(out, "- ");
        push_str_or(out, j, "time", "—");
        extend_str(out, " — **");
        push_str_or(out, j, "category", "—");
        extend_str(out, "** — ");
        push_str_or_else(out, j, "title", "message", "—");
        extend_str(out, "\n");
    proof {
        reveal_strlit("");
    }
    assert(out@ =~= o0 + line_of(LineKind::Timeline, *j));
}

fn push_line_critical_app(out: &mut Vec<char>, j: &Json)
    ensures
        final(out)@ == old(out)@ + line_of(LineKind::CriticalApp, *j),
{
    let ghost o0 = out@;
        extend_str(out, "- ");
        push_str_or(out, j, "time", "—");
        extend_str(out, " — ");
        push_str_or(out, j, "app_label", "—");
        extend_str(out, " (ID ");
        push_scalar_or(out, j, "event_id", "—");
        extend_str(out, "): ");
        push_str_or(out, j, "message", "—");
        extend_str(out, "\n");
    proof {
        reveal_strlit("");
    }
    assert(out@ =~= o0 + line_of(LineKind::CriticalApp, *j));
}

fn push_line_disk_event(out: &mut Vec<char>, j: &Json)
    ensures
        final(out)@ == old(out)@ + line_of(LineKind::DiskEvent, *j),
{
    let ghost o0 = out@;
        extend_str(out, "- ");
        push_str_or(out, j, "time", "—");
        extend_str(out, " — ");
        push_str_or_else(out, j, "summary", "message", "—");
        extend_str(out, "\n");
    proof {
        reveal_strlit("");
    }
    assert(out@ =~= o0 + line_of(LineKind::DiskEvent, *j));
}

fn push_line_stability(out: &mut Vec<char>, j: &Json)
    ensures
        final(out)@ == old(out)@ + line_of(LineKind::Stability, *j),
{
    let ghost o0 = out@;
        extend_str(out, "- ");
        push_str_or(out, j, "time", "—");
        extend_str(out, " — ");
        push_str_or(out, j, "summary", "—");
        extend_str(out, "\n");
    proof {
        reveal_strlit("");
    }
    assert(out@ =~= o0 + line_of(LineKind::Stability, *j));
}

fn push_line(out: &mut Vec<char>, k: LineKind, j: &Json)
    ensures
        final(out)@ == old(out)@ + line_of(k, *j),
{
    match k {
        LineKind::Browser => push_line_browser(out, j),
        LineKind::StandardApp => push_line_standard_app(out, j),
        LineKind::Program => push_line_program(out, j),
        LineKind::DiskSample => push_line_disk_sample(out, j),
        LineKind::Temperature => push_line_temperature(out, j),
        LineKind::TopCpu => push_line_top_cpu(out, j),
        LineKind::Reliability => push_line_reliability(out, j),
        LineKind::Timeline => push_line_timeline(out, j),
        LineKind::CriticalApp => push_line_critical_app(out, j),
        LineKind::DiskEvent => push_line_disk_event(out, j),
        LineKind::Stability => push_line_stability(out, j),
    }
}

/// Appends one line for each of the first `n` items.
fn push_lines(out: &mut Vec<char>, items: &Vec<Json>, n: usize, k: LineKind)
    requires
        n <= items@.len(),
    ensures
        final(out)@ == old(out)@ + lines(items@.take(n as int), k),
{
    let ghost o0 = out@;
    let mut i: usize = 0;
    assert(items@.take(0) =~= Seq::<Json>::empty());
    assert(out@ =~= o0 + lines(items@.take(0), k));
    while i < n
        invariant
            i <= n <= items@.len(),
            out@ == o0 + lines(items@.take(i as int), k),
        decreases n - i,
    {
        assert(items@.take(i + 1).drop_last() =~= items@.take(i as int));
        assert(items@.take(i + 1).last() == items@[i as int]);
        push_line(out, k, &items[i]);
        assert(out@ =~= o0 + lines(items@.take(i + 1), k));
        i = i + 1;
    }
}

fn min_len(n: usize, cap: usize) -> (r: usize)
    ensures
        r == if n <= cap {
            n
        } else {
            cap
        },
{
    if n <= cap {
        n
    } else {
        cap
    }
}

/// Appends one line for each of the first `cap` items (all where there are fewer).
fn push_first_lines(out: &mut Vec<char>, items: &Vec<Json>, cap: usize, k: LineKind)
    ensures
        final(out)@ == old(out)@ + lines(first_n(items@, cap as nat), k),
{
    let n = min_len(items.len(), cap);
    push_lines(out, items, n, k);
    assert(items@.take(n as int) =~= first_n(items@, cap as nat));
}

// ---------------------------------------------------------------------------
// Software
// ---------------------------------------------------------------------------

pub open spec fn program_count(data: Json) -> nat {
    match get_u64(data, "program_count"@) {
        Some(n) => n as nat,
        None => 0,
    }
}

pub open spec fn office_md(data: Json) -> Seq<char> {
    match data.get_spec("office_suite"@) {
        Some(o) => "- **Office:** "@ + str_or(o, "display_name"@, "—"@) + " v"@ + str_or(o, "version"@, "—"@) + "\n"@,
        None => Seq::empty(),
    }
}

pub open spec fn browsers_md(data: Json) -> Seq<char> {
    match get_array(data, "browsers"@) {
        Some(bs) => lines(bs, LineKind::Browser),
        None => Seq::empty(),
    }
}

pub open spec fn standard_apps_md(data: Json) -> Seq<char> {
    match get_array(data, "standard_apps"@) {
        Some(a) => "**Software padrão da empresa:**\n\n"@ + "| Programa | Status |\n"@ + "|----------|--------|\n"@
            + lines(a, LineKind::StandardApp) + "\n"@,
        None => Seq::empty(),
    }
}

pub open spec fn programs_md(data: Json) -> Seq<char> {
    match get_array(data, "programs"@) {
        Some(ps) => {
            let show = first_n(ps, 40).len();
            "**Amostra de programas (primeiros "@ + nat_digits(show) + " de "@ + nat_digits(program_count(data))
                + "):**\n\n"@ + lines(first_n(ps, 40), LineKind::Program) + (if ps.len() > show {
                "\n_… e mais "@ + nat_digits((ps.len() - show) as nat) + " programas (ver dashboard JSON)._\n"@
            } else {
                Seq::empty()
            })
        },
        None => Seq::empty(),
    }
}

/// The software section: the program count, Office, browsers, the company's standard
/// software, and the first 40 programs.
pub open spec fn software_md(data: Json) -> Seq<char> {
    "- **Programas instalados:** "@ + nat_digits(program_count(data)) + "\n\n"@ + office_md(data) + browsers_md(data)
        + "\n"@ + standard_apps_md(data) + programs_md(data)
}

fn push_office(out: &mut Vec<char>, data: &Json)
    ensures
        final(out)@ == old(out)@ + office_md(*data),
{
    let ghost o0 = out@;
    match data.get("office_suite") {
        Some(o) => {
            extend_str(out, "- **Office:** ");
            push_str_or(out, o, "display_name", "—");
            extend_str(out, " v");
            push_str_or(out, o, "version", "—");
            extend_str(out, "\n");
        },
        None => {},
    }
    assert(out@ =~= o0 + office_md(*data));
}

fn push_standard_apps(out: &mut Vec<char>, data: &Json)
    ensures
        final(out)@ == old(out)@ + standard_apps_md(*data),
{
    let ghost o0 = out@;
    match json_array(data, "standard_apps") {
        Some(a) => {
            extend_str(out, "**Software padrão da empresa:**\n\n");
            extend_str(out, "| Programa | Status |\n");
            extend_str(out, "|----------|--------|\n");
            push_lines(out, a, a.len(), LineKind::StandardApp);
            assert(a@.take(a@.len() as int) =~= a@);
            extend_str(out, "\n");
        },
        None => {},
    }
    assert(out@ =~= o0 + standard_apps_md(*data));
}

fn push_programs(out: &mut Vec<char>, data: &Json)
    ensures
        final(out)@ == old(out)@ + programs_md(*data),
{
    let ghost o0 = out@;
    match json_array(data, "programs") {
        Some(ps) => {
            let count = match json_u64(data, "program_count") {
                Some(n) => n,
                None => 0,
            };
            let show = min_len(ps.len(), 40);
            extend_str(out, "**Amostra de programas (primeiros ");
            extend(out, &fmt_u64(show as u64));
            extend_str(out, " de ");
            extend(out, &fmt_u64(count));
            extend_str(out, "):**\n\n");
            push_first_lines(out, ps, 40, LineKind::Program);
            if ps.len() > show {
                extend_str(out, "\n_… e mais ");
                extend(out, &fmt_u64((ps.len() - show) as u64));
                extend_str(out, " programas (ver dashboard JSON)._\n");
            }
            proof {
                reveal_strlit("");
            }
        },
        None => {},
    }
    assert(out@ =~= o0 + programs_md(*data));
}

/// The software section of the report.
pub fn software_to_markdown(data: &Json) -> (r: String)
    ensures
        r@ == software_md(*data),
{
    let count = match json_u64(data, "program_count") {
        Some(n) => n,
        None => 0,
    };
    let mut md = chars("- **Programas instalados:** ");
    extend(&mut md, &fmt_u64(count));
    extend_str(&mut md, "\n\n");
    push_office(&mut md, data);
    let ghost before = md@;
    match json_array(data, "browsers") {
        Some(bs) => {
            push_lines(&mut md, bs, bs.len(), LineKind::Browser);
            assert(bs@.take(bs@.len() as int) =~= bs@);
        },
        None => {},
    }
    assert(md@ =~= before + browsers_md(*data));
    extend_str(&mut md, "\n");
    push_standard_apps(&mut md, data);
    push_programs(&mut md, data);
    assert(md@ =~= software_md(*data));
    to_string(&md)
}

// ---------------------------------------------------------------------------
// Performance
// ---------------------------------------------------------------------------

pub open spec fn is_failure_record(r: Json) -> bool {
    match get_u64(r, "record_type_id"@) {
        Some(n) => n == 1 || n == 2 || n == 4,
        None => false,
    }
}

/// The reliability records of failures (types 1, 2 and 4), in order.
pub open spec fn failure_records(s: Seq<Json>) -> Seq<Json>
    decreases s.len(),
{
    if s.len() == 0 {
        s
    } else if is_failure_record(s.last()) {
        failure_records(s.drop_last()).push(s.last())
    } else {
        failure_records(s.drop_last())
    }
}

pub open spec fn perf_cpu_md(data: Json) -> Seq<char> {
    match data.get_spec("cpu"@) {
        Some(c) => "**CPU:** "@ + scalar_or(c, "load_percent"@, "—"@) + "% de uso na coleta\n"@,
        None => Seq::empty(),
    }
}

pub open spec fn perf_memory_md(data: Json) -> Seq<char> {
    match data.get_spec("memory"@) {
        Some(m) => "**Memória:** "@ + scalar_or(m, "used_percent"@, "—"@) + "% usada ("@ + scalar_or(m, "total_gb"@, "—"@)
            + " GB total)\n"@,
        None => Seq::empty(),
    }
}

pub open spec fn perf_io_md(data: Json) -> Seq<char> {
    match data.get_spec("physical_disk_io"@) {
        Some(io) => {
            let dt = match io.get_spec("peak_disk_time_percent"@) {
                Some(x) => scalar_text(x),
                None => scalar_or(io, "total_disk_time_percent"@, "—"@),
            };
            "**Disco (I/O):** pico "@ + dt + "% Disk Time · fila "@ + scalar_or(io, "avg_queue_length"@, "—"@) + "\n"@
                + match get_array(io, "disk_time_samples"@) {
                Some(smp) => if smp.len() > 0 {
                    "Amostras na coleta:\n"@ + lines(smp, LineKind::DiskSample)
                } else {
                    Seq::empty()
                },
                None => Seq::empty(),
            }
        },
        None => Seq::empty(),
    }
}

pub open spec fn perf_temps_md(data: Json) -> Seq<char> {
    match get_array(data, "temperatures"@) {
        Some(t) => if t.len() > 0 {
            "**Temperaturas:**\n"@ + lines(first_n(t, 6), LineKind::Temperature)
        } else {
            Seq::empty()
        },
        None => Seq::empty(),
    }
}

pub open spec fn perf_top_md(data: Json) -> Seq<char> {
    match data.get_spec("top_processes"@) {
        Some(top) => match get_array(top, "by_cpu"@) {
            Some(c) => if c.len() > 0 {
                "\n**Top CPU:**\n"@ + lines(first_n(c, 5), LineKind::TopCpu)
            } else {
                Seq::empty()
            },
            None => Seq::empty(),
        },
        None => Seq::empty(),
    }
}

pub open spec fn perf_reliability_md(data: Json) -> Seq<char> {
    match get_array(data, "reliability_records"@) {
        Some(r) => {
            let shown = first_n(failure_records(r), 8);
            if shown.len() > 0 {
                "\n**Falhas recentes (Reliability Monitor):**\n"@ + lines(shown, LineKind::Reliability)
            } else {
                Seq::empty()
            }
        },
        None => Seq::empty(),
    }
}

/// The performance section: CPU, memory, disk I/O, temperatures, top processes and
/// recent failures.
pub open spec fn performance_md(data: Json) -> Seq<char> {
    perf_cpu_md(data) + perf_memory_md(data) + perf_io_md(data) + perf_temps_md(data) + perf_top_md(data)
        + perf_reliability_md(data)
}

fn push_perf_cpu_memory(out: &mut Vec<char>, data: &Json)
    ensures
        final(out)@ == old(out)@ + perf_cpu_md(*data) + perf_memory_md(*data),
{
    let ghost o0 = out@;
    match data.get("cpu") {
        Some(c) => {
            extend_str(out, "**CPU:** ");
            push_scalar_or(out, c, "load_percent", "—");
            extend_str(out, "% de uso na coleta\n");
        },
        None => {},
    }
    assert(out@ =~= o0 + perf_cpu_md(*data));
    let ghost o1 = out@;
    match data.get("memory") {
        Some(m) => {
            extend_str(out, "**Memória:** ");
            push_scalar_or(out, m, "used_percent", "—");
            extend_str(out, "% usada (");
            push_scalar_or(out, m, "total_gb", "—");
            extend_str(out, " GB total)\n");
        },
        None => {},
    }
    assert(out@ =~= o1 + perf_memory_md(*data));
    assert(out@ =~= o0 + perf_cpu_md(*data) + perf_memory_md(*data));
}

fn push_perf_io(out: &mut Vec<char>, data: &Json)
    ensures
        final(out)@ == old(out)@ + perf_io_md(*data),
{
    let ghost o0 = out@;
    match data.get("physical_disk_io") {
        Some(io) => {
            extend_str(out, "**Disco (I/O):** pico ");
            match io.get("peak_disk_time_percent") {
                Some(x) => push_scalar(out, x),
                None => push_scalar_or(out, io, "total_disk_time_percent", "—"),
            }
            extend_str(out, "% Disk Time · fila ");
            push_scalar_or(out, io, "avg_queue_length", "—");
            extend_str(out, "\n");
            let ghost o1 = out@;
            match json_array(io, "disk_time_samples") {
                Some(smp) => {
                    if smp.len() > 0 {
                        extend_str(out, "Amostras na coleta:\n");
                        push_lines(out, smp, smp.len(), LineKind::DiskSample);
                        assert(smp@.take(smp@.len() as int) =~= smp@);
                    }
                },
                None => {},
            }
            proof {
                reveal_strlit("");
            }
        },
        None => {},
    }
    assert(out@ =~= o0 + perf_io_md(*data));
}

fn push_perf_temps_top(out: &mut Vec<char>, data: &Json)
    ensures
        final(out)@ == old(out)@ + perf_temps_md(*data) + perf_top_md(*data),
{
    let ghost o0 = out@;
    match json_array(data, "temperatures") {
        Some(t) => {
            if t.len() > 0 {
                extend_str(out, "**Temperaturas:**\n");
                push_first_lines(out, t, 6, LineKind::Temperature);
            }
        },
        None => {},
    }
    assert(out@ =~= o0 + perf_temps_md(*data));
    let ghost o1 = out@;
    match data.get("top_processes") {
        Some(top) => match json_array(top, "by_cpu") {
            Some(c) => {
                if c.len() > 0 {
                    extend_str(out, "\n**Top CPU:**\n");
                    push_first_lines(out, c, 5, LineKind::TopCpu);
                }
            },
            None => {},
        },
        None => {},
    }
    assert(out@ =~= o1 + perf_top_md(*data));
    assert(out@ =~= o0 + perf_temps_md(*data) + perf_top_md(*data));
}

/// The failure records among `recs`, at most `cap` of them, in order.
fn first_failures<'a>(recs: &'a Vec<Json>, cap: usize) -> (r: Vec<&'a Json>)
    ensures
        derefs(r@) == first_n(failure_records(recs@), cap as nat),
{
    let mut out: Vec<&Json> = Vec::new();
    let mut i: usize = 0;
    assert(recs@.take(0) =~= Seq::<Json>::empty());
    assert(derefs(out@) =~= first_n(failure_records(recs@.take(0)), cap as nat));
    while i < recs.len()
        invariant
            i <= recs@.len(),
            derefs(out@) == first_n(failure_records(recs@.take(i as int)), cap as nat),
        decreases recs@.len() - i,
    {
        let ghost prev = failure_records(recs@.take(i as int));
        assert(recs@.take(i + 1).drop_last() =~= recs@.take(i as int));
        assert(recs@.take(i + 1).last() == recs@[i as int]);
        let r = &recs[i];
        let failure = match json_u64(r, "record_type_id") {
            Some(n) => n == 1 || n == 2 || n == 4,
            None => false,
        };
        if failure {
            if out.len() < cap {
                let ghost o0 = out@;
                out.push(r);
                assert(derefs(out@) =~= derefs(o0).push(*r));
                assert(derefs(out@) =~= first_n(prev.push(*r), cap as nat));
            } else {
                assert(first_n(prev.push(*r), cap as nat) =~= first_n(prev, cap as nat));
            }
        }
        i = i + 1;
    }
    assert(recs@.take(recs@.len() as int) =~= recs@);
    out
}

/// Appends one line for each referenced item.
fn push_ref_lines(out: &mut Vec<char>, items: &Vec<&Json>, k: LineKind)
    ensures
        final(out)@ == old(out)@ + lines(derefs(items@), k),
{
    let ghost o0 = out@;
    let ghost d = derefs(items@);
    let mut i: usize = 0;
    assert(d.take(0) =~= Seq::<Json>::empty());
    assert(out@ =~= o0 + lines(d.take(0), k));
    while i < items.len()
        invariant
            i <= items@.len(),
            d == derefs(items@),
            out@ == o0 + lines(d.take(i as int), k),
        decreases items@.len() - i,
    {
        assert(d.take(i + 1).drop_last() =~= d.take(i as int));
        assert(d.take(i + 1).last() == *items@[i as int]);
        push_line(out, k, items[i]);
        assert(out@ =~= o0 + lines(d.take(i + 1), k));
        i = i + 1;
    }
    assert(d.take(items@.len() as int) =~= d);
}

/// The performance section of the report.
pub fn performance_to_markdown(data: &Json) -> (r: String)
    ensures
        r@ == performance_md(*data),
{
    let mut md: Vec<char> = Vec::new();
    push_perf_cpu_memory(&mut md, data);
    push_perf_io(&mut md, data);
    push_perf_temps_top(&mut md, data);
    let ghost before = md@;
    match json_array(data, "reliability_records") {
        Some(recs) => {
            let fails = first_failures(recs, 8);
            if fails.len() > 0 {
                extend_str(&mut md, "\n**Falhas recentes (Reliability Monitor):**\n");
                push_ref_lines(&mut md, &fails, LineKind::Reliability);
            }
        },
        None => {},
    }
    assert(md@ =~= before + perf_reliability_md(*data));
    assert(md@ =~= performance_md(*data));
    to_string(&md)
}

// ---------------------------------------------------------------------------
// Event logs
// ---------------------------------------------------------------------------

pub open spec fn summary_fields(fs: Seq<(String, Json)>) -> Seq<char>
    decreases fs.len(),
{
    if fs.len() == 0 {
        Seq::empty()
    } else {
        summary_fields(fs.drop_last()) + "- **"@ + fs.last().0@ + ":** "@ + scalar_text(fs.last().1) + "\n"@
    }
}

pub open spec fn ev_summary_md(data: Json) -> Seq<char> {
    match data.get_spec("summary"@) {
        Some(sm) => "**Resumo (14 dias):**\n\n"@ + (match sm {
            Json::Object(fs) => summary_fields(fs@),
            _ => Seq::empty(),
        }) + "\n"@,
        None => Seq::empty(),
    }
}

pub open spec fn ev_timeline_md(data: Json) -> Seq<char> {
    match data.get_spec("daily_timeline"@) {
        Some(tl) => match get_array(tl, "events"@) {
            Some(e) => if e.len() > 0 {
                "**Linha do tempo — "@ + str_or(tl, "date"@, "hoje"@) + ":**\n\n"@ + lines(first_n(e, 25), LineKind::Timeline)
                    + "\n"@
            } else {
                Seq::empty()
            },
            None => Seq::empty(),
        },
        None => Seq::empty(),
    }
}

/// A titled list of the first `cap` items under `key`, where there are any.
pub open spec fn ev_list_md(data: Json, key: Seq<char>, title: Seq<char>, cap: nat, k: LineKind) -> Seq<char> {
    match get_array(data, key) {
        Some(a) => if a.len() > 0 {
            title + lines(first_n(a, cap), k) + "\n"@
        } else {
            Seq::empty()
        },
        None => Seq::empty(),
    }
}

/// The event-log section: the 14-day summary, the day's timeline, critical
/// applications, disk errors and stability events.
pub open spec fn event_logs_md(data: Json) -> Seq<char> {
    ev_summary_md(data) + ev_timeline_md(data) + ev_list_md(
        data,
        "critical_app_events"@,
        "**Apps críticos (OperationsSuite, CAD, LibreOffice):**\n\n"@,
        15,
        LineKind::CriticalApp,
    ) + ev_list_md(data, "disk_events"@, "**Erros de disco/SSD:**\n\n"@, 10, LineKind::DiskEvent) + ev_list_md(
        data,
        "bsod_events"@,
        "**Eventos de estabilidade:**\n\n"@,
        10,
        LineKind::Stability,
    )
}

fn push_ev_summary(out: &mut Vec<char>, data: &Json)
    ensures
        final(out)@ == old(out)@ + ev_summary_md(*data),
{
    let ghost o0 = out@;
    match data.get("summary") {
        Some(sm) => {
            extend_str(out, "**Resumo (14 dias):**\n\n");
            let ghost o1 = out@;
            match sm {
                Json::Object(fs) => {
                    let mut i: usize = 0;
                    assert(fs@.take(0) =~= Seq::<(String, Json)>::empty());
                    assert(out@ =~= o1 + summary_fields(fs@.take(0)));
                    while i < fs.len()
                        invariant
                            i <= fs@.len(),
                            out@ == o1 + summary_fields(fs@.take(i as int)),
                        decreases fs@.len() - i,
                    {
                        assert(fs@.take(i + 1).drop_last() =~= fs@.take(i as int));
                        assert(fs@.take(i + 1).last() == fs@[i as int]);
                        extend_str(out, "- **");
                        extend_str(out, fs[i].0.as_str());
                        extend_str(out, ":** ");
                        push_scalar(out, &fs[i].1);
                        extend_str(out, "\n");
                        assert(out@ =~= o1 + summary_fields(fs@.take(i + 1)));
                        i = i + 1;
                    }
                    assert(fs@.take(fs@.len() as int) =~= fs@);
                },
                _ => {},
            }
            proof {
                reveal_strlit("");
            }
            extend_str(out, "\n");
        },
        None => {},
    }
    assert(out@ =~= o0 + ev_summary_md(*data));
}

fn push_ev_timeline(out: &mut Vec<char>, data: &Json)
    ensures
        final(out)@ == old(out)@ + ev_timeline_md(*data),
{
    let ghost o0 = out@;
    match data.get("daily_timeline") {
        Some(tl) => match json_array(tl, "events") {
            Some(e) => {
                if e.len() > 0 {
                    extend_str(out, "**Linha do tempo — ");
                    push_str_or(out, tl, "date", "hoje");
                    extend_str(out, ":**\n\n");
                    push_first_lines(out, e, 25, LineKind::Timeline);
                    extend_str(out, "\n");
                }
            },
            None => {},
        },
        None => {},
    }
    assert(out@ =~= o0 + ev_timeline_md(*data));
}

fn push_ev_list(out: &mut Vec<char>, data: &Json, key: &str, title: &str, cap: usize, k: LineKind)
    ensures
        final(out)@ == old(out)@ + ev_list_md(*data, key@, title@, cap as nat, k),
{
    let ghost o0 = out@;
    match json_array(data, key) {
        Some(a) => {
            if a.len() > 0 {
                extend_str(out, title);
                push_first_lines(out, a, cap, k);
                extend_str(out, "\n");
            }
        },
        None => {},
    }
    assert(out@ =~= o0 + ev_list_md(*data, key@, title@, cap as nat, k));
}

/// The event-log section of the report.
pub fn event_logs_to_markdown(data: &Json) -> (r: String)
    ensures
        r@ == event_logs_md(*data),
{
    let mut md: Vec<char> = Vec::new();
    push_ev_summary(&mut md, data);
    push_ev_timeline(&mut md, data);
    push_ev_list(
        &mut md,
        data,
        "critical_app_events",
        "**Apps críticos (OperationsSuite, CAD, LibreOffice):**\n\n",
        15,
        LineKind::CriticalApp,
    );
    push_ev_list(&mut md, data, "disk_events", "**Erros de disco/SSD:**\n\n", 10, LineKind::DiskEvent);
    push_ev_list(&mut md, data, "bsod_events", "**Eventos de estabilidade:**\n\n", 10, LineKind::Stability);
    assert(md@ =~= event_logs_md(*data));
    to_string(&md)
}

// ---------------------------------------------------------------------------
// Nested data and sections
// ---------------------------------------------------------------------------

/// Two spaces per level of depth.
pub open spec fn indent(depth: nat) -> Seq<char>
    decreases depth,
{
    if depth == 0 {
        Seq::empty()
    } else {
        indent((depth - 1) as nat) + "  "@
    }
}

/// A value as nested Markdown lists, indented `depth` levels.
pub fn json_to_markdown(value: &Json, depth: usize) -> (r: String)
    ensures
        r@ == json_md(*value, indent(depth as nat)),
{
    let mut ind: Vec<char> = Vec::new();
    let mut i: usize = 0;
    while i < depth
        invariant
            i <= depth,
            ind@ == indent(i as nat),
        decreases depth - i,
    {
        extend_str(&mut ind, "  ");
        i = i + 1;
    }
    let mut out: Vec<char> = Vec::new();
    push_json_md(&mut out, value, &ind);
    assert(out@ =~= json_md(*value, indent(depth as nat)));
    to_string(&out)
}

/// A value as the report shows it: `—` for null, a string's text, JSON otherwise.
pub fn format_scalar(v: &Json) -> (r: String)
    ensures
        r@ == scalar_text(*v),
{
    let mut out: Vec<char> = Vec::new();
    push_scalar(&mut out, v);
    assert(out@ =~= scalar_text(*v));
    to_string(&out)
}

/// The body of a collector's section: the dedicated layouts for certificates,
/// software, event logs and performance, nested lists for the others.
pub open spec fn section_body(name: Seq<char>, data: Json) -> Seq<char> {
    if name == "certificates"@ {
        certificates_md(data)
    } else if name == "software"@ {
        software_md(data)
    } else if name == "event_logs"@ {
        event_logs_md(data)
    } else if name == "performance"@ {
        performance_md(data)
    } else {
        json_md(data, Seq::empty())
    }
}

pub fn collector_section_body(name: &str, data: &Json) -> (r: String)
    ensures
        r@ == section_body(name@, *data),
{
    if crate::text::str_eq(name, "certificates") {
        certificates_to_markdown(data)
    } else if crate::text::str_eq(name, "software") {
        software_to_markdown(data)
    } else if crate::text::str_eq(name, "event_logs") {
        event_logs_to_markdown(data)
    } else if crate::text::str_eq(name, "performance") {
        performance_to_markdown(data)
    } else {
        let r = json_to_markdown(data, 0);
        assert(indent(0) =~= Seq::<char>::empty());
        r
    }
}

/// The heading of a collector's section.
pub open spec fn section_title(name: Seq<char>) -> Seq<char> {
    if name == "identity"@ {
        "Identificação detalhada"@
    } else if name == "os"@ {
        "Sistema operacional"@
    } else if name == "hardware"@ {
        "Hardware"@
    } else if name == "network"@ {
        "Rede"@
    } else if name == "remote_access"@ {
        "Acesso remoto"@
    } else if name == "software"@ {
        "Software"@
    } else if name == "licensing"@ {
        "Licenciamento"@
    } else if name == "certificates"@ {
        "Certificados"@
    } else if name == "security"@ {
        "Segurança"@
    } else if name == "email"@ {
        "E-mail"@
    } else if name == "peripherals"@ {
        "Periféricos"@
    } else if name == "permissions"@ {
        "Permissões"@
    } else if name == "logins"@ {
        "Usuários e logins"@
    } else if name == "event_logs"@ {
        "Eventos e BSOD"@
    } else if name == "runtime"@ {
        "Runtime (Docker, WSL, etc.)"@
    } else if name == "performance"@ {
        "Performance e recursos"@
    } else {
        name
    }
}

pub fn section_title_of(name: &str) -> (r: &str)
    ensures
        r@ == section_title(name@),
{
    let eq = |a: &str, b: &str| -> (r: bool)
        ensures
            r == (a@ == b@),
        { crate::text::str_eq(a, b) };
    if eq(name, "identity") {
        "Identificação detalhada"
    } else if eq(name, "os") {
        "Sistema operacional"
    } else if eq(name, "hardware") {
        "Hardware"
    } else if eq(name, "network") {
        "Rede"
    } else if eq(name, "remote_access") {
        "Acesso remoto"
    } else if eq(name, "software") {
        "Software"
    } else if eq(name, "licensing") {
        "Licenciamento"
    } else if eq(name, "certificates") {
        "Certificados"
    } else if eq(name, "security") {
        "Segurança"
    } else if eq(name, "email") {
        "E-mail"
    } else if eq(name, "peripherals") {
        "Periféricos"
    } else if eq(name, "permissions") {
        "Permissões"
    } else if eq(name, "logins") {
        "Usuários e logins"
    } else if eq(name, "event_logs") {
        "Eventos e BSOD"
    } else if eq(name, "runtime") {
        "Runtime (Docker, WSL, etc.)"
    } else if eq(name, "performance") {
        "Performance e recursos"
    } else {
        name
    }
}

// ---------------------------------------------------------------------------
// Incidents
// ---------------------------------------------------------------------------

pub open spec fn incident_row(i: IncidentRecord) -> Seq<char> {
    incident_cells(i) + incident_figures(i)
}

/// Date, kind, severity and detail of an incident's row.
pub open spec fn incident_cells(i: IncidentRecord) -> Seq<char> {
    "| "@ + utc_text_or_empty(i.last_seen, "%Y-%m-%d %H:%M"@) + " | "@ + i.title@ + " | "@ + i.severity.debug_name() + " | "@
        + i.message@ + " | "@
}

/// Value, recommended action and count of an incident's row.
pub open spec fn incident_figures(i: IncidentRecord) -> Seq<char> {
    (match i.metric_value {
        Some(v) => fmt_fixed(v, 1, false),
        None => "—"@,
    }) + " | "@ + (match i.recommendation {
        Some(r) => r@,
        None => "—"@,
    }) + " | "@ + nat_digits(i.occurrence_count as nat) + " |\n"@
}

pub open spec fn incident_rows(s: Seq<IncidentRecord>) -> Seq<char>
    decreases s.len(),
{
    if s.len() == 0 {
        Seq::empty()
    } else {
        incident_rows(s.drop_last()) + incident_row(s.last())
    }
}

/// The incident log: nothing where there are no incidents, else a table of the first
/// 40 and the number left out.
pub open spec fn incidents_md(s: Seq<IncidentRecord>) -> Seq<char> {
    if s.len() == 0 {
        Seq::empty()
    } else {
        "## Registro de incidentes e performance\n\n"@
            + "_Histórico persistente — travamentos, picos de CPU/disco, temperatura e falhas. Use para diagnóstico e plano de ação._\n\n"@
            + "| Data | Tipo | Severidade | Detalhe | Valor | Ação recomendada | Vezes |\n"@
            + "|------|------|------------|---------|-------|------------------|------:|\n"@ + incident_rows(first_n(s, 40))
            + (if s.len() > 40 {
            "\n_… e mais "@ + nat_digits((s.len() - 40) as nat) + " registros no dashboard._\n"@
        } else {
            Seq::empty()
        }) + "\n"@
    }
}

fn push_incident_cells(out: &mut Vec<char>, i: &IncidentRecord)
    ensures
        final(out)@ == old(out)@ + incident_cells(*i),
{
    let ghost o0 = out@;
    extend_str(out, "| ");
    let date = format_utc(i.last_seen, "%Y-%m-%d %H:%M");
    extend_str(out, date.as_str());
    extend_str(out, " | ");
    extend_str(out, i.title.as_str());
    extend_str(out, " | ");
    extend_str(out, i.severity.debug_str());
    extend_str(out, " | ");
    extend_str(out, i.message.as_str());
    extend_str(out, " | ");
    assert(out@ =~= o0 + incident_cells(*i));
}

fn push_incident_figures(out: &mut Vec<char>, i: &IncidentRecord)
    ensures
        final(out)@ == old(out)@ + incident_figures(*i),
{
    let ghost o0 = out@;
    match i.metric_value {
        Some(v) => extend(out, &fmt_decimal(v, 1, false)),
        None => extend_str(out, "—"),
    }
    extend_str(out, " | ");
    match &i.recommendation {
        Some(r) => extend_str(out, r.as_str()),
        None => extend_str(out, "—"),
    }
    extend_str(out, " | ");
    extend(out, &fmt_u64(i.occurrence_count as u64));
    extend_str(out, " |\n");
    assert(out@ =~= o0 + incident_figures(*i));
}

fn push_incident_row(out: &mut Vec<char>, i: &IncidentRecord)
    ensures
        final(out)@ == old(out)@ + incident_row(*i),
{
    let ghost o0 = out@;
    push_incident_cells(out, i);
    push_incident_figures(out, i);
    assert(out@ =~= o0 + incident_row(*i));
}

/// The incident log of the report.
pub fn incidents_to_markdown(incidents: &[IncidentRecord]) -> (r: String)
    ensures
        r@ == incidents_md(incidents@),
{
    if incidents.len() == 0 {
        return String::new();
    }
    let mut md = chars("## Registro de incidentes e performance\n\n");
    extend_str(
        &mut md,
        "_Histórico persistente — travamentos, picos de CPU/disco, temperatura e falhas. Use para diagnóstico e plano de ação._\n\n",
    );
    extend_str(&mut md, "| Data | Tipo | Severidade | Detalhe | Valor | Ação recomendada | Vezes |\n");
    extend_str(&mut md, "|------|------|------------|---------|-------|------------------|------:|\n");
    let ghost m0 = md@;
    let n = min_len(incidents.len(), 40);
    let mut i: usize = 0;
    assert(incidents@.take(0) =~= Seq::<IncidentRecord>::empty());
    assert(md@ =~= m0 + incident_rows(incidents@.take(0)));
    while i < n
        invariant
            i <= n <= incidents@.len(),
            md@ == m0 + incident_rows(incidents@.take(i as int)),
        decreases n - i,
    {
        assert(incidents@.take(i + 1).drop_last() =~= incidents@.take(i as int));
        assert(incidents@.take(i + 1).last() == incidents@[i as int]);
        push_incident_row(&mut md, &incidents[i]);
        assert(md@ =~= m0 + incident_rows(incidents@.take(i + 1)));
        i = i + 1;
    }
    assert(incidents@.take(n as int) =~= first_n(incidents@, 40));
    if incidents.len() > 40 {
        extend_str(&mut md, "\n_… e mais ");
        extend(&mut md, &fmt_u64((incidents.len() - 40) as u64));
        extend_str(&mut md, " registros no dashboard._\n");
    }
    proof {
        reveal_strlit("");
    }
    extend_str(&mut md, "\n");
    assert(md@ =~= incidents_md(incidents@));
    to_string(&md)
}

// ---------------------------------------------------------------------------
// The machine report
// ---------------------------------------------------------------------------

pub open spec fn opt_line(label: Seq<char>, v: Option<String>) -> Seq<char> {
    match v {
        Some(x) => label + x@ + "\n"@,
        None => Seq::empty(),
    }
}

pub open spec fn identification_md(m: MachineSummary) -> Seq<char> {
    "## Identificação\n\n"@ + "- **Hostname:** "@ + m.hostname@ + "\n"@ + opt_line("- **Serial:** "@, m.serial) + opt_line(
        "- **Usuário atual:** "@,
        m.logged_user,
    ) + opt_line("- **IP:** "@, m.ip_address) + (match m.uptime_seconds {
        Some(u) => "- **Uptime:** "@ + nat_digits((u / 3600) as nat) + "h "@ + nat_digits(((u % 3600) / 60) as nat) + "m\n"@,
        None => Seq::empty(),
    }) + "- **Último visto:** "@ + utc_text_or_empty(m.last_seen, "%Y-%m-%d %H:%M"@) + "\n\n"@
}

/// One section per collector but `compliance`, in the order given.
pub open spec fn collector_sections(cs: Seq<CollectorResult>) -> Seq<char>
    decreases cs.len(),
{
    if cs.len() == 0 {
        Seq::empty()
    } else {
        let c = cs.last();
        collector_sections(cs.drop_last()) + if c.name@ == "compliance"@ {
            Seq::empty()
        } else {
            "### "@ + section_title(c.name@) + "\n\n"@ + section_body(c.name@, c.data) + "\n"@
        }
    }
}

pub open spec fn header_text(m: MachineSummary, total: u8, band: Seq<char>, now: UtcTime) -> Seq<char> {
    "# Inventário do PC - "@ + m.hostname@ + "\n\n"@ + "_Gerado em: "@ + utc_text_or_empty(now, "%Y-%m-%d %H:%M UTC"@)
        + " | Status: "@ + m.status.debug_name() + " | Score: "@ + nat_digits(total as nat) + "% ("@ + band + ")_\n\n"@
}

pub open spec fn report_header(m: MachineSummary, cs: Seq<CollectorResult>, now: UtcTime) -> Seq<char> {
    header_text(m, total_spec(cs), band_spec(total_spec(cs)), now)
}

pub open spec fn report_footer() -> Seq<char> {
    "## Observações\n\n"@ + "- Relatório gerado automaticamente pelo Belarc Inventory.\n"@
        + "- Inventário ≠ Alertas ≠ Conformidade TI — cada camada tem função distinta.\n"@
        + "- Certificados raiz do Windows (Baltimore, Microsoft Root…) são históricos e não afetam o score.\n"@
}

/// The inventory report of a machine written at `now`: identification, compliance,
/// alerts, incidents, one section per collector, and closing notes.
pub open spec fn machine_report_md(
    m: MachineSummary,
    cs: Seq<CollectorResult>,
    alerts: Seq<crate::models::AlertRecord>,
    incs: Seq<IncidentRecord>,
    now: UtcTime,
) -> Seq<char> {
    report_header(m, cs, now) + identification_md(m) + breakdown_text(cs) + alerts_md(alerts) + incidents_md(incs)
        + "## Inventário (dados coletados)\n\n"@ + "_Camada de consulta — não altera o score diretamente._\n\n"@
        + collector_sections(cs) + report_footer()
}

pub fn push_opt_line(out: &mut Vec<char>, label: &str, v: &Option<String>)
    ensures
        final(out)@ == old(out)@ + opt_line(label@, *v),
{
    let ghost o0 = out@;
    match v {
        Some(x) => {
            extend_str(out, label);
            extend_str(out, x.as_str());
            extend_str(out, "\n");
        },
        None => {},
    }
    assert(out@ =~= o0 + opt_line(label@, *v));
}

fn push_identification(out: &mut Vec<char>, m: &MachineSummary)
    ensures
        final(out)@ == old(out)@ + identification_md(*m),
{
    let ghost o0 = out@;
    extend_str(out, "## Identificação\n\n");
    extend_str(out, "- **Hostname:** ");
    extend_str(out, m.hostname.as_str());
    extend_str(out, "\n");
    push_opt_line(out, "- **Serial:** ", &m.serial);
    push_opt_line(out, "- **Usuário atual:** ", &m.logged_user);
    push_opt_line(out, "- **IP:** ", &m.ip_address);
    let ghost o1 = out@;
    match m.uptime_seconds {
        Some(u) => {
            extend_str(out, "- **Uptime:** ");
            extend(out, &fmt_u64(u / 3600));
            extend_str(out, "h ");
            extend(out, &fmt_u64((u % 3600) / 60));
            extend_str(out, "m\n");
        },
        None => {},
    }
    proof {
        reveal_strlit("");
    }
    extend_str(out, "- **Último visto:** ");
    let seen = format_utc(m.last_seen, "%Y-%m-%d %H:%M");
    extend_str(out, seen.as_str());
    extend_str(out, "\n\n");
    assert(out@ =~= o0 + identification_md(*m));
}

fn push_collector_sections(out: &mut Vec<char>, cs: &[CollectorResult])
    ensures
        final(out)@ == old(out)@ + collector_sections(cs@),
{
    let ghost o0 = out@;
    let mut i: usize = 0;
    assert(cs@.take(0) =~= Seq::<CollectorResult>::empty());
    assert(out@ =~= o0 + collector_sections(cs@.take(0)));
    while i < cs.len()
        invariant
            i <= cs@.len(),
            out@ == o0 + collector_sections(cs@.take(i as int)),
        decreases cs@.len() - i,
    {
        assert(cs@.take(i + 1).drop_last() =~= cs@.take(i as int));
        assert(cs@.take(i + 1).last() == cs@[i as int]);
        let c = &cs[i];
        let ghost before = out@;
        if !crate::text::str_eq(c.name.as_str(), "compliance") {
            extend_str(out, "### ");
            extend_str(out, section_title_of(c.name.as_str()));
            extend_str(out, "\n\n");
            let body = collector_section_body(c.name.as_str(), &c.data);
            extend_str(out, body.as_str());
            extend_str(out, "\n");
        }
        proof {
            reveal_strlit("");
        }
        assert(out@ =~= o0 + collector_sections(cs@.take(i + 1)));
        i = i + 1;
    }
    assert(cs@.take(cs@.len() as int) =~= cs@);
}

fn push_report_header(out: &mut Vec<char>, m: &MachineSummary, total: u8, band: &str, now: UtcTime)
    ensures
        final(out)@ == old(out)@ + header_text(*m, total, band@, now),
{
    let ghost o0 = out@;
    extend_str(out, "# Inventário do PC - ");
    extend_str(out, m.hostname.as_str());
    extend_str(out, "\n\n");
    extend_str(out, "_Gerado em: ");
    let generated = format_utc(now, "%Y-%m-%d %H:%M UTC");
    extend_str(out, generated.as_str());
    extend_str(out, " | Status: ");
    extend_str(out, m.status.debug_str());
    extend_str(out, " | Score: ");
    extend(out, &fmt_u64(total as u64));
    extend_str(out, "% (");
    extend_str(out, band);
    extend_str(out, ")_\n\n");
    assert(out@ =~= o0 + header_text(*m, total, band@, now));
}

/// The inventory report of a machine, stamped with `now`.
#[verifier::rlimit(40)]
pub fn generate_machine_report_at(
    machine: &MachineSummary,
    collectors: &[CollectorResult],
    alerts: &[crate::models::AlertRecord],
    incidents: &[IncidentRecord],
    now: UtcTime,
) -> (r: String)
    requires
        collectors_sliceable(collectors@),
    ensures
        r@ == machine_report_md(*machine, collectors@, alerts@, incidents@, now),
{
    let breakdown = compute_score_breakdown(machine, collectors);
    proof {
        lemma_breakdown_text(breakdown, collectors@);
    }
    let mut md: Vec<char> = Vec::new();
    push_report_header(&mut md, machine, breakdown.total, breakdown.band.as_str(), now);
    let ghost p1 = md@;
    assert(p1 =~= report_header(*machine, collectors@, now));
    push_identification(&mut md, machine);
    let b = breakdown.to_markdown();
    extend_str(&mut md, b.as_str());
    let a = alerts_to_markdown(alerts);
    extend_str(&mut md, a.as_str());
    let inc = incidents_to_markdown(incidents);
    extend_str(&mut md, inc.as_str());
    let ghost p2 = md@;
    assert(p2 == report_header(*machine, collectors@, now) + identification_md(*machine) + breakdown_text(collectors@)
        + alerts_md(alerts@) + incidents_md(incidents@));
    extend_str(&mut md, "## Inventário (dados coletados)\n\n");
    extend_str(&mut md, "_Camada de consulta — não altera o score diretamente._\n\n");
    push_collector_sections(&mut md, collectors);
    let ghost p3 = md@;
    extend_str(&mut md, "## Observações\n\n");
    extend_str(&mut md, "- Relatório gerado automaticamente pelo Belarc Inventory.\n");
    extend_str(&mut md, "- Inventário ≠ Alertas ≠ Conformidade TI — cada camada tem função distinta.\n");
    extend_str(
        &mut md,
        "- Certificados raiz do Windows (Baltimore, Microsoft Root…) são históricos e não afetam o score.\n",
    );
    assert(md@ =~= p3 + report_footer());
    to_string(&md)
}

/// The inventory report of a machine, stamped with the current time; the file is
/// written by the caller.
pub fn generate_machine_report(
    machine: &MachineSummary,
    collectors: &[CollectorResult],
    alerts: &[crate::models::AlertRecord],
    incidents: &[IncidentRecord],
) -> (r: String)
    requires
        collectors_sliceable(collectors@),
    ensures
        exists|now: UtcTime| r@ == machine_report_md(*machine, collectors@, alerts@, incidents@, now),
{
    let now = utc_now();
    generate_machine_report_at(machine, collectors, alerts, incidents, now)
}

} // verus!
