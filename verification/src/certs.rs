//! Classification of the certificates that the collector reports, and the
//! corporate certificates (e-CNPJ / ICP-Brasil) grouped by entity.

use vstd::prelude::*;
use crate::ext::{to_uppercase, upper_text};
use crate::json::{
    str_or, str_or_v, get_array, get_bool, get_i64, json_array, json_bool, json_i64, Json,
};
use crate::text::{
    all_digits, before_char, before_char_v, byte_prefix_len, byte_prefix_v, chars, contains,
    contains_v, copy_range, eq_v, extend, extend_str, find_char, find_char_v, is_ascii_digit,
    lemma_find_char, starts_with, starts_with_v, trim, trim_v, utf8_len, utf8_len_v,
};

verus! {

#[derive(Clone, Copy, PartialEq, Eq, Structural)]
pub enum CertClass {
    Corporate,
    RootHistorical,
    SelfSigned,
    Other,
}

pub open spec fn root_markers() -> Seq<Seq<char>> {
    seq![
        "MICROSOFT ROOT"@,
        "BALTIMORE"@,
        "CYBERTRUST"@,
        "VERISIGN"@,
        "THAWTE"@,
        "COMODO"@,
        "DIGICERT"@,
        "GLOBALSIGN"@,
        "ENTRUST"@,
        "GEOTRUST"@,
        "STARFIELD"@,
        "USERTRUST"@,
        "AAA CERTIFICATE SERVICES"@,
        "IDENTITY VERIFICATION ROOT"@,
    ]
}

fn root_marker(i: usize) -> (r: &'static str)
    requires
        i < 14,
    ensures
        r@ == root_markers()[i as int],
{
    if i == 0 {
        "MICROSOFT ROOT"
    } else if i == 1 {
        "BALTIMORE"
    } else if i == 2 {
        "CYBERTRUST"
    } else if i == 3 {
        "VERISIGN"
    } else if i == 4 {
        "THAWTE"
    } else if i == 5 {
        "COMODO"
    } else if i == 6 {
        "DIGICERT"
    } else if i == 7 {
        "GLOBALSIGN"
    } else if i == 8 {
        "ENTRUST"
    } else if i == 9 {
        "GEOTRUST"
    } else if i == 10 {
        "STARFIELD"
    } else if i == 11 {
        "USERTRUST"
    } else if i == 12 {
        "AAA CERTIFICATE SERVICES"
    } else {
        "IDENTITY VERIFICATION ROOT"
    }
}

/// The upper-cased `"{subject} {issuer}"` names a well-known root authority.
pub open spec fn known_root_spec(subject: Seq<char>, issuer: Seq<char>) -> bool {
    let s = upper_text(subject + " "@ + issuer);
    exists|i: int| 0 <= i < root_markers().len() && contains(s, #[trigger] root_markers()[i])
}

fn is_known_root_issuer(subject: &Vec<char>, issuer: &Vec<char>) -> (r: bool)
    ensures
        r == known_root_spec(subject@, issuer@),
{
    let mut joined = subject.clone();
    assert(joined@ == subject@);
    extend_str(&mut joined, " ");
    extend(&mut joined, issuer);
    let up = chars(to_uppercase(crate::text::to_string(&joined).as_str()).as_str());
    let mut i: usize = 0;
    while i < 14
        invariant
            i <= 14,
            up@ == upper_text(subject@ + " "@ + issuer@),
            forall|j: int| 0 <= j < i ==> !contains(up@, #[trigger] root_markers()[j]),
        decreases 14 - i,
    {
        let m = chars(root_marker(i));
        if contains_v(&up, &m) {
            return true;
        }
        i = i + 1;
    }
    false
}

/// The common-name part of an upper-cased subject: after `CN=` up to the first
/// comma, or the whole subject when it does not start with `CN=`.
pub open spec fn cn_part(uc: Seq<char>) -> Seq<char> {
    if starts_with(uc, "CN="@) {
        before_char(uc.skip(3), ',')
    } else {
        uc
    }
}

fn cn_part_v(uc: &Vec<char>) -> (r: Vec<char>)
    ensures
        r@ == cn_part(uc@),
{
    let p = chars("CN=");
    proof {
        reveal_strlit("CN=");
    }
    if starts_with_v(uc, &p) {
        let rest = copy_range(uc, 3, uc.len());
        before_char_v(&rest, ',')
    } else {
        copy_range(uc, 0, uc.len())
    }
}

/// The second `:`-separated field of a common name (`split(':').nth(1)`).
pub open spec fn second_field(cn: Seq<char>) -> Option<Seq<char>> {
    let f = find_char(cn, ':');
    if f < 0 {
        None
    } else {
        Some(before_char(cn.skip(f + 1), ':'))
    }
}

fn second_field_v(cn: &Vec<char>) -> (r: Option<Vec<char>>)
    ensures
        match r {
            Some(v) => second_field(cn@) == Some(v@),
            None => second_field(cn@) is None,
        },
{
    let n = cn.len();
    match find_char_v(cn, ':') {
        Some(f) => {
            proof {
                lemma_find_char(cn@, ':');
            }
            let rest = copy_range(cn, f + 1, n);
            Some(before_char_v(&rest, ':'))
        },
        None => None,
    }
}

/// A common name of the form `NAME:DIGITS` with at least eleven digits.
pub open spec fn cnpj_like(cn: Seq<char>) -> bool {
    match second_field(cn) {
        Some(seg) => all_digits(seg) && seg.len() >= 11,
        None => false,
    }
}

fn all_digits_v(v: &Vec<char>) -> (r: bool)
    ensures
        r == all_digits(v@),
{
    let mut i: usize = 0;
    while i < v.len()
        invariant
            i <= v@.len(),
            forall|j: int| 0 <= j < i ==> is_ascii_digit(#[trigger] v@[j]),
        decreases v@.len() - i,
    {
        if !('0' <= v[i] && v[i] <= '9') {
            return false;
        }
        i = i + 1;
    }
    true
}

pub open spec fn corporate_marked(uc: Seq<char>) -> bool {
    contains(uc, "ICP-BRASIL"@) || contains(uc, "E-CNPJ"@) || contains(uc, "E-CPF"@) || contains(
        uc,
        "RECEITA FEDERAL"@,
    ) || contains(uc, "RFB"@)
}

/// The class of one certificate entry of the `certificates` collector.
pub open spec fn classify_spec(cert: Json) -> CertClass {
    let store = str_or(cert, "store"@, ""@);
    let subject = str_or(cert, "subject"@, ""@);
    let issuer = str_or(cert, "issuer"@, ""@);
    let has_pk = get_bool(cert, "has_private_key"@) == Some(true);
    let uc = upper_text(subject);
    if contains(store, "\\Root"@) && !has_pk && (known_root_spec(subject, issuer) || issuer
        == subject) {
        CertClass::RootHistorical
    } else {
        let cn = cn_part(uc);
        if (has_pk && (contains(cn, "PROJETO"@) || contains(cn, "DESKTOP"@) || contains(
            cn,
            "WILLIAM"@,
        ))) || (issuer == subject && has_pk) {
            CertClass::SelfSigned
        } else if contains(store, "\\My"@) && has_pk && (corporate_marked(uc) || (starts_with(
            uc,
            "CN="@,
        ) && cnpj_like(cn))) {
            CertClass::Corporate
        } else if contains(store, "\\My"@) {
            CertClass::Other
        } else {
            CertClass::RootHistorical
        }
    }
}

fn has(v: &Vec<char>, lit: &str) -> (r: bool)
    ensures
        r == contains(v@, lit@),
{
    let p = chars(lit);
    contains_v(v, &p)
}

/// Classifies a certificate as corporate (e-CNPJ / ICP-Brasil in the personal store
/// with a private key), historical root, self-signed, or other.
pub fn classify_certificate(cert: &Json) -> (r: CertClass)
    ensures
        r == classify_spec(*cert),
{
    let store = str_or_v(cert, "store", "");
    let subject = str_or_v(cert, "subject", "");
    let issuer = str_or_v(cert, "issuer", "");
    let has_pk = match json_bool(cert, "has_private_key") {
        Some(b) => b,
        None => false,
    };
    let uc = chars(to_uppercase(crate::text::to_string(&subject).as_str()).as_str());
    let same = eq_v(&issuer, &subject);
    if has(&store, "\\Root") && !has_pk {
        if is_known_root_issuer(&subject, &issuer) || same {
            return CertClass::RootHistorical;
        }
    }
    let cn = cn_part_v(&uc);
    if has_pk && (has(&cn, "PROJETO") || has(&cn, "DESKTOP") || has(&cn, "WILLIAM")) || (same
        && has_pk) {
        return CertClass::SelfSigned;
    }
    let my = has(&store, "\\My");
    if my && has_pk {
        if has(&uc, "ICP-BRASIL") || has(&uc, "E-CNPJ") || has(&uc, "E-CPF") || has(
            &uc,
            "RECEITA FEDERAL",
        ) || has(&uc, "RFB") {
            return CertClass::Corporate;
        }
        let p = chars("CN=");
        if starts_with_v(&uc, &p) {
            match second_field_v(&cn) {
                Some(seg) => {
                    if all_digits_v(&seg) && seg.len() >= 11 {
                        return CertClass::Corporate;
                    }
                },
                None => {},
            }
        }
    }
    if my {
        return CertClass::Other;
    }
    CertClass::RootHistorical
}

/// The ASCII digits of a text, in order.
pub open spec fn digits_only(s: Seq<char>) -> Seq<char>
    decreases s.len(),
{
    if s.len() == 0 {
        s
    } else if is_ascii_digit(s.last()) {
        digits_only(s.drop_last()).push(s.last())
    } else {
        digits_only(s.drop_last())
    }
}

fn digits_only_v(v: &Vec<char>) -> (r: Vec<char>)
    ensures
        r@ == digits_only(v@),
{
    let mut r: Vec<char> = Vec::new();
    let mut i: usize = 0;
    while i < v.len()
        invariant
            i <= v@.len(),
            r@ == digits_only(v@.take(i as int)),
        decreases v@.len() - i,
    {
        assert(v@.take(i + 1).drop_last() =~= v@.take(i as int));
        if '0' <= v[i] && v[i] <= '9' {
            r.push(v[i]);
        }
        i = i + 1;
    }
    assert(v@.take(v@.len() as int) =~= v@);
    r
}

/// The entity of a corporate certificate: the CNPJ/CPF digits of the common name when
/// there are at least eleven, otherwise the trimmed name before `:`.
pub open spec fn entity_key_spec(subject: Seq<char>) -> Seq<char> {
    let cn = cn_part(upper_text(subject));
    match second_field(cn) {
        Some(seg) => if digits_only(seg).len() >= 11 {
            digits_only(seg)
        } else {
            trim(before_char(cn, ':'))
        },
        None => trim(before_char(cn, ':')),
    }
}

fn corporate_cert_entity_key(subject: &Vec<char>) -> (r: Vec<char>)
    ensures
        r@ == entity_key_spec(subject@),
{
    let uc = chars(to_uppercase(crate::text::to_string(subject).as_str()).as_str());
    let cn = cn_part_v(&uc);
    if let Some(seg) = second_field_v(&cn) {
        let digits = digits_only_v(&seg);
        if digits.len() >= 11 {
            return digits;
        }
    }
    let head = before_char_v(&cn, ':');
    trim_v(&head)
}

/// `cert_short_name` is defined (no out-of-boundary byte slice) for a subject.
pub open spec fn short_name_defined(subject: Seq<char>) -> bool {
    let s = trim(subject);
    starts_with(s, "CN="@) || utf8_len(s) <= 80 || byte_prefix_len(s, 77) is Some
}

/// A short display name: the common name, or the first 77 bytes and `…` of a long
/// subject.
pub open spec fn short_name_spec(subject: Seq<char>) -> Seq<char> {
    let s = trim(subject);
    if starts_with(s, "CN="@) {
        trim(before_char(s.skip(3), ','))
    } else if utf8_len(s) > 80 {
        match byte_prefix_len(s, 77) {
            Some(k) => s.take(k as int).push('…'),
            None => s,
        }
    } else {
        s
    }
}

fn cert_short_name(subject: &Vec<char>) -> (r: Vec<char>)
    requires
        short_name_defined(subject@),
    ensures
        r@ == short_name_spec(subject@),
{
    let s = trim_v(subject);
    let p = chars("CN=");
    proof {
        reveal_strlit("CN=");
    }
    if starts_with_v(&s, &p) {
        let rest = copy_range(&s, 3, s.len());
        let head = before_char_v(&rest, ',');
        return trim_v(&head);
    }
    if utf8_len_v(&s) > 80 {
        match byte_prefix_v(&s, 77) {
            Some(mut pre) => {
                pre.push('…');
                pre
            },
            None => s,
        }
    } else {
        s
    }
}

/// Best validity per corporate entity: `(entity, days_left, short name)` in order of
/// first appearance.
pub open spec fn entity_index(m: Seq<(Seq<char>, i64, Seq<char>)>, e: Seq<char>) -> int
    decreases m.len(),
{
    if m.len() == 0 {
        -1
    } else if m.last().0 == e {
        m.len() - 1
    } else {
        entity_index(m.drop_last(), e)
    }
}

pub proof fn lemma_entity_index(m: Seq<(Seq<char>, i64, Seq<char>)>, e: Seq<char>)
    ensures
        -1 <= entity_index(m, e) < m.len(),
        entity_index(m, e) >= 0 ==> m[entity_index(m, e)].0 == e,
    decreases m.len(),
{
    if m.len() > 0 && m.last().0 != e {
        lemma_entity_index(m.drop_last(), e);
    }
}

pub open spec fn upsert_spec(
    m: Seq<(Seq<char>, i64, Seq<char>)>,
    e: Seq<char>,
    days: i64,
    short: Seq<char>,
) -> Seq<(Seq<char>, i64, Seq<char>)> {
    let i = entity_index(m, e);
    if i < 0 {
        m.push((e, days, short))
    } else if days > m[i].1 {
        m.update(i, (e, days, short))
    } else {
        m
    }
}

pub open spec fn subject_of(cert: Json) -> Seq<char> {
    str_or(cert, "subject"@, "?"@)
}

pub open spec fn entity_step(
    m: Seq<(Seq<char>, i64, Seq<char>)>,
    cert: Json,
    default_days: i64,
) -> Seq<(Seq<char>, i64, Seq<char>)> {
    if classify_spec(cert) != CertClass::Corporate {
        m
    } else {
        let subject = subject_of(cert);
        let days = match get_i64(cert, "days_left"@) {
            Some(d) => d,
            None => default_days,
        };
        upsert_spec(m, entity_key_spec(subject), days, short_name_spec(subject))
    }
}

pub open spec fn entity_fold(
    m: Seq<(Seq<char>, i64, Seq<char>)>,
    certs: Seq<Json>,
    default_days: i64,
) -> Seq<(Seq<char>, i64, Seq<char>)>
    decreases certs.len(),
{
    if certs.len() == 0 {
        m
    } else {
        entity_step(entity_fold(m, certs.drop_last(), default_days), certs.last(), default_days)
    }
}

pub open spec fn array_or_empty(data: Json, key: Seq<char>) -> Seq<Json> {
    match get_array(data, key) {
        Some(a) => a,
        None => Seq::empty(),
    }
}

/// The corporate entities of a `certificates` collector, visiting `certificates`,
/// `expiring_soon` and `expired` in that order (a missing `days_left` counts as 30,
/// or -1 under `expired`).
pub open spec fn best_days_spec(data: Json) -> Seq<(Seq<char>, i64, Seq<char>)> {
    let m1 = entity_fold(Seq::empty(), array_or_empty(data, "certificates"@), 30);
    let m2 = entity_fold(m1, array_or_empty(data, "expiring_soon"@), 30);
    entity_fold(m2, array_or_empty(data, "expired"@), -1i64)
}

/// Every corporate certificate of the collector has a subject whose short name is
/// defined.
pub open spec fn certs_sliceable(data: Json) -> bool {
    forall|k: int, i: int|
        0 <= k < 3 && 0 <= i < array_or_empty(data, cert_keys()[k]).len() && classify_spec(
            #[trigger] array_or_empty(data, cert_keys()[k])[i],
        ) == CertClass::Corporate ==> short_name_defined(
            subject_of(array_or_empty(data, cert_keys()[k])[i]),
        )
}

pub open spec fn cert_keys() -> Seq<Seq<char>> {
    seq!["certificates"@, "expiring_soon"@, "expired"@]
}

pub type Entities = Vec<(Vec<char>, i64, Vec<char>)>;

pub open spec fn ents_view(m: Seq<(Vec<char>, i64, Vec<char>)>) -> Seq<(Seq<char>, i64, Seq<char>)> {
    m.map_values(|t: (Vec<char>, i64, Vec<char>)| (t.0@, t.1, t.2@))
}

fn upsert(m: &mut Entities, e: Vec<char>, days: i64, short: Vec<char>)
    ensures
        ents_view(final(m)@) == upsert_spec(ents_view(old(m)@), e@, days, short@),
{
    let ghost mv = ents_view(m@);
    let mut i: usize = m.len();
    assert(mv.take(i as int) =~= mv);
    while i > 0
        invariant
            i <= m@.len(),
            mv == ents_view(m@),
            mv == ents_view(old(m)@),
            entity_index(mv, e@) == entity_index(mv.take(i as int), e@),
        decreases i,
    {
        let same = eq_v(&m[i - 1].0, &e);
        assert(mv.take(i as int).drop_last() =~= mv.take(i - 1));
        assert(mv.take(i as int).last() == mv[i - 1]);
        assert(mv[i - 1] == (m@[i - 1].0@, m@[i - 1].1, m@[i - 1].2@));
        if same {
            proof {
                lemma_entity_index(mv, e@);
                assert(entity_index(mv.take(i as int), e@) == i - 1);
            }
            if days > m[i - 1].1 {
                m.set(i - 1, (e, days, short));
                assert(ents_view(m@) =~= mv.update(i - 1, (e@, days, short@)));
            }
            return;
        }
        i = i - 1;
    }
    assert(mv.take(0) =~= Seq::<(Seq<char>, i64, Seq<char>)>::empty());
    m.push((e, days, short));
    assert(ents_view(m@) =~= mv.push((e@, days, short@)));
}

fn fold_certs(m: &mut Entities, certs: &Vec<Json>, default_days: i64)
    requires
        forall|i: int|
            0 <= i < certs@.len() && classify_spec(#[trigger] certs@[i]) == CertClass::Corporate
                ==> short_name_defined(subject_of(certs@[i])),
    ensures
        ents_view(final(m)@) == entity_fold(ents_view(old(m)@), certs@, default_days),
{
    let ghost m0 = ents_view(m@);
    let mut i: usize = 0;
    while i < certs.len()
        invariant
            i <= certs@.len(),
            forall|i: int|
                0 <= i < certs@.len() && classify_spec(#[trigger] certs@[i])
                    == CertClass::Corporate ==> short_name_defined(subject_of(certs@[i])),
            ents_view(m@) == entity_fold(m0, certs@.take(i as int), default_days),
        decreases certs@.len() - i,
    {
        let cert = &certs[i];
        assert(certs@.take(i + 1).drop_last() =~= certs@.take(i as int));
        assert(certs@.take(i + 1).last() == certs@[i as int]);
        if classify_certificate(cert) == CertClass::Corporate {
            let subject = str_or_v(cert, "subject", "?");
            let entity = corporate_cert_entity_key(&subject);
            let short = cert_short_name(&subject);
            let days = match json_i64(cert, "days_left") {
                Some(d) => d,
                None => default_days,
            };
            upsert(m, entity, days, short);
        }
        i = i + 1;
    }
    assert(certs@.take(certs@.len() as int) =~= certs@);
}

pub fn array_or_empty_v<'a>(data: &'a Json, key: &str, empty: &'a Vec<Json>) -> (r: &'a Vec<Json>)
    requires
        empty@.len() == 0,
    ensures
        r@ == array_or_empty(*data, key@),
{
    match json_array(data, key) {
        Some(a) => a,
        None => empty,
    }
}

/// Best validity (`days_left`) per corporate entity (CNPJ or company name).
pub fn corporate_entities_best_days(data: &Json) -> (r: Entities)
    requires
        certs_sliceable(*data),
    ensures
        ents_view(r@) == best_days_spec(*data),
{
    let empty: Vec<Json> = Vec::new();
    let mut m: Entities = Vec::new();
    assert(ents_view(m@) =~= Seq::<(Seq<char>, i64, Seq<char>)>::empty());
    let a1 = array_or_empty_v(data, "certificates", &empty);
    assert(cert_keys()[0] == "certificates"@);
    assert(forall|i: int| 0 <= i < a1@.len() ==> #[trigger] a1@[i] == array_or_empty(*data, cert_keys()[0])[i]);
    fold_certs(&mut m, a1, 30);
    let a2 = array_or_empty_v(data, "expiring_soon", &empty);
    assert(cert_keys()[1] == "expiring_soon"@);
    assert(forall|i: int| 0 <= i < a2@.len() ==> #[trigger] a2@[i] == array_or_empty(*data, cert_keys()[1])[i]);
    fold_certs(&mut m, a2, 30);
    let a3 = array_or_empty_v(data, "expired", &empty);
    assert(cert_keys()[2] == "expired"@);
    assert(forall|i: int| 0 <= i < a3@.len() ==> #[trigger] a3@[i] == array_or_empty(*data, cert_keys()[2])[i]);
    fold_certs(&mut m, a3, -1);
    m
}

fn short_name_defined_v(subject: &Vec<char>) -> (r: bool)
    ensures
        r == short_name_defined(subject@),
{
    let s = trim_v(subject);
    let p = chars("CN=");
    if starts_with_v(&s, &p) {
        return true;
    }
    if utf8_len_v(&s) <= 80 {
        return true;
    }
    byte_prefix_v(&s, 77).is_some()
}

fn fold_sliceable(certs: &Vec<Json>) -> (r: bool)
    ensures
        r == fold_sliceable_spec(certs@),
{
    let mut i: usize = 0;
    while i < certs.len()
        invariant
            i <= certs@.len(),
            forall|j: int|
                0 <= j < i && classify_spec(#[trigger] certs@[j]) == CertClass::Corporate
                    ==> short_name_defined(subject_of(certs@[j])),
        decreases certs@.len() - i,
    {
        let cert = &certs[i];
        if classify_certificate(cert) == CertClass::Corporate {
            let subject = str_or_v(cert, "subject", "?");
            if !short_name_defined_v(&subject) {
                return false;
            }
        }
        i = i + 1;
    }
    true
}

/// Whether every corporate certificate of a `certificates` collector has a short name
/// that can be cut without splitting a character (what
/// [`corporate_entities_best_days`] requires).
pub fn certs_sliceable_v(data: &Json) -> (r: bool)
    ensures
        r == certs_sliceable(*data),
{
    let empty: Vec<Json> = Vec::new();
    let a1 = array_or_empty_v(data, "certificates", &empty);
    let a2 = array_or_empty_v(data, "expiring_soon", &empty);
    let a3 = array_or_empty_v(data, "expired", &empty);
    assert(cert_keys()[0] == "certificates"@);
    assert(cert_keys()[1] == "expiring_soon"@);
    assert(cert_keys()[2] == "expired"@);
    let r = fold_sliceable(a1) && fold_sliceable(a2) && fold_sliceable(a3);
    proof {
        if r {
            assert forall|k: int, i: int|
                0 <= k < 3 && 0 <= i < array_or_empty(*data, cert_keys()[k]).len() && classify_spec(
                    #[trigger] array_or_empty(*data, cert_keys()[k])[i],
                ) == CertClass::Corporate implies short_name_defined(
                subject_of(array_or_empty(*data, cert_keys()[k])[i]),
            ) by {
                if k == 0 {
                    assert(a1@[i] == array_or_empty(*data, cert_keys()[k])[i]);
                } else if k == 1 {
                    assert(a2@[i] == array_or_empty(*data, cert_keys()[k])[i]);
                } else {
                    assert(a3@[i] == array_or_empty(*data, cert_keys()[k])[i]);
                }
            }
        } else {
            if !fold_sliceable_spec(a1@) {
                let i = choose|i: int| 0 <= i < a1@.len() && classify_spec(#[trigger] a1@[i]) == CertClass::Corporate
                    && !short_name_defined(subject_of(a1@[i]));
                assert(array_or_empty(*data, cert_keys()[0])[i] == a1@[i]);
            } else if !fold_sliceable_spec(a2@) {
                let i = choose|i: int| 0 <= i < a2@.len() && classify_spec(#[trigger] a2@[i]) == CertClass::Corporate
                    && !short_name_defined(subject_of(a2@[i]));
                assert(array_or_empty(*data, cert_keys()[1])[i] == a2@[i]);
            } else {
                let i = choose|i: int| 0 <= i < a3@.len() && classify_spec(#[trigger] a3@[i]) == CertClass::Corporate
                    && !short_name_defined(subject_of(a3@[i]));
                assert(array_or_empty(*data, cert_keys()[2])[i] == a3@[i]);
            }
        }
    }
    r
}

spec fn fold_sliceable_spec(certs: Seq<Json>) -> bool {
    forall|i: int|
        0 <= i < certs.len() && classify_spec(#[trigger] certs[i]) == CertClass::Corporate
            ==> short_name_defined(subject_of(certs[i]))
}

/// Folding certificates none of which is corporate leaves the entities unchanged.
pub proof fn lemma_fold_without_corporate(
    m: Seq<(Seq<char>, i64, Seq<char>)>,
    certs: Seq<Json>,
    d: i64,
)
    requires
        forall|i: int| 0 <= i < certs.len() ==> classify_spec(#[trigger] certs[i])
            != CertClass::Corporate,
    ensures
        entity_fold(m, certs, d) == m,
    decreases certs.len(),
{
    if certs.len() > 0 {
        let t = certs.drop_last();
        assert forall|i: int| 0 <= i < t.len() implies classify_spec(#[trigger] t[i])
            != CertClass::Corporate by {
            assert(t[i] == certs[i]);
        }
        lemma_fold_without_corporate(m, t, d);
        assert(certs.last() == certs[certs.len() - 1]);
    }
}

} // verus!
