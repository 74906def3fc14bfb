//! Calls into std and the outside crates whose results the library uses.
//! Each item here is trusted: its contract is taken as stated, not proved.

use vstd::prelude::*;
use crate::models::UtcTime;
use base64::Engine;

verus! {

// ---------------------------------------------------------------------------
// std: Unicode case mapping
// ---------------------------------------------------------------------------

/// What `str::to_uppercase` returns for a text (full Unicode case mapping); the
/// library only applies it to text that is not all ASCII (see [`upper_text`]).
pub uninterp spec fn unicode_upper(s: Seq<char>) -> Seq<char>;

/// What `str::to_lowercase` returns for a text (full Unicode case mapping); the
/// library only applies it to text that is not all ASCII (see [`lower_text`]).
pub uninterp spec fn unicode_lower(s: Seq<char>) -> Seq<char>;

/// `str::to_uppercase`: on ASCII text, where the Unicode mapping is the ASCII one, `a`
/// to `z` become `A` to `Z` and nothing else changes; other text is named.
pub open spec fn upper_text(s: Seq<char>) -> Seq<char> {
    if crate::text::all_ascii(s) {
        crate::text::ascii_upper(s)
    } else {
        unicode_upper(s)
    }
}

/// `str::to_lowercase`: on ASCII text `A` to `Z` become `a` to `z` and nothing else
/// changes; other text is named.
pub open spec fn lower_text(s: Seq<char>) -> Seq<char> {
    if crate::text::all_ascii(s) {
        crate::text::ascii_lower(s)
    } else {
        unicode_lower(s)
    }
}

/// Calls `str::to_uppercase`. On ASCII text the Unicode uppercase mapping of each
/// character is its ASCII one (letters `a`-`z` to `A`-`Z`, every other ASCII
/// character unchanged, one character each); other text is named `unicode_upper`.
#[verifier::external_body]
pub fn to_uppercase(s: &str) -> (r: String)
    ensures
        crate::text::all_ascii(s@) ==> r@ == crate::text::ascii_upper(s@),
        !crate::text::all_ascii(s@) ==> r@ == unicode_upper(s@),
{
    s.to_uppercase()
}

/// Calls `str::to_lowercase`. On ASCII text the Unicode lowercase mapping of each
/// character is its ASCII one (letters `A`-`Z` to `a`-`z`, every other ASCII
/// character unchanged, one character each); other text is named `unicode_lower`.
#[verifier::external_body]
pub fn to_lowercase(s: &str) -> (r: String)
    ensures
        crate::text::all_ascii(s@) ==> r@ == crate::text::ascii_lower(s@),
        !crate::text::all_ascii(s@) ==> r@ == unicode_lower(s@),
{
    s.to_lowercase()
}

// ---------------------------------------------------------------------------
// std: lossy text decoding
// ---------------------------------------------------------------------------

/// What `String::from_utf8_lossy` gives for some bytes (invalid sequences become
/// U+FFFD).
pub uninterp spec fn utf8_lossy(b: Seq<u8>) -> Seq<char>;

/// Calls `String::from_utf8_lossy`; the result is named `utf8_lossy` of the bytes.
#[verifier::external_body]
pub fn from_utf8_lossy(b: &[u8]) -> (r: String)
    ensures
        r@ == utf8_lossy(b@),
{
    String::from_utf8_lossy(b).into_owned()
}

/// What `String::from_utf16_lossy` gives for some UTF-16 code units (unpaired
/// surrogates become U+FFFD).
pub uninterp spec fn utf16_lossy(u: Seq<u16>) -> Seq<char>;

/// Calls `String::from_utf16_lossy`; the result is named `utf16_lossy` of the units.
#[verifier::external_body]
pub fn from_utf16_lossy(u: &[u16]) -> (r: String)
    ensures
        r@ == utf16_lossy(u@),
{
    String::from_utf16_lossy(u)
}

// ---------------------------------------------------------------------------
// sha2: SHA-256 of a text, written as lower-case hex
// ---------------------------------------------------------------------------

/// The lower-case hex text of the SHA-256 digest of the UTF-8 bytes of a text.
pub uninterp spec fn sha256_hex(s: Seq<char>) -> Seq<char>;

/// A lower-case hexadecimal digit.
pub open spec fn lower_hex_digit(c: char) -> bool {
    ('0' <= c && c <= '9') || ('a' <= c && c <= 'f')
}

/// Calls `sha2::Sha256::digest` on the UTF-8 bytes of `s` and writes the digest with
/// `{:x}`; the result is named `sha256_hex` of the argument. The digest is 32 bytes
/// and `{:x}` writes each as two lower-case hex digits, so the text is 64 of them.
#[verifier::external_body]
pub fn sha256_hex_of(s: &str) -> (r: String)
    ensures
        r@ == sha256_hex(s@),
        r@.len() == 64,
        forall|i: int| 0 <= i < 64 ==> lower_hex_digit(#[trigger] r@[i]),
{
    format!("{:x}", <sha2::Sha256 as sha2::Digest>::digest(s.as_bytes()))
}

// ---------------------------------------------------------------------------
// chrono: the clock
// ---------------------------------------------------------------------------

/// Whether `chrono::DateTime::<Utc>::from_timestamp(secs, nanos)` gives an instant
/// (the seconds are within chrono's range and the nanoseconds are valid for them).
pub uninterp spec fn chrono_instant(secs: i64, nanos: u32) -> bool;

/// Calls `chrono::Utc::now`. Nothing is stated of the instant but what chrono
/// documents of every `DateTime<Utc>`: its `timestamp` and `timestamp_subsec_nanos`
/// round-trip through `from_timestamp`.
#[verifier::external_body]
pub fn utc_now() -> (r: UtcTime)
    ensures
        chrono_instant(r.secs, r.nanos),
{
    let n = chrono::Utc::now();
    UtcTime { secs: n.timestamp(), nanos: n.timestamp_subsec_nanos() }
}

/// What `chrono::DateTime::parse_from_rfc3339` gives for a text, as the UTC
/// timestamp and sub-second nanoseconds of the instant, or `None` where it fails.
pub uninterp spec fn rfc3339_instant(s: Seq<char>) -> Option<(i64, u32)>;

/// Calls `chrono::DateTime::parse_from_rfc3339` and converts the instant to UTC;
/// the result is named `rfc3339_instant` of the text, and is an instant chrono can
/// rebuild.
#[verifier::external_body]
pub fn parse_rfc3339(s: &str) -> (r: Option<UtcTime>)
    ensures
        match r {
            Some(t) => rfc3339_instant(s@) == Some((t.secs, t.nanos)) && chrono_instant(t.secs, t.nanos),
            None => rfc3339_instant(s@) is None,
        },
{
    match chrono::DateTime::parse_from_rfc3339(s) {
        Ok(d) => {
            let u = d.with_timezone(&chrono::Utc);
            Some(UtcTime { secs: u.timestamp(), nanos: u.timestamp_subsec_nanos() })
        },
        Err(_) => None,
    }
}

/// What `chrono::NaiveDateTime::parse_from_str(s, "%Y-%m-%dT%H:%M:%S%.f")` gives for
/// a text, read as UTC: timestamp and sub-second nanoseconds, or `None`.
pub uninterp spec fn naive_instant(s: Seq<char>) -> Option<(i64, u32)>;

/// Calls `chrono::NaiveDateTime::parse_from_str` with `%Y-%m-%dT%H:%M:%S%.f` and
/// reads the result as UTC (`and_utc`); the result is named `naive_instant` of the
/// text, and is an instant chrono can rebuild.
#[verifier::external_body]
pub fn parse_naive(s: &str) -> (r: Option<UtcTime>)
    ensures
        match r {
            Some(t) => naive_instant(s@) == Some((t.secs, t.nanos)) && chrono_instant(t.secs, t.nanos),
            None => naive_instant(s@) is None,
        },
{
    match chrono::NaiveDateTime::parse_from_str(s, "%Y-%m-%dT%H:%M:%S%.f") {
        Ok(n) => {
            let u = n.and_utc();
            Some(UtcTime { secs: u.timestamp(), nanos: u.timestamp_subsec_nanos() })
        },
        Err(_) => None,
    }
}

/// The text `DateTime::<Utc>::format(fmt)` writes for an instant.
pub uninterp spec fn utc_text(secs: i64, nanos: u32, fmt: Seq<char>) -> Seq<char>;

/// The formats the library writes instants with; chrono writes each of them for any
/// instant without error.
pub open spec fn utc_format_ok(fmt: Seq<char>) -> bool {
    fmt == "%Y-%m-%d"@ || fmt == "%Y%m%d"@ || fmt == "%Y-%m-%d %H:%M"@ || fmt == "%Y-%m-%d %H:%M UTC"@
}

/// The text an instant is written with, or nothing where chrono cannot build it.
pub open spec fn utc_text_or_empty(t: UtcTime, fmt: Seq<char>) -> Seq<char> {
    if chrono_instant(t.secs, t.nanos) {
        utc_text(t.secs, t.nanos, fmt)
    } else {
        Seq::empty()
    }
}

/// Builds the instant with `chrono::DateTime::from_timestamp` and writes it with
/// `format(fmt)`; the result is named `utc_text` of the instant and the format. Where
/// `from_timestamp` gives no instant, the text is empty.
#[verifier::external_body]
pub fn format_utc(t: UtcTime, fmt: &str) -> (r: String)
    requires
        utc_format_ok(fmt@),
    ensures
        chrono_instant(t.secs, t.nanos) ==> r@ == utc_text(t.secs, t.nanos, fmt@),
        !chrono_instant(t.secs, t.nanos) ==> r@ == Seq::<char>::empty(),
{
    match chrono::DateTime::from_timestamp(t.secs, t.nanos) {
        Some(d) => d.format(fmt).to_string(),
        None => String::new(),
    }
}


/// The text `DateTime::<Utc>::to_rfc3339` writes for an instant.
pub uninterp spec fn rfc3339_text(secs: i64, nanos: u32) -> Seq<char>;

/// Builds the instant with `chrono::DateTime::from_timestamp` and writes it with
/// `to_rfc3339`; the result is named `rfc3339_text` of the instant. Where
/// `from_timestamp` gives no instant, the text is empty.
#[verifier::external_body]
pub fn format_rfc3339(t: UtcTime) -> (r: String)
    ensures
        chrono_instant(t.secs, t.nanos) ==> r@ == rfc3339_text(t.secs, t.nanos),
        !chrono_instant(t.secs, t.nanos) ==> r@ == Seq::<char>::empty(),
{
    match chrono::DateTime::from_timestamp(t.secs, t.nanos) {
        Some(d) => d.to_rfc3339(),
        None => String::new(),
    }
}


/// What `(end - start).num_minutes()` gives for two chrono instants (whole minutes,
/// rounded toward zero).
pub uninterp spec fn minutes_between(start_secs: i64, start_nanos: u32, end_secs: i64, end_nanos: u32) -> i64;

/// Builds both instants with `chrono::DateTime::from_timestamp`, subtracts them and
/// calls `TimeDelta::num_minutes`; the result is named `minutes_between` of the two
/// instants.
#[verifier::external_body]
pub fn whole_minutes_between(start: UtcTime, end: UtcTime) -> (r: i64)
    requires
        chrono_instant(start.secs, start.nanos),
        chrono_instant(end.secs, end.nanos),
    ensures
        r == minutes_between(start.secs, start.nanos, end.secs, end.nanos),
{
    match (chrono::DateTime::from_timestamp(start.secs, start.nanos), chrono::DateTime::from_timestamp(end.secs, end.nanos)) {
        (Some(a), Some(b)) => (b - a).num_minutes(),
        _ => 0,
    }
}

/// What `(end - start).num_seconds()` gives for two chrono instants (whole seconds,
/// rounded toward zero).
pub uninterp spec fn seconds_between(start_secs: i64, start_nanos: u32, end_secs: i64, end_nanos: u32) -> i64;

/// Builds both instants with `chrono::DateTime::from_timestamp`, subtracts them and
/// calls `TimeDelta::num_seconds`; the result is named `seconds_between` of the two
/// instants.
#[verifier::external_body]
pub fn whole_seconds_between(start: UtcTime, end: UtcTime) -> (r: i64)
    requires
        chrono_instant(start.secs, start.nanos),
        chrono_instant(end.secs, end.nanos),
    ensures
        r == seconds_between(start.secs, start.nanos, end.secs, end.nanos),
{
    match (chrono::DateTime::from_timestamp(start.secs, start.nanos), chrono::DateTime::from_timestamp(end.secs, end.nanos)) {
        (Some(a), Some(b)) => (b - a).num_seconds(),
        _ => 0,
    }
}

// ---------------------------------------------------------------------------
// std: Debug text of a string
// ---------------------------------------------------------------------------

/// The text `<str as Debug>::fmt` writes for a string: the string in double quotes,
/// with Rust's escapes.
pub uninterp spec fn debug_str_text(s: Seq<char>) -> Seq<char>;

/// Writes a string with `format!("{:?}", s)`; the result is named `debug_str_text` of
/// the string.
#[verifier::external_body]
pub fn debug_str(s: &str) -> (r: String)
    ensures
        r@ == debug_str_text(s@),
{
    format!("{:?}", s)
}

// ---------------------------------------------------------------------------
// base64
// ---------------------------------------------------------------------------

/// What `base64::engine::general_purpose::STANDARD.decode` gives for a text's UTF-8
/// bytes: the decoded bytes, or `None` where it refuses them.
pub uninterp spec fn b64_standard(s: Seq<char>) -> Option<Seq<u8>>;

/// Calls `STANDARD.decode` (padded standard alphabet) on the text's bytes; the result
/// is named `b64_standard` of the text, its error dropped.
#[verifier::external_body]
pub fn decode_b64_standard(s: &str) -> (r: Option<Vec<u8>>)
    ensures
        match r {
            Some(b) => b64_standard(s@) == Some(b@),
            None => b64_standard(s@) is None,
        },
{
    match base64::engine::general_purpose::STANDARD.decode(s.as_bytes()) {
        Ok(b) => Some(b),
        Err(_) => None,
    }
}

/// What `base64::engine::general_purpose::STANDARD_NO_PAD.decode` gives for a text's
/// UTF-8 bytes: the decoded bytes, or the text of its `DecodeError`.
pub uninterp spec fn b64_no_pad(s: Seq<char>) -> Result<Seq<u8>, Seq<char>>;

/// Calls `STANDARD_NO_PAD.decode` on the text's bytes and writes its error with
/// `to_string`; the result is named `b64_no_pad` of the text.
#[verifier::external_body]
pub fn decode_b64_no_pad(s: &str) -> (r: Result<Vec<u8>, String>)
    ensures
        match r {
            Ok(b) => b64_no_pad(s@) == Ok::<Seq<u8>, Seq<char>>(b@),
            Err(e) => b64_no_pad(s@) == Err::<Seq<u8>, Seq<char>>(e@),
        },
{
    match base64::engine::general_purpose::STANDARD_NO_PAD.decode(s.as_bytes()) {
        Ok(b) => Ok(b),
        Err(e) => Err(e.to_string()),
    }
}

// ---------------------------------------------------------------------------
// zip: an archive written in memory
// ---------------------------------------------------------------------------

/// A `zip::ZipWriter` over an in-memory buffer. Verus does not read the writer's
/// type, so it is held here, and what it holds is named by `zip_entries`.
#[verifier::external_body]
pub struct MemZip {
    writer: zip::ZipWriter<std::io::Cursor<Vec<u8>>>,
}

/// The files an archive holds so far: each file's name and text, in order.
pub uninterp spec fn zip_entries(z: MemZip) -> Seq<(Seq<char>, Seq<char>)>;

/// The bytes `ZipWriter::finish` gives for an archive of these files, each stored
/// deflated with the default options (the writer is built without the `time`
/// feature, so every file carries the same fixed date).
pub uninterp spec fn zip_archive(entries: Seq<(Seq<char>, Seq<char>)>) -> Seq<u8>;

/// The largest text, in UTF-8 bytes, that a file of the archive may hold and still
/// be written without the zip64 option: 2 GiB. The writer refuses a file past 4 GiB
/// written or compressed (`Large file option has not been set`), and deflate makes
/// incompressible text only a few bytes longer per 64 KiB block.
pub open spec fn zip_text_limit() -> nat {
    0x8000_0000
}

/// A file of this name is in the archive already.
pub open spec fn zip_has_name(e: Seq<(Seq<char>, Seq<char>)>, name: Seq<char>) -> bool {
    exists|i: int| 0 <= i < e.len() && (#[trigger] e[i]).0 == name
}

/// Every file of the archive is within [`zip_text_limit`].
pub open spec fn zip_texts_fit(e: Seq<(Seq<char>, Seq<char>)>) -> bool {
    forall|i: int| 0 <= i < e.len() ==> crate::text::utf8_len((#[trigger] e[i]).1) <= zip_text_limit()
}

/// Calls `ZipWriter::new` on an empty `Cursor<Vec<u8>>`: an archive with no file.
#[verifier::external_body]
pub fn zip_new() -> (z: MemZip)
    ensures
        zip_entries(z) == Seq::<(Seq<char>, Seq<char>)>::empty(),
{
    MemZip { writer: zip::ZipWriter::new(std::io::Cursor::new(Vec::new())) }
}

/// Calls `ZipWriter::start_file` with deflate compression at its default level:
/// where it succeeds the archive holds one more, empty, file of that name. It
/// succeeds where the name is new to the archive and the files written so far are
/// within [`zip_text_limit`]: its other errors come from writing to the buffer, which
/// an in-memory `Cursor` never refuses, and from options this call does not set. A
/// name longer than 65535 bytes makes it panic. Where it fails, nothing is stated of
/// the archive.
#[verifier::external_body]
pub fn zip_start_file(z: &mut MemZip, name: &str) -> (r: Result<(), String>)
    requires
        crate::text::utf8_len(name@) <= 65535,
    ensures
        r is Ok ==> zip_entries(*final(z)) == zip_entries(*old(z)).push((name@, Seq::<char>::empty())),
        !zip_has_name(zip_entries(*old(z)), name@) && zip_texts_fit(zip_entries(*old(z))) ==> r is Ok,
{
    let opt: zip::write::FileOptions<'_, ()> =
        zip::write::FileOptions::default().compression_method(zip::CompressionMethod::Deflated);
    match z.writer.start_file(name, opt) {
        Ok(()) => Ok(()),
        Err(e) => Err(e.to_string()),
    }
}

/// Calls `Write::write_all` on the archive with the text's UTF-8 bytes: where it
/// succeeds the text is appended to the file last started. It succeeds where that
/// file stays within [`zip_text_limit`] (the writer refuses only a file past 4 GiB
/// and errors of the in-memory buffer, which has none). Where it fails, nothing is
/// stated of the archive.
#[verifier::external_body]
pub fn zip_write_text(z: &mut MemZip, text: &str) -> (r: Result<(), String>)
    requires
        zip_entries(*old(z)).len() > 0,
    ensures
        r is Ok ==> zip_entries(*final(z)) == zip_entries(*old(z)).update(
            zip_entries(*old(z)).len() - 1,
            (zip_entries(*old(z)).last().0, zip_entries(*old(z)).last().1 + text@),
        ),
        zip_texts_fit(zip_entries(*old(z))) && crate::text::utf8_len(zip_entries(*old(z)).last().1 + text@)
            <= zip_text_limit() ==> r is Ok,
{
    match std::io::Write::write_all(&mut z.writer, text.as_bytes()) {
        Ok(()) => Ok(()),
        Err(e) => Err(e.to_string()),
    }
}

/// Calls `ZipWriter::finish` and takes the buffer: where it succeeds, the bytes are
/// named `zip_archive` of the files written. It succeeds where every file is within
/// [`zip_text_limit`] (finishing checks the last file's compressed size and writes the
/// central directory, switching to zip64 records by itself where offsets need them).
#[verifier::external_body]
pub fn zip_finish(z: MemZip) -> (r: Result<Vec<u8>, String>)
    ensures
        r matches Ok(b) ==> b@ == zip_archive(zip_entries(z)),
        zip_texts_fit(zip_entries(z)) ==> r is Ok,
{
    match z.writer.finish() {
        Ok(c) => Ok(c.into_inner()),
        Err(e) => Err(e.to_string()),
    }
}

// ---------------------------------------------------------------------------
// rand
// ---------------------------------------------------------------------------

/// Calls `rand::thread_rng().gen_range(0..n)`: some number below `n`, at random.
#[verifier::external_body]
pub fn random_below(n: usize) -> (r: usize)
    requires
        n > 0,
    ensures
        r < n,
{
    rand::Rng::gen_range(&mut rand::thread_rng(), 0..n)
}

} // verus!
