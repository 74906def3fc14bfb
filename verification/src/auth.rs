//! IT logins: password hashing, generated passwords and bearer tokens.

use vstd::prelude::*;
use crate::ext::random_below;
use crate::text::{byte_prefix_len, chars, eq_ignore_case, to_string, trim, utf8_len};

verus! {

/// How long an IT session lasts, in hours.
pub const SESSION_HOURS: i64 = 12;

/// The IT account created when there is none.
pub const BOOTSTRAP_USER: &'static str = "ti";

pub struct LoginRequest {
    pub username: String,
    pub password: String,
}

pub struct LoginResponse {
    pub token: String,
    pub username: String,
    pub expires_at: String,
}

pub struct MeResponse {
    pub authenticated: bool,
    pub username: Option<String>,
}

/// Whether `bcrypt::verify(password, hash)` accepts the password (a hash it cannot
/// read counts as a refusal).
pub uninterp spec fn bcrypt_accepts(password: Seq<char>, hash: Seq<char>) -> bool;

/// The start of every hash `bcrypt::hash` writes at the default cost: version `2b`,
/// cost `12`.
pub open spec fn bcrypt_prefix() -> Seq<char> {
    "$2b$12$"@
}

/// Calls `bcrypt::hash` with `bcrypt::DEFAULT_COST` (12) and a random salt. Where it
/// succeeds, `bcrypt::verify` accepts the password against the hash (both read the
/// same first 72 bytes with the same salt and cost), and the hash is the modular
/// crypt text `HashParts::format` writes: `$2b$12$`, then the 16-byte salt and the
/// 23-byte digest in bcrypt's unpadded base64 (22 and 31 characters), 60 characters in
/// all. Which salt and digest is not stated: the salt is random.
#[verifier::external_body]
pub fn hash_password(password: &str) -> (r: Result<String, String>)
    ensures
        r matches Ok(h) ==> bcrypt_accepts(password@, h@),
        r matches Ok(h) ==> h@.len() == 60 && h@.take(7) == bcrypt_prefix(),
{
    match bcrypt::hash(password, bcrypt::DEFAULT_COST) {
        Ok(h) => Ok(h),
        Err(e) => Err(e.to_string()),
    }
}

/// Calls `bcrypt::verify`; an error (an unreadable hash) reads as `false`. The result
/// is named `bcrypt_accepts` of the password and the hash.
#[verifier::external_body]
pub fn verify_password(password: &str, hash: &str) -> (r: bool)
    ensures
        r == bcrypt_accepts(password@, hash@),
{
    match bcrypt::verify(password, hash) {
        Ok(b) => b,
        Err(_) => false,
    }
}

/// Only the hash of a password is stored, and it still admits that password: a hash
/// that `hash_password` made is accepted by `verify_password` for the same password.
pub proof fn law_stored_hash_admits_its_password(password: Seq<char>, hashed: Result<String, String>, accepted: bool)
    requires
        hashed matches Ok(h) ==> bcrypt_accepts(password, h@),
        hashed is Ok,
        accepted == bcrypt_accepts(password, hashed->Ok_0@),
    ensures
        accepted,
{
}

/// What is stored is not the password: a hash made by `hash_password` differs from
/// every password that is not itself a 60-character text starting `$2b$12$`.
pub proof fn law_stored_hash_is_not_the_password(password: Seq<char>, hashed: Result<String, String>)
    requires
        hashed matches Ok(h) ==> h@.len() == 60 && h@.take(7) == bcrypt_prefix(),
        hashed is Ok,
        !(password.len() == 60 && password.take(7) == bcrypt_prefix()),
    ensures
        hashed->Ok_0@ != password,
{
}

// ---------------------------------------------------------------------------
// Logging in
// ---------------------------------------------------------------------------

/// The user name an IT login is looked up by: trimmed; a blank name or an empty
/// password is refused before any lookup.
pub fn login_lookup_name(username: &str, password: &str) -> (r: Result<String, crate::tickets::ApiError>)
    ensures
        match r {
            Ok(u) => trim(username@).len() > 0 && password@.len() > 0 && u@ == trim(username@),
            Err(e) => (trim(username@).len() == 0 || password@.len() == 0) && e is Unauthorized,
        },
{
    let u = crate::text::trim_v(&chars(username));
    if u.len() == 0 || password.unicode_len() == 0 {
        return Err(crate::tickets::ApiError::Unauthorized);
    }
    Ok(to_string(&u))
}

/// An IT login with the account found under its name (`user`: its id, name and
/// password hash): accepted only where the account exists and bcrypt accepts the
/// password against its hash; the account's id and name are returned.
pub fn check_login(password: &str, user: Option<(String, String, String)>) -> (r: Result<
    (String, String),
    crate::tickets::ApiError,
>)
    ensures
        match user {
            None => r matches Err(crate::tickets::ApiError::Unauthorized),
            Some((id, name, hash)) => if bcrypt_accepts(password@, hash@) {
                r matches Ok((i, n)) && i == id && n == name
            } else {
                r matches Err(crate::tickets::ApiError::Unauthorized)
            },
        },
{
    match user {
        None => Err(crate::tickets::ApiError::Unauthorized),
        Some((id, name, hash)) => {
            if verify_password(password, hash.as_str()) {
                Ok((id, name))
            } else {
                Err(crate::tickets::ApiError::Unauthorized)
            }
        },
    }
}

/// A portal login with the account found under its name: accepted only where the
/// account exists and bcrypt accepts the password against its hash.
pub fn check_portal_login(password: &str, user: Option<crate::tickets::PortalUser>) -> (r: Result<
    crate::tickets::PortalUser,
    crate::tickets::ApiError,
>)
    ensures
        match user {
            None => r matches Err(crate::tickets::ApiError::Unauthorized),
            Some(u) => if bcrypt_accepts(password@, u.password_hash@) {
                r == Ok::<crate::tickets::PortalUser, crate::tickets::ApiError>(u)
            } else {
                r matches Err(crate::tickets::ApiError::Unauthorized)
            },
        },
{
    match user {
        None => Err(crate::tickets::ApiError::Unauthorized),
        Some(u) => {
            if verify_password(password, u.password_hash.as_str()) {
                Ok(u)
            } else {
                Err(crate::tickets::ApiError::Unauthorized)
            }
        },
    }
}

/// The first IT account, made only where there is none: the name and password set
/// for the installer, else `ti` and a generated password of 14 characters.
pub fn bootstrap_credentials(existing_users: u64, env_user: Option<String>, env_password: Option<String>) -> (r:
    Option<(String, String)>)
    ensures
        existing_users > 0 ==> r is None,
        existing_users == 0 ==> (r matches Some((u, p)) && u@ == (match env_user {
            Some(x) => x@,
            None => BOOTSTRAP_USER@,
        }) && match env_password {
            Some(x) => p@ == x@,
            None => p@.len() == 14 && forall|i: int| 0 <= i < 14 ==> password_charset().contains(#[trigger] p@[i]),
        }),
{
    if existing_users > 0 {
        return None;
    }
    let user = match env_user {
        Some(u) => u,
        None => BOOTSTRAP_USER.to_string(),
    };
    let password = match env_password {
        Some(p) => p,
        None => generate_password(14),
    };
    Some((user, password))
}

// ---------------------------------------------------------------------------
// Sessions
// ---------------------------------------------------------------------------

/// The expiry written for an IT session opened at `now`: [`SESSION_HOURS`] later, as
/// RFC 3339 text; empty where that instant is past chrono's range.
pub fn ti_session_expiry(now: crate::models::UtcTime) -> (r: String)
    ensures
        match crate::registry::after_hours(now, SESSION_HOURS) {
            Some(t) => if crate::ext::chrono_instant(t.secs, t.nanos) {
                r@ == crate::ext::rfc3339_text(t.secs, t.nanos)
            } else {
                r@.len() == 0
            },
            None => r@.len() == 0,
        },
{
    match crate::registry::expiry_after(now, SESSION_HOURS) {
        Some(t) => crate::ext::format_rfc3339(t),
        None => String::new(),
    }
}

/// An IT session is still open while its expiry text sorts after the current
/// instant's text (`now`), as the database compares the two.
pub fn ti_session_active(expires_at: &str, now: &str) -> (r: bool)
    ensures
        r == crate::text::seq_lt(now@, expires_at@),
{
    crate::text::lt_v(&chars(now), &chars(expires_at))
}

/// An IT session that has expired is refused from then on: once its expiry text no
/// longer sorts after the current one, no later instant's text (one that sorts after
/// it) reopens it.
pub proof fn law_expired_session_stays_closed(expires_at: Seq<char>, now: Seq<char>, later: Seq<char>)
    requires
        !crate::text::seq_lt(now, expires_at),
        crate::text::seq_lt(now, later),
    ensures
        !crate::text::seq_lt(later, expires_at),
{
    if crate::text::seq_lt(later, expires_at) {
        crate::summary::lemma_lt_trans(now, later, expires_at);
    }
}

/// The characters a generated password is made of: letters and digits without the
/// look-alikes `I`, `O`, `l`, `0` and `1`.
pub open spec fn password_charset() -> Seq<char> {
    "ABCDEFGHJKLMNPQRSTUVWXYZabcdefghijkmnopqrstuvwxyz23456789"@
}

/// A random password of `len` characters from [`password_charset`].
pub fn generate_password(len: usize) -> (r: String)
    ensures
        r@.len() == len,
        forall|i: int| 0 <= i < len ==> password_charset().contains(#[trigger] r@[i]),
{
    let charset = chars("ABCDEFGHJKLMNPQRSTUVWXYZabcdefghijkmnopqrstuvwxyz23456789");
    proof {
        reveal_strlit("ABCDEFGHJKLMNPQRSTUVWXYZabcdefghijkmnopqrstuvwxyz23456789");
    }
    let mut out: Vec<char> = Vec::new();
    let mut i: usize = 0;
    while i < len
        invariant
            i <= len,
            charset@ == password_charset(),
            charset@.len() == 57,
            out@.len() == i,
            forall|k: int| 0 <= k < i ==> password_charset().contains(#[trigger] out@[k]),
        decreases len - i,
    {
        let k = random_below(charset.len());
        out.push(charset[k]);
        assert(password_charset()[k as int] == out@[i as int]);
        i = i + 1;
    }
    to_string(&out)
}

/// The token of an `Authorization` header: the text after a `Bearer ` prefix (any
/// case), trimmed (possibly empty); none without the prefix, or where the header is
/// no longer than the prefix.
pub open spec fn bearer_spec(auth: Seq<char>) -> Option<Seq<char>> {
    if utf8_len(auth) > 7 {
        match byte_prefix_len(auth, 7) {
            Some(k) => if eq_ignore_case(auth.take(k as int), "Bearer "@) {
                Some(trim(auth.skip(k as int)))
            } else {
                None
            },
            None => None,
        }
    } else {
        None
    }
}

/// Whether the header can be read as the server reads it: a header longer than the
/// prefix has a character boundary after its seventh byte (always so for the
/// visible-ASCII headers the server accepts).
pub open spec fn header_sliceable(auth: Seq<char>) -> bool {
    utf8_len(auth) > 7 ==> byte_prefix_len(auth, 7) is Some
}

/// The bearer token of an `Authorization` header value.
pub fn bearer_token(authorization: Option<&str>) -> (r: Option<String>)
    requires
        match authorization {
            Some(a) => header_sliceable(a@),
            None => true,
        },
    ensures
        match authorization {
            Some(a) => match r {
                Some(t) => bearer_spec(a@) == Some(t@),
                None => bearer_spec(a@) is None,
            },
            None => r is None,
        },
{
    let a = match authorization {
        Some(a) => a,
        None => {
            return None;
        },
    };
    let v = chars(a);
    if crate::text::utf8_len_v(&v) <= 7 {
        return None;
    }
    match crate::text::byte_prefix_v(&v, 7) {
        Some(p) => {
            let prefix = chars("Bearer ");
            if crate::text::eq_ignore_case_v(&p, &prefix) {
                let rest = crate::text::copy_range(&v, p.len(), v.len());
                assert(rest@ =~= v@.skip(p@.len() as int));
                Some(to_string(&crate::text::trim_v(&rest)))
            } else {
                None
            }
        },
        None => None,
    }
}

/// The note left for IT with the first account's credentials.
pub open spec fn bootstrap_note_spec(username: Seq<char>, password: Seq<char>, created_at: Seq<char>) -> Seq<char> {
    "Belarc TI — credencial inicial (gerada em "@ + created_at + ")\r\n"@ + "Usuario: "@ + username + "\r\n"@
        + "Senha: "@ + password + "\r\n"@ + "\r\n"@ + "Altere apos o primeiro login. Apague este arquivo quando seguro.\r\n"@
        + "Ou defina BELARC_TI_USER / BELARC_TI_PASSWORD antes de subir o servidor.\r\n"@
}

pub fn bootstrap_note(username: &str, password: &str, created_at: &str) -> (r: String)
    ensures
        r@ == bootstrap_note_spec(username@, password@, created_at@),
{
    let mut t = chars("Belarc TI — credencial inicial (gerada em ");
    crate::text::extend_str(&mut t, created_at);
    crate::text::extend_str(&mut t, ")\r\n");
    crate::text::extend_str(&mut t, "Usuario: ");
    crate::text::extend_str(&mut t, username);
    crate::text::extend_str(&mut t, "\r\n");
    crate::text::extend_str(&mut t, "Senha: ");
    crate::text::extend_str(&mut t, password);
    crate::text::extend_str(&mut t, "\r\n");
    crate::text::extend_str(&mut t, "\r\n");
    crate::text::extend_str(&mut t, "Altere apos o primeiro login. Apague este arquivo quando seguro.\r\n");
    crate::text::extend_str(&mut t, "Ou defina BELARC_TI_USER / BELARC_TI_PASSWORD antes de subir o servidor.\r\n");
    assert(t@ =~= bootstrap_note_spec(username@, password@, created_at@));
    to_string(&t)
}

} // verus!
