//! Accounts, sessions and OIDC single sign-on: input validation, password
//! and token handling, and the decisions of the auth service.
use vstd::prelude::*;
use vstd::std_specs::convert::FromSpecImpl;

use crate::crypto::{
    argon2_check, argon2_hash, argon2_verifies, bytes_of, constant_time_eq, hash_token_hex,
    hex_encode, hex_of, hmac_sha256, hmac_sha256_tag, random_bytes_32, sha256, sha256_digest,
    token_hash, utf8_bytes,
};
use crate::domain::organization::{last_index_of, split_on};
use crate::text::{
    chars_of, contains_char, drop_leading, drop_trailing, eq_str, lower_seq, starts_with,
    starts_with_str, string_of, strip_leading, strip_trailing, to_ascii_lowercase, trim, trim_seq,
    trimmed, trimmed_lower, utf8_len, utf8_len_at_most, utf8_len_between,
};

verus! {

#[derive(Clone, Debug, PartialEq, Eq)]
pub struct AuthUser {
    pub id: u128,
    pub email: String,
    pub display_name: String,
}

#[derive(Clone, Debug, PartialEq, Eq)]
pub struct StoredUser {
    pub id: u128,
    pub email: String,
    pub display_name: String,
    pub password_hash: String,
}

#[derive(Clone, Debug, PartialEq, Eq)]
pub struct StoredSession {
    pub id: u128,
    pub user_id: u128,
    pub token_hash: String,
}

#[derive(Clone, Debug, PartialEq, Eq)]
pub struct StoredOidcProvider {
    pub organization_id: u128,
    pub issuer: String,
    pub authorization_endpoint: String,
    pub token_endpoint: String,
    pub jwks_uri: String,
    pub client_id: String,
    pub client_secret: String,
    pub allowed_domains: Vec<String>,
    pub require_sso: bool,
    pub auto_join_role: String,
}

#[derive(Clone, Debug, PartialEq, Eq)]
pub struct OidcProvider {
    pub organization_id: u128,
    pub issuer: String,
    pub authorization_endpoint: String,
    pub token_endpoint: String,
    pub jwks_uri: String,
    pub client_id: String,
    pub allowed_domains: Vec<String>,
    pub require_sso: bool,
    pub auto_join_role: String,
}

#[derive(Clone, Debug, PartialEq, Eq)]
pub struct StoredOidcIdentity {
    pub id: u128,
    pub user_id: u128,
    pub organization_id: u128,
    pub issuer: String,
    pub subject: String,
    pub email: String,
}

#[derive(Debug)]
pub struct ConfigureOidcProviderInput {
    pub organization_id: u128,
    pub issuer: String,
    pub authorization_endpoint: String,
    pub token_endpoint: String,
    pub jwks_uri: String,
    pub client_id: String,
    pub client_secret: String,
    pub allowed_domains: Vec<String>,
    pub require_sso: bool,
    pub auto_join_role: String,
}

#[derive(Debug)]
pub struct OidcProviderAssertion {
    pub issuer: String,
    pub subject: String,
    pub email: String,
    pub display_name: String,
    pub email_verified: bool,
    pub signature: String,
}

#[derive(Debug)]
pub struct AuthResult {
    pub user: AuthUser,
    pub session_token: String,
}

#[derive(Debug)]
pub struct OidcLoginResult {
    pub auth: AuthResult,
    pub organization_id: u128,
    pub auto_join_role: String,
}

#[derive(Debug, PartialEq, Eq)]
pub enum AuthError {
    InvalidInput(&'static str),
    EmailAlreadyRegistered,
    InvalidCredentials,
    Unauthorized,
    SsoRequired,
    StoreUnavailable,
}

impl AuthError {
    pub fn status_code(&self) -> (r: u16)
        ensures
            r == (match self {
                AuthError::InvalidInput(_) => 400u16,
                AuthError::EmailAlreadyRegistered => 409,
                AuthError::InvalidCredentials => 401,
                AuthError::Unauthorized => 401,
                AuthError::SsoRequired => 403,
                AuthError::StoreUnavailable => 500,
            }),
    {
        match self {
            AuthError::InvalidInput(_) => 400,
            AuthError::EmailAlreadyRegistered => 409,
            AuthError::InvalidCredentials | AuthError::Unauthorized => 401,
            AuthError::SsoRequired => 403,
            AuthError::StoreUnavailable => 500,
        }
    }

    pub fn code(&self) -> (r: &'static str)
        ensures
            r@ == (match self {
                AuthError::InvalidInput(_) => "invalid_request"@,
                AuthError::EmailAlreadyRegistered => "email_already_registered"@,
                AuthError::InvalidCredentials => "invalid_credentials"@,
                AuthError::Unauthorized => "unauthorized"@,
                AuthError::SsoRequired => "sso_required"@,
                AuthError::StoreUnavailable => "store_unavailable"@,
            }),
    {
        match self {
            AuthError::InvalidInput(_) => "invalid_request",
            AuthError::EmailAlreadyRegistered => "email_already_registered",
            AuthError::InvalidCredentials => "invalid_credentials",
            AuthError::Unauthorized => "unauthorized",
            AuthError::SsoRequired => "sso_required",
            AuthError::StoreUnavailable => "store_unavailable",
        }
    }

    pub fn message(&self) -> (r: &'static str)
        ensures
            r@ == (match self {
                AuthError::InvalidInput(m) => m@,
                AuthError::EmailAlreadyRegistered => "email is already registered"@,
                AuthError::InvalidCredentials => "email or password is incorrect"@,
                AuthError::Unauthorized => "valid bearer session is required"@,
                AuthError::SsoRequired => "single sign-on is required for this email domain"@,
                AuthError::StoreUnavailable => "auth store is unavailable"@,
            }),
    {
        match self {
            AuthError::InvalidInput(m) => m,
            AuthError::EmailAlreadyRegistered => "email is already registered",
            AuthError::InvalidCredentials => "email or password is incorrect",
            AuthError::Unauthorized => "valid bearer session is required",
            AuthError::SsoRequired => "single sign-on is required for this email domain",
            AuthError::StoreUnavailable => "auth store is unavailable",
        }
    }
}

/// An email in the shape the service accepts: at most 320 bytes, an `@`
/// that is neither first nor last, no space.
pub open spec fn valid_email_shape(e: Seq<char>) -> bool {
    &&& utf8_len(e) <= 320
    &&& e.contains('@')
    &&& !(e.len() > 0 && e[0] == '@')
    &&& !(e.len() > 0 && e.last() == '@')
    &&& !e.contains(' ')
}

/// The email that the service stores: trimmed and ASCII lower-cased.
pub open spec fn email_key(email: Seq<char>) -> Seq<char> {
    lower_seq(trim_seq(email))
}

/// Whether `e` has the shape of an email.
pub fn email_shape_ok(e: &Vec<char>) -> (r: bool)
    ensures
        r == valid_email_shape(e@),
{
    utf8_len_at_most(e, 320) && contains_char(e, '@') && !(e.len() > 0 && e[0] == '@') && !(e.len()
        > 0 && e[e.len() - 1] == '@') && !contains_char(e, ' ')
}

pub fn normalize_email(email: String) -> (r: Result<String, AuthError>)
    ensures
        match r {
            Ok(e) => valid_email_shape(email_key(email@)) && e@ == email_key(email@),
            Err(err) => !valid_email_shape(email_key(email@)) && err == AuthError::InvalidInput(
                "valid email is required",
            ),
        },
{
    let e = trimmed_lower(email.as_str());
    if email_shape_ok(&e) {
        Ok(string_of(&e))
    } else {
        Err(AuthError::InvalidInput("valid email is required"))
    }
}

/// The part of `email` after its last `@`.
pub open spec fn domain_of(email: Seq<char>) -> Seq<char> {
    email.subrange(last_index_of(email, '@') + 1, email.len() as int)
}

proof fn lemma_last_index_bounds(s: Seq<char>, c: char)
    ensures
        -1 <= last_index_of(s, c) < s.len(),
        last_index_of(s, c) >= 0 ==> s[last_index_of(s, c)] == c,
        forall|k: int| last_index_of(s, c) < k < s.len() ==> #[trigger] s[k] != c,
    decreases s.len(),
{
    if s.len() > 0 && s.last() != c {
        lemma_last_index_bounds(s.drop_last(), c);
        let li = last_index_of(s, c);
        assert forall|k: int| li < k < s.len() implies #[trigger] s[k] != c by {
            if k < s.len() - 1 {
                assert(s.drop_last()[k] == s[k]);
            }
        }
    }
}

/// The domain of an email: what follows its last `@`, which must exist and
/// be followed by something.
pub fn email_domain(email: &str) -> (r: Result<String, AuthError>)
    ensures
        match r {
            Ok(d) => last_index_of(email@, '@') >= 0 && d@ == domain_of(email@) && d@.len() > 0,
            Err(e) => (last_index_of(email@, '@') < 0 || domain_of(email@).len() == 0) && e
                == AuthError::InvalidInput("valid email is required"),
        },
{
    let e = chars_of(email);
    let mut i: usize = e.len();
    while i > 0 && e[i - 1] != '@'
        invariant
            i <= e.len(),
            forall|k: int| i <= k < e.len() ==> #[trigger] e@[k] != '@',
        decreases i,
    {
        i -= 1;
    }
    proof {
        lemma_last_index_bounds(e@, '@');
        if i > 0 {
            assert(e@[i - 1] == '@');
        }
        let li = last_index_of(e@, '@');
        if li != i - 1 {
            if li > i - 1 {
                assert(e@[li] != '@');
            } else {
                assert(e@[i - 1] != '@');
            }
        }
    }
    if i == 0 || i == e.len() {
        return Err(AuthError::InvalidInput("valid email is required"));
    }
    let mut d: Vec<char> = Vec::new();
    let mut j = i;
    while j < e.len()
        invariant
            i <= j <= e.len(),
            d@ == e@.subrange(i as int, j as int),
        decreases e.len() - j,
    {
        d.push(e[j]);
        assert(e@.subrange(i as int, j as int).push(e@[j as int]) =~= e@.subrange(i as int, j as int + 1));
        j += 1;
    }
    Ok(string_of(&d))
}

pub open spec fn valid_display_name(name: Seq<char>) -> bool {
    1 <= utf8_len(trim_seq(name)) <= 80
}

pub fn normalize_display_name(display_name: String) -> (r: Result<String, AuthError>)
    ensures
        match r {
            Ok(n) => valid_display_name(display_name@) && n@ == trim_seq(display_name@),
            Err(e) => !valid_display_name(display_name@) && e == AuthError::InvalidInput(
                "display name must be between 1 and 80 characters",
            ),
        },
{
    let n = trimmed(display_name.as_str());
    if utf8_len_between(&n, 1, 80) {
        Ok(string_of(&n))
    } else {
        Err(AuthError::InvalidInput("display name must be between 1 and 80 characters"))
    }
}

/// A URL as the OIDC settings take it: trimmed, trailing slashes removed.
pub open spec fn url_key(url: Seq<char>) -> Seq<char> {
    drop_trailing(trim_seq(url), |c: char| c == '/')
}

/// HTTPS, or plain HTTP to the local machine.
pub open spec fn acceptable_url(u: Seq<char>) -> bool {
    starts_with(u, "https://"@) || starts_with(u, "http://localhost"@) || starts_with(
        u,
        "http://127.0.0.1"@,
    )
}

pub fn normalize_url(url: String, message: &'static str) -> (r: Result<String, AuthError>)
    ensures
        match r {
            Ok(u) => acceptable_url(url_key(url@)) && u@ == url_key(url@),
            Err(e) => !acceptable_url(url_key(url@)) && e == AuthError::InvalidInput(message),
        },
{
    let u = strip_trailing(&trimmed(url.as_str()), '/');
    if starts_with_str(&u, "https://") || starts_with_str(&u, "http://localhost") || starts_with_str(
        &u,
        "http://127.0.0.1",
    ) {
        Ok(string_of(&u))
    } else {
        Err(AuthError::InvalidInput(message))
    }
}

pub fn normalize_non_empty(value: String, message: &'static str) -> (r: Result<String, AuthError>)
    ensures
        match r {
            Ok(v) => v@ == trim_seq(value@) && v@.len() > 0,
            Err(e) => trim_seq(value@).len() == 0 && e == AuthError::InvalidInput(message),
        },
{
    let v = trimmed(value.as_str());
    if v.len() == 0 {
        Err(AuthError::InvalidInput(message))
    } else {
        Ok(string_of(&v))
    }
}

pub fn normalize_client_secret(secret: String) -> (r: Result<String, AuthError>)
    ensures
        match r {
            Ok(v) => v@ == trim_seq(secret@) && utf8_len(trim_seq(secret@)) >= 8,
            Err(e) => {
                ||| trim_seq(secret@).len() == 0 && e == AuthError::InvalidInput(
                    "OIDC client_secret is required",
                )
                ||| trim_seq(secret@).len() > 0 && utf8_len(trim_seq(secret@)) < 8 && e
                    == AuthError::InvalidInput("OIDC client_secret must be at least 8 characters")
            },
        },
{
    let secret = normalize_non_empty(secret, "OIDC client_secret is required")?;
    let c = chars_of(secret.as_str());
    if utf8_len_at_most(&c, 7) {
        Err(AuthError::InvalidInput("OIDC client_secret must be at least 8 characters"))
    } else {
        Ok(secret)
    }
}

/// Code-point order of strings, which is the byte order of their UTF-8
/// encodings and so the order of `String`.
pub open spec fn seq_lt(a: Seq<char>, b: Seq<char>) -> bool
    decreases a.len(),
{
    if a.len() == 0 {
        b.len() > 0
    } else if b.len() == 0 {
        false
    } else if (a[0] as u32) < (b[0] as u32) {
        true
    } else if a[0] == b[0] {
        seq_lt(a.drop_first(), b.drop_first())
    } else {
        false
    }
}

pub proof fn lemma_seq_lt_total(a: Seq<char>, b: Seq<char>)
    ensures
        seq_lt(a, b) || seq_lt(b, a) || a == b,
        !(seq_lt(a, b) && seq_lt(b, a)),
        !seq_lt(a, a),
    decreases a.len(),
{
    if a.len() > 0 && b.len() > 0 {
        lemma_seq_lt_total(a.drop_first(), b.drop_first());
        if (a[0] as u32) == (b[0] as u32) {
            vstd::utf8::char_u32_cast(a[0], a[0] as u32);
            vstd::utf8::char_u32_cast(b[0], b[0] as u32);
            assert(a[0] == b[0]);
        }
        if a[0] == b[0] && a.drop_first() == b.drop_first() {
            assert forall|k: int| 0 <= k < a.len() implies a[k] == b[k] by {
                if k > 0 {
                    assert(a.drop_first()[k - 1] == b.drop_first()[k - 1]);
                }
            }
            assert(a =~= b);
        }
        lemma_seq_lt_total(a.drop_first(), a.drop_first());
    } else if a.len() == 0 && b.len() == 0 {
        assert(a =~= b);
    } else if a.len() > 0 {
        lemma_seq_lt_total(a.drop_first(), a.drop_first());
    }
}

pub proof fn lemma_seq_lt_trans(a: Seq<char>, b: Seq<char>, c: Seq<char>)
    requires
        seq_lt(a, b),
        seq_lt(b, c),
    ensures
        seq_lt(a, c),
    decreases a.len(),
{
    if a.len() > 0 && b.len() > 0 && c.len() > 0 {
        if a[0] == b[0] && b[0] == c[0] {
            lemma_seq_lt_trans(a.drop_first(), b.drop_first(), c.drop_first());
        }
    }
}

pub fn seq_less(a: &Vec<char>, b: &Vec<char>) -> (r: bool)
    ensures
        r == seq_lt(a@, b@),
{
    let mut i: usize = 0;
    assert(a@.skip(0) =~= a@);
    assert(b@.skip(0) =~= b@);
    while i < a.len() && i < b.len() && a[i] == b[i]
        invariant
            i <= a.len() && i <= b.len(),
            forall|k: int| 0 <= k < i ==> a@[k] == b@[k],
            seq_lt(a@, b@) == seq_lt(a@.skip(i as int), b@.skip(i as int)),
        decreases a.len() - i,
    {
        proof {
            let sa = a@.skip(i as int);
            let sb = b@.skip(i as int);
            assert(sa.drop_first() =~= a@.skip(i as int + 1));
            assert(sb.drop_first() =~= b@.skip(i as int + 1));
        }
        i += 1;
    }
    let ghost sa = a@.skip(i as int);
    let ghost sb = b@.skip(i as int);
    if i == a.len() {
        assert(sa.len() == 0);
        return i < b.len();
    }
    if i == b.len() {
        return false;
    }
    assert(sa[0] == a@[i as int] && sb[0] == b@[i as int]);
    (a[i] as u32) < (b[i] as u32)
}

/// Strictly increasing in string order: sorted, without repeats.
pub open spec fn strictly_sorted(v: Seq<Seq<char>>) -> bool {
    forall|i: int, j: int| 0 <= i < j < v.len() ==> seq_lt(#[trigger] v[i], #[trigger] v[j])
}

/// Adds `x` to a strictly sorted list unless it is already there.
fn insert_sorted_unique(v: &mut Vec<Vec<char>>, x: Vec<char>)
    requires
        strictly_sorted(old(v)@.map_values(|s: Vec<char>| s@)),
    ensures
        strictly_sorted(final(v)@.map_values(|s: Vec<char>| s@)),
        final(v)@.map_values(|s: Vec<char>| s@).to_set() == old(v)@.map_values(|s: Vec<char>| s@).to_set().insert(x@),
{
    let ghost before = v@.map_values(|s: Vec<char>| s@);
    let mut p: usize = 0;
    while p < v.len() && seq_less(&v[p], &x)
        invariant
            p <= v.len(),
            v@.map_values(|s: Vec<char>| s@) == before,
            forall|k: int| 0 <= k < p ==> seq_lt(#[trigger] before[k], x@),
        decreases v.len() - p,
    {
        p += 1;
    }
    if p < v.len() && eq_vec(&v[p], &x) {
        proof {
            assert(before[p as int] == x@);
            assert(before.to_set().insert(x@) =~= before.to_set());
        }
        return;
    }
    proof {
        if p < v.len() {
            lemma_seq_lt_total(before[p as int], x@);
        }
    }
    v.insert(p, x);
    proof {
        let after = v@.map_values(|s: Vec<char>| s@);
        assert(after =~= before.insert(p as int, x@));
        assert forall|i: int, j: int| 0 <= i < j < after.len() implies seq_lt(#[trigger] after[i], #[trigger] after[j]) by {
            if j < p {
            } else if j == p {
            } else if i < p {
                assert(after[j] == before[j - 1]);
                assert(seq_lt(before[i], x@));
                if j - 1 == p as int {
                    lemma_seq_lt_trans(before[i], x@, before[j - 1]);
                } else {
                    lemma_seq_lt_trans(before[i], x@, before[p as int]);
                    lemma_seq_lt_trans(before[i], before[p as int], before[j - 1]);
                }
            } else if i == p {
                assert(after[j] == before[j - 1]);
                if j - 1 > p {
                    lemma_seq_lt_trans(x@, before[p as int], before[j - 1]);
                }
            } else {
                assert(after[i] == before[i - 1]);
                assert(after[j] == before[j - 1]);
            }
        }
        assert(after.to_set() =~= before.to_set().insert(x@)) by {
            assert forall|y: Seq<char>| after.to_set().contains(y) <==> before.to_set().insert(x@).contains(y) by {
                if after.contains(y) {
                    let k = choose|k: int| 0 <= k < after.len() && after[k] == y;
                    if k < p {
                        assert(before[k] == y);
                    } else if k > p {
                        assert(before[k - 1] == y);
                    }
                }
                if before.contains(y) {
                    let k = choose|k: int| 0 <= k < before.len() && before[k] == y;
                    if k < p {
                        assert(after[k] == y);
                    } else {
                        assert(after[k + 1] == y);
                    }
                }
                if y == x@ {
                    assert(after[p as int] == y);
                }
            }
        }
    }
}

fn eq_vec(a: &Vec<char>, b: &Vec<char>) -> (r: bool)
    ensures
        r == (a@ == b@),
{
    if a.len() != b.len() {
        return false;
    }
    let mut i: usize = 0;
    while i < a.len()
        invariant
            i <= a.len(),
            a.len() == b.len(),
            forall|k: int| 0 <= k < i ==> a@[k] == b@[k],
        decreases a.len() - i,
    {
        if a[i] != b[i] {
            return false;
        }
        i += 1;
    }
    assert(a@ =~= b@);
    true
}

/// An allowed domain as given: trimmed, leading `@` removed, lower-cased.
pub open spec fn domain_key(d: Seq<char>) -> Seq<char> {
    lower_seq(drop_leading(trim_seq(d), |c: char| c == '@'))
}

/// The non-empty domain keys of the input.
pub open spec fn domain_candidates(domains: Seq<String>) -> Set<Seq<char>> {
    Set::new(|k: Seq<char>| k.len() > 0 && exists|i: int| 0 <= i < domains.len() && domain_key(#[trigger] domains[i]@) == k)
}

/// A domain: at most 253 bytes, at least one dot, no dot at either end, no
/// empty or overlong label.
pub open spec fn valid_domain(d: Seq<char>) -> bool {
    &&& utf8_len(d) <= 253
    &&& d.contains('.')
    &&& !(d.len() > 0 && d[0] == '.')
    &&& !(d.len() > 0 && d.last() == '.')
    &&& forall|k: int| 0 <= k < split_on(d, '.').len() ==> {
        let l = #[trigger] split_on(d, '.')[k];
        l.len() > 0 && utf8_len(l) <= 63
    }
}

fn labels_ok(d: &Vec<char>) -> (r: bool)
    ensures
        r == (forall|k: int| 0 <= k < split_on(d@, '.').len() ==> {
            let l = #[trigger] split_on(d@, '.')[k];
            l.len() > 0 && utf8_len(l) <= 63
        }),
{
    let ghost good = |l: Seq<char>| l.len() > 0 && utf8_len(l) <= 63;
    let mut cur: Vec<char> = Vec::new();
    let mut ok = true;
    let mut i: usize = 0;
    assert(d@.take(0) =~= Seq::<char>::empty());
    while i < d.len()
        invariant
            i <= d.len(),
            good == (|l: Seq<char>| l.len() > 0 && utf8_len(l) <= 63),
            split_on(d@.take(i as int), '.').len() >= 1,
            cur@ == split_on(d@.take(i as int), '.').last(),
            ok == (forall|k: int| 0 <= k < split_on(d@.take(i as int), '.').len() - 1 ==> good(#[trigger] split_on(d@.take(i as int), '.')[k])),
        decreases d.len() - i,
    {
        let ghost sp = split_on(d@.take(i as int), '.');
        let ghost t = d@.take(i as int + 1);
        assert(t.drop_last() =~= d@.take(i as int));
        let c = d[i];
        if c == '.' {
            let v = cur.len() > 0 && utf8_len_at_most(&cur, 63);
            proof {
                let sp2 = split_on(t, '.');
                assert(sp2 == sp.push(seq![]));
                if ok && v {
                    assert forall|k: int| 0 <= k < sp2.len() - 1 implies good(#[trigger] sp2[k]) by {
                        assert(sp2[k] == sp[k]);
                    }
                }
                if !v {
                    assert(sp2[sp.len() - 1] == cur@);
                }
                if !ok {
                    let k = choose|k: int| 0 <= k < sp.len() - 1 && !good(#[trigger] sp[k]);
                    assert(sp2[k] == sp[k]);
                }
            }
            ok = ok && v;
            cur = Vec::new();
            assert(cur@ =~= split_on(t, '.').last());
        } else {
            cur.push(c);
            proof {
                let sp2 = split_on(t, '.');
                assert(cur@ =~= sp2.last());
                assert forall|k: int| 0 <= k < sp2.len() - 1 implies sp2[k] == sp[k] by {}
                if !ok {
                    let k = choose|k: int| 0 <= k < sp.len() - 1 && !good(#[trigger] sp[k]);
                    assert(sp2[k] == sp[k]);
                }
            }
        }
        i += 1;
    }
    assert(d@.take(d.len() as int) =~= d@);
    let v = cur.len() > 0 && utf8_len_at_most(&cur, 63);
    proof {
        let sp = split_on(d@, '.');
        if ok && v {
            assert forall|k: int| 0 <= k < sp.len() implies good(#[trigger] sp[k]) by {}
        }
        if !ok {
            let k = choose|k: int| 0 <= k < sp.len() - 1 && !good(#[trigger] sp[k]);
        }
        if !v {
            assert(!good(sp[sp.len() - 1]));
        }
    }
    ok && v
}

fn domain_ok(d: &Vec<char>) -> (r: bool)
    ensures
        r == valid_domain(d@),
{
    utf8_len_at_most(d, 253) && contains_char(d, '.') && !(d.len() > 0 && d[0] == '.') && !(d.len() > 0
        && d[d.len() - 1] == '.') && labels_ok(d)
}

/// The allowed domains of an OIDC provider: each trimmed, stripped of a
/// leading `@` and lower-cased; empty ones dropped; sorted and without
/// repeats. The list must be non-empty and every domain valid.
pub fn normalize_allowed_domains(domains: Vec<String>) -> (r: Result<Vec<String>, AuthError>)
    ensures
        match r {
            Ok(v) => {
                &&& strictly_sorted(v@.map_values(|s: String| s@))
                &&& v@.map_values(|s: String| s@).to_set() == domain_candidates(domains@)
                &&& v@.len() > 0
                &&& forall|i: int| 0 <= i < v@.len() ==> valid_domain(#[trigger] v@[i]@)
            },
            Err(e) => e == AuthError::InvalidInput("OIDC allowed_domains must contain valid domains")
                && (domain_candidates(domains@).is_empty() || exists|d: Seq<char>|
                domain_candidates(domains@).contains(d) && !valid_domain(d)),
        },
{
    let mut sorted: Vec<Vec<char>> = Vec::new();
    let mut i: usize = 0;
    while i < domains.len()
        invariant
            i <= domains.len(),
            strictly_sorted(sorted@.map_values(|s: Vec<char>| s@)),
            sorted@.map_values(|s: Vec<char>| s@).to_set() == Set::new(|k: Seq<char>| k.len() > 0 && exists|j: int| 0 <= j < i && domain_key(#[trigger] domains@[j]@) == k),
        decreases domains.len() - i,
    {
        let k = to_ascii_lowercase(&strip_leading(&trimmed(domains[i].as_str()), '@'));
        let ghost before = sorted@.map_values(|s: Vec<char>| s@).to_set();
        let ghost kv = k@;
        if k.len() > 0 {
            insert_sorted_unique(&mut sorted, k);
        }
        proof {
            let now = sorted@.map_values(|s: Vec<char>| s@).to_set();
            let target = Set::new(|x: Seq<char>| x.len() > 0 && exists|j: int| 0 <= j < i + 1 && domain_key(#[trigger] domains@[j]@) == x);
            assert(now =~= target) by {
                assert forall|x: Seq<char>| now.contains(x) <==> target.contains(x) by {
                    if target.contains(x) {
                        let j = choose|j: int| 0 <= j < i + 1 && domain_key(#[trigger] domains@[j]@) == x;
                        if j < i {
                            assert(before.contains(x));
                        }
                    }
                    if now.contains(x) && x != kv {
                        assert(before.contains(x));
                    }
                }
            }
        }
        i += 1;
    }
    proof {
        assert(Set::new(|k: Seq<char>| k.len() > 0 && exists|j: int| 0 <= j < domains.len() && domain_key(#[trigger] domains@[j]@) == k) =~= domain_candidates(domains@));
    }
    let ghost sv = sorted@.map_values(|s: Vec<char>| s@);
    if sorted.len() == 0 {
        proof {
            assert(sv.to_set() =~= Set::<Seq<char>>::empty());
        }
        return Err(AuthError::InvalidInput("OIDC allowed_domains must contain valid domains"));
    }
    let mut out: Vec<String> = Vec::new();
    let mut j: usize = 0;
    while j < sorted.len()
        invariant
            j <= sorted.len(),
            sv == sorted@.map_values(|s: Vec<char>| s@),
            sv.to_set() == domain_candidates(domains@),
            out@.len() == j,
            forall|k: int| 0 <= k < j ==> (#[trigger] out@[k])@ == sv[k],
            forall|k: int| 0 <= k < j ==> valid_domain(#[trigger] sv[k]),
        decreases sorted.len() - j,
    {
        if !domain_ok(&sorted[j]) {
            proof {
                assert(sv.contains(sv[j as int]));
                assert(sv.to_set().contains(sv[j as int]));
            }
            return Err(AuthError::InvalidInput("OIDC allowed_domains must contain valid domains"));
        }
        let item = string_of(&sorted[j]);
        assert(item@ == sv[j as int]);
        out.push(item);
        j += 1;
    }
    assert(out@.map_values(|s: String| s@) =~= sv);
    proof {
        assert forall|i: int| 0 <= i < out@.len() implies valid_domain(#[trigger] out@[i]@) by {
            assert(out@[i]@ == sv[i]);
        }
    }
    Ok(out)
}

pub open spec fn is_auto_join_role(k: Seq<char>) -> bool {
    k == "member"@ || k == "admin"@
}

pub fn normalize_auto_join_role(role: String) -> (r: Result<String, AuthError>)
    ensures
        match r {
            Ok(s) => is_auto_join_role(lower_seq(trim_seq(role@))) && s@ == lower_seq(trim_seq(role@)),
            Err(e) => !is_auto_join_role(lower_seq(trim_seq(role@))) && e == AuthError::InvalidInput(
                "OIDC auto_join_role must be member or admin",
            ),
        },
{
    let k = trimmed_lower(role.as_str());
    if eq_str(&k, "member") || eq_str(&k, "admin") {
        Ok(string_of(&k))
    } else {
        Err(AuthError::InvalidInput("OIDC auto_join_role must be member or admin"))
    }
}

/// Passwords have at least 12 bytes.
pub fn validate_password(password: &str) -> (r: Result<(), AuthError>)
    ensures
        match r {
            Ok(()) => utf8_len(password@) >= 12,
            Err(e) => utf8_len(password@) < 12 && e == AuthError::InvalidInput(
                "password must be at least 12 characters",
            ),
        },
{
    let p = chars_of(password);
    if utf8_len_at_most(&p, 11) {
        Err(AuthError::InvalidInput("password must be at least 12 characters"))
    } else {
        Ok(())
    }
}

/// Hashes a password with Argon2 and a fresh salt; a failure of the hasher
/// is reported as `StoreUnavailable`.
pub fn hash_password(password: &str) -> (r: Result<String, AuthError>)
    ensures
        r matches Err(e) ==> e == AuthError::StoreUnavailable,
        r matches Ok(h) ==> argon2_verifies(utf8_bytes(password@), h@),
        utf8_bytes(password@).len() <= 0xFFFF_FFFF ==> r is Ok,
{
    match argon2_hash(password.as_bytes()) {
        Some(h) => Ok(h),
        None => Err(AuthError::StoreUnavailable),
    }
}

/// Whether `password` matches the stored Argon2 hash.
pub fn verify_password(password: &str, password_hash: &str) -> (r: bool)
    ensures
        r == argon2_verifies(utf8_bytes(password@), password_hash@),
{
    argon2_check(password.as_bytes(), password_hash)
}

/// A new session token: 32 random bytes in lower-case hex.
pub fn generate_session_token() -> (r: String)
    ensures
        exists|b: Seq<u8>| b.len() == 32 && r@ == hex_of(b),
{
    let bytes = random_bytes_32();
    hex_encode(bytes.as_slice())
}

/// What a session token is stored as.
pub fn hash_session_token(token: &str) -> (r: String)
    ensures
        r@ == token_hash(token@),
{
    hash_token_hex(token)
}

/// The text that an OIDC assertion signature covers.
pub open spec fn assertion_text(issuer: Seq<char>, subject: Seq<char>, email: Seq<char>, email_verified: bool) -> Seq<char> {
    issuer + "\n"@ + subject + "\n"@ + email + "\n"@ + (if email_verified {
        "true"@
    } else {
        "false"@
    })
}

/// The hex HMAC-SHA256 signature of an OIDC assertion under the provider's
/// client secret.
pub fn oidc_assertion_signature(
    secret: &str,
    issuer: &str,
    subject: &str,
    email: &str,
    email_verified: bool,
) -> (r: Result<String, AuthError>)
    ensures
        r == Ok::<String, AuthError>(r->Ok_0),
        r->Ok_0@ == hex_of(hmac_sha256(utf8_bytes(secret@), utf8_bytes(assertion_text(issuer@, subject@, email@, email_verified)))),
{
    let mut text = string_of(&chars_of(issuer));
    text.append("\n");
    text.append(subject);
    text.append("\n");
    text.append(email);
    text.append("\n");
    if email_verified {
        text.append("true");
    } else {
        text.append("false");
    }
    let tag = hmac_sha256_tag(secret.as_bytes(), text.as_str().as_bytes());
    match tag {
        Some(t) => Ok(hex_encode(t.as_slice())),
        None => Err(AuthError::StoreUnavailable),
    }
}

/// The password hash of a user created by OIDC login: no password matches
/// it.
pub open spec fn oidc_marker(issuer: Seq<char>, subject: Seq<char>) -> Seq<char> {
    "!oidc:"@ + hex_of(sha256(utf8_bytes(issuer + "\n"@ + subject)))
}

pub fn oidc_password_marker(issuer: &str, subject: &str) -> (r: String)
    ensures
        r@ == oidc_marker(issuer@, subject@),
{
    let mut text = string_of(&chars_of(issuer));
    text.append("\n");
    text.append(subject);
    let digest = sha256_digest(text.as_str().as_bytes());
    let hex = hex_encode(digest.as_slice());
    let mut r = string_of(&chars_of("!oidc:"));
    r.append(hex.as_str());
    r
}

/// Whether any provider for the email's domain requires single sign-on.
pub open spec fn sso_required_by_spec(providers: Seq<StoredOidcProvider>) -> bool {
    exists|i: int| 0 <= i < providers.len() && #[trigger] providers[i].require_sso
}

pub fn sso_required_by(providers: &Vec<StoredOidcProvider>) -> (r: bool)
    ensures
        r == sso_required_by_spec(providers@),
{
    let mut i: usize = 0;
    while i < providers.len()
        invariant
            i <= providers.len(),
            forall|k: int| 0 <= k < i ==> !(#[trigger] providers@[k]).require_sso,
        decreases providers.len() - i,
    {
        if providers[i].require_sso {
            return true;
        }
        i += 1;
    }
    false
}

/// The account fields of a registration, validated.
pub struct Registration {
    pub email: String,
    pub display_name: String,
}

/// `register` before its store calls: the email and display name
/// normalised and the password long enough.
pub fn prepare_registration(email: String, display_name: String, password: &str) -> (r: Result<Registration, AuthError>)
    ensures
        match r {
            Ok(reg) => valid_email_shape(email_key(email@)) && reg.email@ == email_key(email@)
                && valid_display_name(display_name@) && reg.display_name@ == trim_seq(display_name@)
                && utf8_len(password@) >= 12,
            Err(e) => {
                ||| !valid_email_shape(email_key(email@)) && e == AuthError::InvalidInput("valid email is required")
                ||| valid_email_shape(email_key(email@)) && !valid_display_name(display_name@) && e
                    == AuthError::InvalidInput("display name must be between 1 and 80 characters")
                ||| valid_email_shape(email_key(email@)) && valid_display_name(display_name@)
                    && utf8_len(password@) < 12 && e == AuthError::InvalidInput(
                    "password must be at least 12 characters",
                )
            },
        },
{
    let email = normalize_email(email)?;
    let display_name = normalize_display_name(display_name)?;
    validate_password(password)?;
    Ok(Registration { email, display_name })
}

/// Password sign-up or sign-in is refused when single sign-on is required
/// for the domain, then when the email is taken (sign-in passes `false`).
pub open spec fn registration_outcome(sso_required: bool, email_taken: bool) -> Result<(), AuthError> {
    if sso_required {
        Err(AuthError::SsoRequired)
    } else if email_taken {
        Err(AuthError::EmailAlreadyRegistered)
    } else {
        Ok(())
    }
}

/// `register` after the lookups: refused when single sign-on is required
/// for the domain, or when the email is taken.
pub fn registration_allowed(sso_required: bool, email_taken: bool) -> (r: Result<(), AuthError>)
    ensures
        r == registration_outcome(sso_required, email_taken),
{
    if sso_required {
        Err(AuthError::SsoRequired)
    } else if email_taken {
        Err(AuthError::EmailAlreadyRegistered)
    } else {
        Ok(())
    }
}

/// When any provider for the email's domain requires single sign-on,
/// password registration and login are refused with `sso_required`, whether
/// or not the email is taken.
pub proof fn law_sso_blocks_password_sign_in(providers: Seq<StoredOidcProvider>, i: int, email_taken: bool)
    requires
        0 <= i < providers.len(),
        providers[i].require_sso,
    ensures
        sso_required_by_spec(providers),
        registration_outcome(sso_required_by_spec(providers), email_taken) == Err::<(), AuthError>(AuthError::SsoRequired),
{
    assert(providers[i].require_sso);
}

/// `login` after the lookup: the stored user when it exists and the
/// password matches its hash, else `InvalidCredentials`.
pub fn login_check(found: Option<StoredUser>, password: &str) -> (r: Result<StoredUser, AuthError>)
    ensures
        match found {
            None => r == Err::<StoredUser, AuthError>(AuthError::InvalidCredentials),
            Some(u) => if argon2_verifies(utf8_bytes(password@), u.password_hash@) {
                r == Ok::<StoredUser, AuthError>(u)
            } else {
                r == Err::<StoredUser, AuthError>(AuthError::InvalidCredentials)
            },
        },
{
    match found {
        None => Err(AuthError::InvalidCredentials),
        Some(u) => {
            if verify_password(password, u.password_hash.as_str()) {
                Ok(u)
            } else {
                Err(AuthError::InvalidCredentials)
            }
        },
    }
}

/// The public fields of a stored user.
pub fn auth_user_of(user: StoredUser) -> (r: AuthUser)
    ensures
        r.id == user.id && r.email == user.email && r.display_name == user.display_name,
{
    AuthUser { id: user.id, email: user.email, display_name: user.display_name }
}

impl From<StoredUser> for AuthUser {
    fn from(user: StoredUser) -> (r: AuthUser) {
        auth_user_of(user)
    }
}

impl FromSpecImpl<StoredUser> for AuthUser {
    open spec fn obeys_from_spec() -> bool {
        true
    }

    open spec fn from_spec(user: StoredUser) -> AuthUser {
        AuthUser { id: user.id, email: user.email, display_name: user.display_name }
    }
}

/// A session for `user` with the fresh `token`: the store keeps only the
/// token's hash, the caller gets the token.
pub fn new_session(id: u128, user: StoredUser, token: String) -> (r: (StoredSession, AuthResult))
    ensures
        r.0.id == id && r.0.user_id == user.id && r.0.token_hash@ == token_hash(token@),
        r.1.user.id == user.id && r.1.user.email == user.email && r.1.user.display_name
            == user.display_name,
        r.1.session_token == token,
{
    let token_hash = hash_session_token(token.as_str());
    let session = StoredSession { id, user_id: user.id, token_hash };
    (session, AuthResult { user: auth_user_of(user), session_token: token })
}

/// A provider without its client secret.
pub fn public_provider(provider: StoredOidcProvider) -> (r: OidcProvider)
    ensures
        r.organization_id == provider.organization_id && r.issuer == provider.issuer
            && r.authorization_endpoint == provider.authorization_endpoint
            && r.token_endpoint == provider.token_endpoint && r.jwks_uri == provider.jwks_uri
            && r.client_id == provider.client_id && r.allowed_domains == provider.allowed_domains
            && r.require_sso == provider.require_sso && r.auto_join_role == provider.auto_join_role,
{
    OidcProvider {
        organization_id: provider.organization_id,
        issuer: provider.issuer,
        authorization_endpoint: provider.authorization_endpoint,
        token_endpoint: provider.token_endpoint,
        jwks_uri: provider.jwks_uri,
        client_id: provider.client_id,
        allowed_domains: provider.allowed_domains,
        require_sso: provider.require_sso,
        auto_join_role: provider.auto_join_role,
    }
}

impl From<StoredOidcProvider> for OidcProvider {
    fn from(provider: StoredOidcProvider) -> (r: OidcProvider) {
        public_provider(provider)
    }
}

impl FromSpecImpl<StoredOidcProvider> for OidcProvider {
    open spec fn obeys_from_spec() -> bool {
        true
    }

    open spec fn from_spec(provider: StoredOidcProvider) -> OidcProvider {
        OidcProvider {
            organization_id: provider.organization_id,
            issuer: provider.issuer,
            authorization_endpoint: provider.authorization_endpoint,
            token_endpoint: provider.token_endpoint,
            jwks_uri: provider.jwks_uri,
            client_id: provider.client_id,
            allowed_domains: provider.allowed_domains,
            require_sso: provider.require_sso,
            auto_join_role: provider.auto_join_role,
        }
    }
}

/// Whether the allowed domains are acceptable: at least one, each valid.
pub open spec fn domains_ok(domains: Seq<String>) -> bool {
    !domain_candidates(domains).is_empty() && (forall|d: Seq<char>| domain_candidates(domains).contains(d) ==> valid_domain(d))
}

/// Why a provider configuration is refused, checked in the order of the
/// fields.
pub open spec fn oidc_provider_error(input: ConfigureOidcProviderInput) -> Option<AuthError> {
    if !acceptable_url(url_key(input.issuer@)) {
        Some(AuthError::InvalidInput("OIDC issuer is required"))
    } else if !acceptable_url(url_key(input.authorization_endpoint@)) {
        Some(AuthError::InvalidInput("OIDC authorization endpoint is required"))
    } else if !acceptable_url(url_key(input.token_endpoint@)) {
        Some(AuthError::InvalidInput("OIDC token endpoint is required"))
    } else if !acceptable_url(url_key(input.jwks_uri@)) {
        Some(AuthError::InvalidInput("OIDC JWKS URI is required"))
    } else if trim_seq(input.client_id@).len() == 0 {
        Some(AuthError::InvalidInput("OIDC client_id is required"))
    } else if trim_seq(input.client_secret@).len() == 0 {
        Some(AuthError::InvalidInput("OIDC client_secret is required"))
    } else if utf8_len(trim_seq(input.client_secret@)) < 8 {
        Some(AuthError::InvalidInput("OIDC client_secret must be at least 8 characters"))
    } else if !domains_ok(input.allowed_domains@) {
        Some(AuthError::InvalidInput("OIDC allowed_domains must contain valid domains"))
    } else if !is_auto_join_role(lower_seq(trim_seq(input.auto_join_role@))) {
        Some(AuthError::InvalidInput("OIDC auto_join_role must be member or admin"))
    } else {
        None
    }
}

/// `configure_oidc_provider` before the store call: every field validated
/// in order.
pub fn new_oidc_provider(input: ConfigureOidcProviderInput) -> (r: Result<StoredOidcProvider, AuthError>)
    ensures
        r matches Ok(p) ==> {
            &&& p.organization_id == input.organization_id
            &&& p.issuer@ == url_key(input.issuer@) && acceptable_url(url_key(input.issuer@))
            &&& p.authorization_endpoint@ == url_key(input.authorization_endpoint@)
            &&& acceptable_url(url_key(input.authorization_endpoint@))
            &&& p.token_endpoint@ == url_key(input.token_endpoint@)
            &&& acceptable_url(url_key(input.token_endpoint@))
            &&& p.jwks_uri@ == url_key(input.jwks_uri@) && acceptable_url(url_key(input.jwks_uri@))
            &&& p.client_id@ == trim_seq(input.client_id@) && p.client_id@.len() > 0
            &&& p.client_secret@ == trim_seq(input.client_secret@)
            &&& utf8_len(trim_seq(input.client_secret@)) >= 8
            &&& strictly_sorted(p.allowed_domains@.map_values(|s: String| s@))
            &&& p.allowed_domains@.map_values(|s: String| s@).to_set() == domain_candidates(input.allowed_domains@)
            &&& p.require_sso == input.require_sso
            &&& p.auto_join_role@ == lower_seq(trim_seq(input.auto_join_role@))
            &&& is_auto_join_role(lower_seq(trim_seq(input.auto_join_role@)))
        },
        match oidc_provider_error(input) {
            Some(e) => r == Err::<StoredOidcProvider, AuthError>(e),
            None => r is Ok,
        },
{
    let issuer = normalize_url(input.issuer, "OIDC issuer is required")?;
    let authorization_endpoint = normalize_url(input.authorization_endpoint, "OIDC authorization endpoint is required")?;
    let token_endpoint = normalize_url(input.token_endpoint, "OIDC token endpoint is required")?;
    let jwks_uri = normalize_url(input.jwks_uri, "OIDC JWKS URI is required")?;
    let client_id = normalize_non_empty(input.client_id, "OIDC client_id is required")?;
    let client_secret = normalize_client_secret(input.client_secret)?;
    let ghost doms = input.allowed_domains@;
    let allowed_domains = normalize_allowed_domains(input.allowed_domains)?;
    proof {
        let vs = allowed_domains@.map_values(|s: String| s@);
        assert(vs.to_set().contains(vs[0]));
        assert forall|d: Seq<char>| domain_candidates(doms).contains(d) implies valid_domain(d) by {
            assert(vs.to_set().contains(d));
            let i = choose|i: int| 0 <= i < vs.len() && vs[i] == d;
            assert(valid_domain(allowed_domains@[i]@));
        }
        assert(domains_ok(doms));
    }
    let auto_join_role = normalize_auto_join_role(input.auto_join_role)?;
    Ok(StoredOidcProvider {
        organization_id: input.organization_id,
        issuer,
        authorization_endpoint,
        token_endpoint,
        jwks_uri,
        client_id,
        client_secret,
        allowed_domains,
        require_sso: input.require_sso,
        auto_join_role,
    })
}

/// An OIDC assertion with its fields normalised.
pub struct CheckedAssertion {
    pub issuer: String,
    pub subject: String,
    pub email: String,
    pub display_name: String,
    pub signature: String,
}

/// Why an assertion is refused before its signature is checked: an
/// unverified email, then each field in order, then a missing signature.
pub open spec fn assertion_error(a: OidcProviderAssertion) -> Option<AuthError> {
    if !a.email_verified {
        Some(AuthError::InvalidCredentials)
    } else if !acceptable_url(url_key(a.issuer@)) {
        Some(AuthError::InvalidInput("OIDC issuer is required"))
    } else if trim_seq(a.subject@).len() == 0 {
        Some(AuthError::InvalidInput("OIDC subject is required"))
    } else if !valid_email_shape(email_key(a.email@)) {
        Some(AuthError::InvalidInput("valid email is required"))
    } else if !valid_display_name(a.display_name@) {
        Some(AuthError::InvalidInput("display name must be between 1 and 80 characters"))
    } else if trim_seq(a.signature@).len() == 0 {
        Some(AuthError::InvalidCredentials)
    } else {
        None
    }
}

/// `oidc_login` before its lookups: the email must be verified, every field
/// valid and a signature present.
pub fn check_oidc_assertion(assertion: OidcProviderAssertion) -> (r: Result<CheckedAssertion, AuthError>)
    ensures
        r matches Ok(c) ==> {
            &&& assertion.email_verified
            &&& c.issuer@ == url_key(assertion.issuer@) && acceptable_url(c.issuer@)
            &&& c.subject@ == trim_seq(assertion.subject@) && c.subject@.len() > 0
            &&& c.email@ == email_key(assertion.email@) && valid_email_shape(c.email@)
            &&& c.display_name@ == trim_seq(assertion.display_name@)
            &&& valid_display_name(assertion.display_name@)
            &&& c.signature@ == trim_seq(assertion.signature@) && c.signature@.len() > 0
        },
        match assertion_error(assertion) {
            Some(e) => r == Err::<CheckedAssertion, AuthError>(e),
            None => r is Ok,
        },
{
    if !assertion.email_verified {
        return Err(AuthError::InvalidCredentials);
    }
    let issuer = normalize_url(assertion.issuer, "OIDC issuer is required")?;
    let subject = normalize_non_empty(assertion.subject, "OIDC subject is required")?;
    let email = normalize_email(assertion.email)?;
    let display_name = normalize_display_name(assertion.display_name)?;
    let signature = trimmed(assertion.signature.as_str());
    if signature.len() == 0 {
        return Err(AuthError::InvalidCredentials);
    }
    Ok(CheckedAssertion { issuer, subject, email, display_name, signature: string_of(&signature) })
}

/// `oidc_login` once the provider for the issuer and domain is known: the
/// signature must equal the one computed with the provider's secret.
pub fn assertion_signature_valid(client_secret: &str, assertion: &CheckedAssertion) -> (r: Result<(), AuthError>)
    ensures
        r is Ok <==> utf8_bytes(assertion.signature@) == utf8_bytes(hex_of(hmac_sha256(
            utf8_bytes(client_secret@),
            utf8_bytes(assertion_text(assertion.issuer@, assertion.subject@, assertion.email@, true)),
        ))),
        r matches Err(e) ==> e == AuthError::InvalidCredentials,
{
    let expected = oidc_assertion_signature(
        client_secret,
        assertion.issuer.as_str(),
        assertion.subject.as_str(),
        assertion.email.as_str(),
        true,
    )?;
    if constant_time_eq(assertion.signature.as_str().as_bytes(), expected.as_str().as_bytes()) {
        Ok(())
    } else {
        Err(AuthError::InvalidCredentials)
    }
}

/// The provider that vouches for an assertion's issuer and email domain:
/// without one the login fails.
pub fn require_oidc_provider(found: Option<StoredOidcProvider>) -> (r: Result<StoredOidcProvider, AuthError>)
    ensures
        match found {
            Some(p) => r == Ok::<StoredOidcProvider, AuthError>(p),
            None => r == Err::<StoredOidcProvider, AuthError>(AuthError::InvalidCredentials),
        },
{
    match found {
        Some(p) => Ok(p),
        None => Err(AuthError::InvalidCredentials),
    }
}

/// The user of an identity that is already linked: it must still exist.
pub fn linked_identity_user(found: Option<StoredUser>) -> (r: Result<StoredUser, AuthError>)
    ensures
        match found {
            Some(u) => r == Ok::<StoredUser, AuthError>(u),
            None => r == Err::<StoredUser, AuthError>(AuthError::InvalidCredentials),
        },
{
    match found {
        Some(u) => Ok(u),
        None => Err(AuthError::InvalidCredentials),
    }
}

/// What an OIDC login does for its user, once the signature is valid.
#[derive(Debug)]
pub enum OidcUserStep {
    /// The identity is linked: load this user.
    LoadLinked(u128),
    /// A user has the email: link this identity to it.
    LinkExisting(StoredUser, StoredOidcIdentity),
    /// No user yet: create this user and link this identity.
    CreateNew(StoredUser, StoredOidcIdentity),
}

/// The identity that links a user to the issuer and subject of an
/// assertion.
pub open spec fn identity_for(id: u128, user_id: u128, organization_id: u128, a: CheckedAssertion) -> StoredOidcIdentity {
    StoredOidcIdentity { id, user_id, organization_id, issuer: a.issuer, subject: a.subject, email: a.email }
}

/// The step for the user of an OIDC login: the linked identity's user if
/// there is one, else the user with the email, else a new user whose
/// password hash no password matches. `new_user_id` and `new_identity_id`
/// name the rows it may create.
pub fn oidc_user_step(
    identity: Option<StoredOidcIdentity>,
    user_with_email: Option<StoredUser>,
    provider_organization_id: u128,
    assertion: CheckedAssertion,
    new_user_id: u128,
    new_identity_id: u128,
) -> (r: OidcUserStep)
    ensures
        match identity {
            Some(i) => r == OidcUserStep::LoadLinked(i.user_id),
            None => match user_with_email {
                Some(u) => r == OidcUserStep::LinkExisting(
                    u,
                    identity_for(new_identity_id, u.id, provider_organization_id, assertion),
                ),
                None => r matches OidcUserStep::CreateNew(u, i) && u.id == new_user_id && u.email == assertion.email
                    && u.display_name == assertion.display_name
                    && u.password_hash@ == oidc_marker(assertion.issuer@, assertion.subject@)
                    && i == identity_for(new_identity_id, new_user_id, provider_organization_id, assertion),
            },
        },
{
    match identity {
        Some(i) => OidcUserStep::LoadLinked(i.user_id),
        None => match user_with_email {
            Some(u) => {
                let user_id = u.id;
                OidcUserStep::LinkExisting(
                    u,
                    StoredOidcIdentity {
                        id: new_identity_id,
                        user_id,
                        organization_id: provider_organization_id,
                        issuer: assertion.issuer,
                        subject: assertion.subject,
                        email: assertion.email,
                    },
                )
            },
            None => {
                let password_hash = oidc_password_marker(assertion.issuer.as_str(), assertion.subject.as_str());
                let user = StoredUser {
                    id: new_user_id,
                    email: assertion.email.clone(),
                    display_name: assertion.display_name,
                    password_hash,
                };
                OidcUserStep::CreateNew(
                    user,
                    StoredOidcIdentity {
                        id: new_identity_id,
                        user_id: new_user_id,
                        organization_id: provider_organization_id,
                        issuer: assertion.issuer,
                        subject: assertion.subject,
                        email: assertion.email,
                    },
                )
            },
        },
    }
}

/// The result of an OIDC login: the session and where the user joins.
pub fn oidc_login_result(auth: AuthResult, provider: StoredOidcProvider) -> (r: OidcLoginResult)
    ensures
        r.auth == auth && r.organization_id == provider.organization_id && r.auto_join_role == provider.auto_join_role,
{
    OidcLoginResult { auth, organization_id: provider.organization_id, auto_join_role: provider.auto_join_role }
}

} // verus!
