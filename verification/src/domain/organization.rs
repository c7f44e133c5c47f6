//! Organizations (tenants): names, slugs, plans, regions, members and
//! custom domains.
use vstd::prelude::*;
use vstd::std_specs::convert::FromSpecImpl;

use crate::domain::ids::{uuid_simple, uuid_simple_string};
use crate::text::{
    chars_of, collapse_ws, collapsed, drop_trailing, eq_str, is_ascii_alphanumeric,
    is_ascii_digit, is_ascii_alphanumeric_char, lower_seq, slug_chars, slug_of, string_of, strip_trailing,
    to_ascii_lowercase, trim, trim_seq, trimmed, trimmed_lower, utf8_len, utf8_len_at_most,
    utf8_len_between,
};

verus! {

#[derive(Clone, Debug, PartialEq, Eq)]
pub struct StoredOrganization {
    pub id: u128,
    pub slug: String,
    pub name: String,
    pub plan: String,
    pub deployment_mode: String,
    pub primary_region: String,
}

#[derive(Clone, Debug, PartialEq, Eq)]
pub struct StoredOrganizationMember {
    pub organization_id: u128,
    pub user_id: u128,
    pub role: String,
    pub status: String,
}

#[derive(Clone, Debug, PartialEq, Eq)]
pub struct StoredCustomDomain {
    pub id: u128,
    pub organization_id: u128,
    pub hostname: String,
    pub verification_token: String,
    pub status: String,
}

/// A custom domain as shown to organization members.
#[derive(Clone, Debug, PartialEq, Eq)]
pub struct CustomDomain {
    pub id: u128,
    pub organization_id: u128,
    pub hostname: String,
    pub verification_token: String,
    pub status: String,
}

/// The organization a verified custom domain resolves to.
#[derive(Clone, Debug, PartialEq, Eq)]
pub struct CustomDomainTenant {
    pub organization_id: u128,
    pub slug: String,
    pub name: String,
    pub plan: String,
    pub deployment_mode: String,
    pub primary_region: String,
    pub hostname: String,
}

#[derive(Clone, Debug, PartialEq, Eq)]
pub struct OrganizationMembership {
    pub id: u128,
    pub slug: String,
    pub name: String,
    pub role: String,
    pub plan: String,
    pub deployment_mode: String,
    pub primary_region: String,
}

#[derive(Clone, Debug, PartialEq, Eq)]
pub struct TenantProvision {
    pub organization: OrganizationMembership,
    pub owner_user_id: u128,
}

#[derive(Debug, PartialEq, Eq)]
pub enum OrganizationError {
    InvalidInput(&'static str),
    SlugAlreadyExists,
    CustomDomainAlreadyExists,
    Forbidden,
    NotFound,
    StoreUnavailable,
}

impl OrganizationError {
    pub fn status_code(&self) -> (r: u16)
        ensures
            r == (match self {
                OrganizationError::InvalidInput(_) => 400u16,
                OrganizationError::SlugAlreadyExists => 409,
                OrganizationError::CustomDomainAlreadyExists => 409,
                OrganizationError::Forbidden => 403,
                OrganizationError::NotFound => 404,
                OrganizationError::StoreUnavailable => 500,
            }),
    {
        match self {
            OrganizationError::InvalidInput(_) => 400,
            OrganizationError::SlugAlreadyExists => 409,
            OrganizationError::CustomDomainAlreadyExists => 409,
            OrganizationError::Forbidden => 403,
            OrganizationError::NotFound => 404,
            OrganizationError::StoreUnavailable => 500,
        }
    }

    pub fn code(&self) -> (r: &'static str)
        ensures
            r@ == (match self {
                OrganizationError::InvalidInput(_) => "invalid_request"@,
                OrganizationError::SlugAlreadyExists => "organization_slug_already_exists"@,
                OrganizationError::CustomDomainAlreadyExists => "custom_domain_already_exists"@,
                OrganizationError::Forbidden => "forbidden"@,
                OrganizationError::NotFound => "organization_not_found"@,
                OrganizationError::StoreUnavailable => "store_unavailable"@,
            }),
    {
        match self {
            OrganizationError::InvalidInput(_) => "invalid_request",
            OrganizationError::SlugAlreadyExists => "organization_slug_already_exists",
            OrganizationError::CustomDomainAlreadyExists => "custom_domain_already_exists",
            OrganizationError::Forbidden => "forbidden",
            OrganizationError::NotFound => "organization_not_found",
            OrganizationError::StoreUnavailable => "store_unavailable",
        }
    }

    pub fn message(&self) -> (r: &'static str)
        ensures
            r@ == (match self {
                OrganizationError::InvalidInput(m) => m@,
                OrganizationError::SlugAlreadyExists => "organization slug already exists"@,
                OrganizationError::CustomDomainAlreadyExists => "custom domain already exists"@,
                OrganizationError::Forbidden => "organization admin permission is required"@,
                OrganizationError::NotFound => "organization was not found"@,
                OrganizationError::StoreUnavailable => "organization store is unavailable"@,
            }),
    {
        match self {
            OrganizationError::InvalidInput(m) => m,
            OrganizationError::SlugAlreadyExists => "organization slug already exists",
            OrganizationError::CustomDomainAlreadyExists => "custom domain already exists",
            OrganizationError::Forbidden => "organization admin permission is required",
            OrganizationError::NotFound => "organization was not found",
            OrganizationError::StoreUnavailable => "organization store is unavailable",
        }
    }
}

pub open spec fn valid_organization_name(name: Seq<char>) -> bool {
    2 <= utf8_len(collapse_ws(name)) <= 100
}

pub fn normalize_name(name: String) -> (r: Result<String, OrganizationError>)
    ensures
        match r {
            Ok(n) => valid_organization_name(name@) && n@ == collapse_ws(name@),
            Err(e) => !valid_organization_name(name@) && e == OrganizationError::InvalidInput(
                "organization name must be between 2 and 100 characters",
            ),
        },
{
    let n = collapsed(name.as_str());
    if utf8_len_between(&n, 2, 100) {
        Ok(string_of(&n))
    } else {
        Err(OrganizationError::InvalidInput("organization name must be between 2 and 100 characters"))
    }
}

pub fn slugify(name: &str) -> (r: Result<String, OrganizationError>)
    ensures
        match r {
            Ok(s) => s@ == slug_of(name@) && s@.len() > 0,
            Err(e) => slug_of(name@).len() == 0 && e == OrganizationError::InvalidInput(
                "organization name must include letters or numbers",
            ),
        },
{
    let s = slug_chars(&chars_of(name));
    if s.len() == 0 {
        Err(OrganizationError::InvalidInput("organization name must include letters or numbers"))
    } else {
        Ok(string_of(&s))
    }
}

/// `value` trimmed and ASCII lower-cased.
pub open spec fn key_of(value: Seq<char>) -> Seq<char> {
    lower_seq(trim_seq(value))
}

pub fn normalize_member_role(role: String) -> (r: Result<String, OrganizationError>)
    ensures
        ({
            let k = key_of(role@);
            let ok = k == "owner"@ || k == "admin"@ || k == "member"@ || k == "guest"@;
            match r {
                Ok(s) => ok && s@ == k,
                Err(e) => !ok && e == OrganizationError::InvalidInput(
                    "organization member role must be owner, admin, member, or guest",
                ),
            }
        }),
{
    let k = trimmed_lower(role.as_str());
    if eq_str(&k, "owner") || eq_str(&k, "admin") || eq_str(&k, "member") || eq_str(&k, "guest") {
        Ok(string_of(&k))
    } else {
        Err(
            OrganizationError::InvalidInput(
                "organization member role must be owner, admin, member, or guest",
            ),
        )
    }
}

pub open spec fn is_plan(k: Seq<char>) -> bool {
    k == "free"@ || k == "team"@ || k == "business"@ || k == "enterprise"@
}

pub fn normalize_plan(plan: String) -> (r: Result<String, OrganizationError>)
    ensures
        match r {
            Ok(s) => is_plan(key_of(plan@)) && s@ == key_of(plan@),
            Err(e) => !is_plan(key_of(plan@)) && e == OrganizationError::InvalidInput(
                "tenant plan must be free, team, business, or enterprise",
            ),
        },
{
    let k = trimmed_lower(plan.as_str());
    if eq_str(&k, "free") || eq_str(&k, "team") || eq_str(&k, "business") || eq_str(&k, "enterprise") {
        Ok(string_of(&k))
    } else {
        Err(OrganizationError::InvalidInput("tenant plan must be free, team, business, or enterprise"))
    }
}

pub open spec fn is_deployment_mode(k: Seq<char>) -> bool {
    k == "self_hosted"@ || k == "cloud"@
}

pub fn normalize_deployment_mode(deployment_mode: String) -> (r: Result<String, OrganizationError>)
    ensures
        match r {
            Ok(s) => is_deployment_mode(key_of(deployment_mode@)) && s@ == key_of(deployment_mode@),
            Err(e) => !is_deployment_mode(key_of(deployment_mode@)) && e == OrganizationError::InvalidInput(
                "tenant deployment_mode must be self_hosted or cloud",
            ),
        },
{
    let k = trimmed_lower(deployment_mode.as_str());
    if eq_str(&k, "self_hosted") || eq_str(&k, "cloud") {
        Ok(string_of(&k))
    } else {
        Err(OrganizationError::InvalidInput("tenant deployment_mode must be self_hosted or cloud"))
    }
}

/// A region: 2 to 64 bytes of ASCII letters, digits and hyphens.
pub open spec fn valid_region(k: Seq<char>) -> bool {
    &&& 2 <= utf8_len(k) <= 64
    &&& forall|i: int| 0 <= i < k.len() ==> is_ascii_alphanumeric(#[trigger] k[i]) || k[i] == '-'
}

fn all_alnum_or_dash(s: &Vec<char>) -> (r: bool)
    ensures
        r == (forall|i: int| 0 <= i < s@.len() ==> is_ascii_alphanumeric(#[trigger] s@[i]) || s@[i] == '-'),
{
    let mut i: usize = 0;
    while i < s.len()
        invariant
            i <= s.len(),
            forall|k: int| 0 <= k < i ==> is_ascii_alphanumeric(#[trigger] s@[k]) || s@[k] == '-',
        decreases s.len() - i,
    {
        if !(is_ascii_alphanumeric_char(s[i]) || s[i] == '-') {
            return false;
        }
        i += 1;
    }
    true
}

pub fn normalize_region(region: String) -> (r: Result<String, OrganizationError>)
    ensures
        match r {
            Ok(s) => valid_region(key_of(region@)) && s@ == key_of(region@),
            Err(e) => !valid_region(key_of(region@)) && e == OrganizationError::InvalidInput(
                "tenant primary_region must be 2 to 64 lowercase letters, numbers, or hyphens",
            ),
        },
{
    let k = trimmed_lower(region.as_str());
    if utf8_len_between(&k, 2, 64) && all_alnum_or_dash(&k) {
        Ok(string_of(&k))
    } else {
        Err(
            OrganizationError::InvalidInput(
                "tenant primary_region must be 2 to 64 lowercase letters, numbers, or hyphens",
            ),
        )
    }
}

/// `str::split(sep)`: the pieces between separators, one more than there are
/// separators.
pub open spec fn split_on(s: Seq<char>, sep: char) -> Seq<Seq<char>>
    decreases s.len(),
{
    if s.len() == 0 {
        seq![seq![]]
    } else {
        let p = split_on(s.drop_last(), sep);
        if s.last() == sep {
            p.push(seq![])
        } else {
            p.update(p.len() - 1, p.last().push(s.last()))
        }
    }
}

pub proof fn lemma_split_on_nonempty(s: Seq<char>, sep: char)
    ensures
        split_on(s, sep).len() >= 1,
    decreases s.len(),
{
    if s.len() > 0 {
        lemma_split_on_nonempty(s.drop_last(), sep);
    }
}

/// A DNS label: 1 to 63 bytes of ASCII letters, digits and hyphens, not
/// starting or ending with a hyphen.
pub open spec fn valid_label(l: Seq<char>) -> bool {
    &&& l.len() > 0
    &&& utf8_len(l) <= 63
    &&& l[0] != '-'
    &&& l.last() != '-'
    &&& forall|i: int| 0 <= i < l.len() ==> is_ascii_alphanumeric(#[trigger] l[i]) || l[i] == '-'
}

fn label_is_valid(l: &Vec<char>) -> (r: bool)
    ensures
        r == valid_label(l@),
{
    l.len() > 0 && utf8_len_at_most(l, 63) && l[0] != '-' && l[l.len() - 1] != '-' && all_alnum_or_dash(l)
}

/// Every label of `h` between dots is a valid DNS label.
pub open spec fn all_labels_valid(h: Seq<char>) -> bool {
    forall|k: int| 0 <= k < split_on(h, '.').len() ==> valid_label(#[trigger] split_on(h, '.')[k])
}

fn labels_are_valid(h: &Vec<char>) -> (r: bool)
    ensures
        r == all_labels_valid(h@),
{
    let mut cur: Vec<char> = Vec::new();
    let mut ok = true;
    let mut i: usize = 0;
    proof {
        assert(h@.take(0) =~= Seq::<char>::empty());
    }
    while i < h.len()
        invariant
            i <= h.len(),
            split_on(h@.take(i as int), '.').len() >= 1,
            cur@ == split_on(h@.take(i as int), '.').last(),
            ok == (forall|k: int|
                0 <= k < split_on(h@.take(i as int), '.').len() - 1 ==> valid_label(
                    #[trigger] split_on(h@.take(i as int), '.')[k],
                )),
        decreases h.len() - i,
    {
        let ghost sp = split_on(h@.take(i as int), '.');
        let ghost t = h@.take(i as int + 1);
        assert(t.drop_last() =~= h@.take(i as int));
        let c = h[i];
        if c == '.' {
            let v = label_is_valid(&cur);
            proof {
                let sp2 = split_on(t, '.');
                assert(sp2 == sp.push(seq![]));
                assert forall|k: int| 0 <= k < sp2.len() - 1 implies (valid_label(#[trigger] sp2[k]) <==> valid_label(sp[k])) by {
                    assert(sp2[k] == sp[k]);
                }
                if ok && v {
                    assert forall|k: int| 0 <= k < sp2.len() - 1 implies valid_label(#[trigger] sp2[k]) by {
                        assert(sp2[k] == sp[k]);
                        if k < sp.len() - 1 {
                        } else {
                            assert(sp[k] == cur@);
                        }
                    }
                }
                if !v {
                    assert(sp2[sp.len() - 1] == sp[sp.len() - 1]);
                    assert(!valid_label(sp2[sp.len() - 1]));
                }
                if !ok {
                    let k = choose|k: int| 0 <= k < sp.len() - 1 && !valid_label(#[trigger] sp[k]);
                    assert(sp2[k] == sp[k]);
                }
            }
            ok = ok && v;
            cur = Vec::new();
            proof {
                assert(cur@ =~= split_on(t, '.').last());
            }
        } else {
            cur.push(c);
            proof {
                let sp2 = split_on(t, '.');
                assert(sp2 == sp.update(sp.len() - 1, sp.last().push(c)));
                assert(cur@ =~= sp2.last());
                assert forall|k: int| 0 <= k < sp2.len() - 1 implies sp2[k] == sp[k] by {}
                if !ok {
                    let k = choose|k: int| 0 <= k < sp.len() - 1 && !valid_label(#[trigger] sp[k]);
                    assert(sp2[k] == sp[k]);
                }
            }
        }
        i += 1;
    }
    assert(h@.take(h.len() as int) =~= h@);
    let v = label_is_valid(&cur);
    proof {
        let sp = split_on(h@, '.');
        if ok && v {
            assert forall|k: int| 0 <= k < sp.len() implies valid_label(#[trigger] sp[k]) by {
                if k == sp.len() - 1 {
                    assert(sp[k] == cur@);
                }
            }
        }
        if !v {
            assert(!valid_label(sp[sp.len() - 1]));
        }
        if !ok {
            let k = choose|k: int| 0 <= k < sp.len() - 1 && !valid_label(#[trigger] sp[k]);
        }
    }
    ok && v
}

/// The hostname that `normalize_hostname` checks: trimmed, trailing dots
/// removed, ASCII lower-cased.
pub open spec fn hostname_key(hostname: Seq<char>) -> Seq<char> {
    lower_seq(drop_trailing(trim_seq(hostname), |c: char| c == '.'))
}

/// A fully qualified hostname: at most 253 bytes, at least one dot, and
/// every label valid.
pub open spec fn valid_hostname(h: Seq<char>) -> bool {
    &&& utf8_len(h) <= 253
    &&& h.contains('.')
    &&& all_labels_valid(h)
}

pub fn normalize_hostname(hostname: String) -> (r: Result<String, OrganizationError>)
    ensures
        match r {
            Ok(s) => valid_hostname(hostname_key(hostname@)) && s@ == hostname_key(hostname@),
            Err(e) => !valid_hostname(hostname_key(hostname@)) && e == OrganizationError::InvalidInput(
                "custom domain hostname must be a valid fully qualified hostname",
            ),
        },
{
    let h = to_ascii_lowercase(&strip_trailing(&trimmed(hostname.as_str()), '.'));
    if !utf8_len_at_most(&h, 253) || !crate::text::contains_char(&h, '.') {
        return Err(
            OrganizationError::InvalidInput(
                "custom domain hostname must be a valid fully qualified hostname",
            ),
        );
    }
    if labels_are_valid(&h) {
        Ok(string_of(&h))
    } else {
        Err(
            OrganizationError::InvalidInput(
                "custom domain hostname must be a valid fully qualified hostname",
            ),
        )
    }
}

/// The characters of `s` before the first `c` (all of `s` without one).
pub open spec fn before_first(s: Seq<char>, c: char) -> Seq<char>
    decreases s.len(),
{
    if s.len() == 0 || s[0] == c {
        seq![]
    } else {
        seq![s[0]] + before_first(s.drop_first(), c)
    }
}

/// Index of the last `c` in `s`, or -1.
pub open spec fn last_index_of(s: Seq<char>, c: char) -> int
    decreases s.len(),
{
    if s.len() == 0 {
        -1
    } else if s.last() == c {
        s.len() - 1
    } else {
        last_index_of(s.drop_last(), c)
    }
}

/// The host of a `Host` header: inside brackets for an IPv6 literal, else
/// without a trailing `:port` made of digits.
pub open spec fn host_of_header(host: Seq<char>) -> Seq<char> {
    if host.len() > 0 && host[0] == '[' {
        before_first(host.drop_first(), ']')
    } else {
        let i = last_index_of(host, ':');
        let port = host.subrange(i + 1, host.len() as int);
        if i >= 0 && port.len() > 0 && forall|k: int| 0 <= k < port.len() ==> is_ascii_digit(#[trigger] port[k]) {
            host.take(i)
        } else {
            host
        }
    }
}

proof fn lemma_before_first(s: Seq<char>, c: char, i: int)
    requires
        0 <= i <= s.len(),
        forall|k: int| 0 <= k < i ==> #[trigger] s[k] != c,
        i == s.len() || s[i] == c,
    ensures
        before_first(s, c) == s.take(i),
    decreases i,
{
    if i > 0 {
        assert(s[0] != c);
        lemma_before_first(s.drop_first(), c, i - 1);
        assert(seq![s[0]] + s.drop_first().take(i - 1) =~= s.take(i));
    } else {
        assert(s.take(0) =~= Seq::<char>::empty());
    }
}

proof fn lemma_last_index_of(s: Seq<char>, c: char, i: int)
    requires
        -1 <= i < s.len(),
        forall|k: int| i < k < s.len() ==> #[trigger] s[k] != c,
        i == -1 || s[i] == c,
    ensures
        last_index_of(s, c) == i,
    decreases s.len(),
{
    if s.len() > 0 && i < s.len() - 1 {
        assert(s[s.len() - 1] != c);
        lemma_last_index_of(s.drop_last(), c, i);
    }
}

fn host_part(host: &Vec<char>) -> (r: Vec<char>)
    ensures
        r@ == host_of_header(host@),
{
    if host.len() > 0 && host[0] == '[' {
        let mut i: usize = 1;
        while i < host.len() && host[i] != ']'
            invariant
                1 <= i <= host.len(),
                forall|k: int| 1 <= k < i ==> #[trigger] host@[k] != ']',
            decreases host.len() - i,
        {
            i += 1;
        }
        let mut r: Vec<char> = Vec::new();
        let mut j: usize = 1;
        while j < i
            invariant
                1 <= j <= i <= host.len(),
                r@ == host@.subrange(1, j as int),
            decreases i - j,
        {
            r.push(host[j]);
            assert(host@.subrange(1, j as int).push(host@[j as int]) =~= host@.subrange(1, j as int + 1));
            j += 1;
        }
        proof {
            let rest = host@.drop_first();
            assert forall|k: int| 0 <= k < i - 1 implies #[trigger] rest[k] != ']' by {
                assert(rest[k] == host@[k + 1]);
            }
            lemma_before_first(rest, ']', i - 1);
            assert(rest.take(i - 1) =~= host@.subrange(1, i as int));
        }
        return r;
    }
    let mut i: usize = host.len();
    while i > 0 && host[i - 1] != ':'
        invariant
            i <= host.len(),
            forall|k: int| i <= k < host.len() ==> #[trigger] host@[k] != ':',
        decreases i,
    {
        i -= 1;
    }
    proof {
        lemma_last_index_of(host@, ':', i - 1);
    }
    if i == 0 || i == host.len() {
        proof {
            let li = last_index_of(host@, ':');
            assert(li == i - 1);
            assert(host@.subrange(li + 1, host.len() as int).len() == host.len() - i);
        }
        return copy_chars(host, host.len());
    }
    let mut j: usize = i;
    while j < host.len()
        invariant
            0 < i <= j <= host.len(),
            last_index_of(host@, ':') == i - 1,
            !(host@.len() > 0 && host@[0] == '['),
            forall|k: int| i <= k < j ==> is_ascii_digit(#[trigger] host@[k]),
        decreases host.len() - j,
    {
        if !('0' <= host[j] && host[j] <= '9') {
            proof {
                let port = host@.subrange(i as int, host.len() as int);
                assert(!is_ascii_digit(port[j - i]));
                assert(!(forall|k: int| 0 <= k < port.len() ==> is_ascii_digit(#[trigger] port[k])));
                assert(last_index_of(host@, ':') + 1 == i);
            }
            return copy_chars(host, host.len());
        }
        j += 1;
    }
    proof {
        let port = host@.subrange(i as int, host.len() as int);
        assert forall|k: int| 0 <= k < port.len() implies is_ascii_digit(#[trigger] port[k]) by {
            assert(port[k] == host@[i + k]);
        }
    }
    copy_chars(host, i - 1)
}

fn copy_chars(s: &Vec<char>, n: usize) -> (r: Vec<char>)
    requires
        n <= s.len(),
    ensures
        r@ == s@.take(n as int),
        n == s.len() ==> r@ == s@,
{
    let mut r: Vec<char> = Vec::new();
    let mut i: usize = 0;
    while i < n
        invariant
            i <= n <= s.len(),
            r@ == s@.take(i as int),
        decreases n - i,
    {
        r.push(s[i]);
        assert(s@.take(i as int).push(s@[i as int]) =~= s@.take(i as int + 1));
        i += 1;
    }
    if n == s.len() {
        assert(s@.take(n as int) =~= s@);
    }
    r
}

pub fn normalize_host_header(host_header: String) -> (r: Result<String, OrganizationError>)
    ensures
        ({
            let host = trim_seq(host_header@);
            if host.len() == 0 {
                r == Err::<String, OrganizationError>(OrganizationError::InvalidInput("host header is required"))
            } else {
                let h = hostname_key(host_of_header(host));
                match r {
                    Ok(s) => valid_hostname(h) && s@ == h,
                    Err(e) => !valid_hostname(h) && e == OrganizationError::InvalidInput(
                        "custom domain hostname must be a valid fully qualified hostname",
                    ),
                }
            }
        }),
{
    let host = trimmed(host_header.as_str());
    if host.len() == 0 {
        return Err(OrganizationError::InvalidInput("host header is required"));
    }
    let part = host_part(&host);
    normalize_hostname(string_of(&part))
}

/// What `create_with_options` hands to the store and returns.
pub struct NewOrganization {
    pub organization: StoredOrganization,
    pub owner_member: StoredOrganizationMember,
    pub membership: OrganizationMembership,
}

/// A new organization owned by `owner_user_id` (`create_with_options`
/// before the store call).
pub fn new_organization(
    id: u128,
    owner_user_id: u128,
    name: String,
    plan: &str,
    deployment_mode: &str,
    primary_region: &str,
) -> (r: Result<NewOrganization, OrganizationError>)
    ensures
        match r {
            Ok(n) => {
                &&& valid_organization_name(name@)
                &&& n.organization.id == id
                &&& n.organization.name@ == collapse_ws(name@)
                &&& n.organization.slug@ == slug_of(collapse_ws(name@)) && n.organization.slug@.len() > 0
                &&& n.organization.plan@ == plan@
                &&& n.organization.deployment_mode@ == deployment_mode@
                &&& n.organization.primary_region@ == primary_region@
                &&& n.owner_member.organization_id == id && n.owner_member.user_id == owner_user_id
                &&& n.owner_member.role@ == "owner"@ && n.owner_member.status@ == "active"@
                &&& n.membership.id == id && n.membership.role@ == "owner"@
                &&& n.membership.slug == n.organization.slug && n.membership.name == n.organization.name
                &&& n.membership.plan == n.organization.plan
                &&& n.membership.deployment_mode == n.organization.deployment_mode
                &&& n.membership.primary_region == n.organization.primary_region
            },
            Err(e) => {
                ||| !valid_organization_name(name@) && e == OrganizationError::InvalidInput(
                    "organization name must be between 2 and 100 characters",
                )
                ||| valid_organization_name(name@) && slug_of(collapse_ws(name@)).len() == 0 && e
                    == OrganizationError::InvalidInput("organization name must include letters or numbers")
            },
        },
{
    let name = normalize_name(name)?;
    let slug = slugify(name.as_str())?;
    let plan = string_of(&chars_of(plan));
    let deployment_mode = string_of(&chars_of(deployment_mode));
    let primary_region = string_of(&chars_of(primary_region));
    let organization = StoredOrganization {
        id,
        slug: slug.clone(),
        name: name.clone(),
        plan: plan.clone(),
        deployment_mode: deployment_mode.clone(),
        primary_region: primary_region.clone(),
    };
    let owner_member = StoredOrganizationMember {
        organization_id: id,
        user_id: owner_user_id,
        role: string_of(&chars_of("owner")),
        status: string_of(&chars_of("active")),
    };
    let membership = OrganizationMembership {
        id,
        slug,
        name,
        role: string_of(&chars_of("owner")),
        plan,
        deployment_mode,
        primary_region,
    };
    Ok(NewOrganization { organization, owner_member, membership })
}

/// `create`: a free, self-hosted organization in the local region.
pub fn new_default_organization(id: u128, owner_user_id: u128, name: String) -> (r: Result<NewOrganization, OrganizationError>)
    ensures
        match r {
            Ok(n) => valid_organization_name(name@) && n.organization.id == id
                && n.organization.name@ == collapse_ws(name@)
                && n.organization.slug@ == slug_of(collapse_ws(name@))
                && n.organization.plan@ == "free"@
                && n.organization.deployment_mode@ == "self_hosted"@
                && n.organization.primary_region@ == "local"@
                && n.owner_member.user_id == owner_user_id,
            Err(e) => {
                ||| !valid_organization_name(name@) && e == OrganizationError::InvalidInput(
                    "organization name must be between 2 and 100 characters",
                )
                ||| valid_organization_name(name@) && slug_of(collapse_ws(name@)).len() == 0 && e
                    == OrganizationError::InvalidInput("organization name must include letters or numbers")
            },
        },
{
    new_organization(id, owner_user_id, name, "free", "self_hosted", "local")
}

/// `provision_tenant`: the plan, deployment mode and region validated
/// first, then the organization.
pub fn new_tenant(
    id: u128,
    owner_user_id: u128,
    name: String,
    plan: String,
    deployment_mode: String,
    primary_region: String,
) -> (r: Result<NewOrganization, OrganizationError>)
    ensures
        match r {
            Ok(n) => {
                &&& is_plan(key_of(plan@)) && n.organization.plan@ == key_of(plan@)
                &&& is_deployment_mode(key_of(deployment_mode@))
                &&& n.organization.deployment_mode@ == key_of(deployment_mode@)
                &&& valid_region(key_of(primary_region@))
                &&& n.organization.primary_region@ == key_of(primary_region@)
                &&& valid_organization_name(name@)
                &&& n.organization.id == id && n.organization.name@ == collapse_ws(name@)
                &&& n.organization.slug@ == slug_of(collapse_ws(name@))
                &&& n.owner_member.user_id == owner_user_id
            },
            Err(e) => {
                ||| !is_plan(key_of(plan@)) && e == OrganizationError::InvalidInput(
                    "tenant plan must be free, team, business, or enterprise",
                )
                ||| is_plan(key_of(plan@)) && !is_deployment_mode(key_of(deployment_mode@)) && e
                    == OrganizationError::InvalidInput("tenant deployment_mode must be self_hosted or cloud")
                ||| is_plan(key_of(plan@)) && is_deployment_mode(key_of(deployment_mode@))
                    && !valid_region(key_of(primary_region@)) && e == OrganizationError::InvalidInput(
                    "tenant primary_region must be 2 to 64 lowercase letters, numbers, or hyphens",
                )
                ||| is_plan(key_of(plan@)) && is_deployment_mode(key_of(deployment_mode@))
                    && valid_region(key_of(primary_region@)) && !valid_organization_name(name@) && e
                    == OrganizationError::InvalidInput(
                    "organization name must be between 2 and 100 characters",
                )
                ||| is_plan(key_of(plan@)) && is_deployment_mode(key_of(deployment_mode@))
                    && valid_region(key_of(primary_region@)) && valid_organization_name(name@)
                    && slug_of(collapse_ws(name@)).len() == 0 && e == OrganizationError::InvalidInput(
                    "organization name must include letters or numbers",
                )
            },
        },
{
    let plan = normalize_plan(plan)?;
    let deployment_mode = normalize_deployment_mode(deployment_mode)?;
    let primary_region = normalize_region(primary_region)?;
    new_organization(
        id,
        owner_user_id,
        name,
        plan.as_str(),
        deployment_mode.as_str(),
        primary_region.as_str(),
    )
}

/// The membership when its role is owner or admin, else `Forbidden`
/// (`require_admin` after the lookup).
pub fn require_admin_membership(membership: OrganizationMembership) -> (r: Result<OrganizationMembership, OrganizationError>)
    ensures
        if membership.role@ == "owner"@ || membership.role@ == "admin"@ {
            r == Ok::<OrganizationMembership, OrganizationError>(membership)
        } else {
            r == Err::<OrganizationMembership, OrganizationError>(OrganizationError::Forbidden)
        },
{
    let role = chars_of(membership.role.as_str());
    if eq_str(&role, "owner") || eq_str(&role, "admin") {
        Ok(membership)
    } else {
        Err(OrganizationError::Forbidden)
    }
}

/// The verification token of a new custom domain: `opc-domain-` and the
/// simple form of a fresh UUID.
pub open spec fn domain_token(token_id: u128) -> Seq<char> {
    "opc-domain-"@ + uuid_simple(token_id)
}

/// A custom domain awaiting verification (`create_custom_domain` before the
/// store call).
pub fn new_custom_domain(id: u128, organization_id: u128, hostname: String, token_id: u128) -> (r: Result<StoredCustomDomain, OrganizationError>)
    ensures
        match r {
            Ok(d) => {
                &&& valid_hostname(hostname_key(hostname@))
                &&& d.id == id && d.organization_id == organization_id
                &&& d.hostname@ == hostname_key(hostname@)
                &&& d.verification_token@ == domain_token(token_id)
                &&& d.status@ == "pending_verification"@
            },
            Err(e) => !valid_hostname(hostname_key(hostname@)) && e == OrganizationError::InvalidInput(
                "custom domain hostname must be a valid fully qualified hostname",
            ),
        },
{
    let hostname = normalize_hostname(hostname)?;
    let mut token = string_of(&chars_of("opc-domain-"));
    let simple = uuid_simple_string(token_id);
    token.append(simple.as_str());
    Ok(StoredCustomDomain {
        id,
        organization_id,
        hostname,
        verification_token: token,
        status: string_of(&chars_of("pending_verification")),
    })
}

/// The verification token of a `verify_custom_domain` request, trimmed; an
/// empty one is refused.
pub fn verification_token_of(verification_token: String) -> (r: Result<String, OrganizationError>)
    ensures
        match r {
            Ok(t) => t@ == trim_seq(verification_token@) && t@.len() > 0,
            Err(e) => trim_seq(verification_token@).len() == 0 && e == OrganizationError::InvalidInput(
                "custom domain verification_token is required",
            ),
        },
{
    let t = trimmed(verification_token.as_str());
    if t.len() == 0 {
        Err(OrganizationError::InvalidInput("custom domain verification_token is required"))
    } else {
        Ok(string_of(&t))
    }
}

/// `Ok` when the store found the value, else `NotFound`.
pub fn found_or_not_found<T>(found: Option<T>) -> (r: Result<T, OrganizationError>)
    ensures
        match found {
            Some(v) => r == Ok::<T, OrganizationError>(v),
            None => r == Err::<T, OrganizationError>(OrganizationError::NotFound),
        },
{
    match found {
        Some(v) => Ok(v),
        None => Err(OrganizationError::NotFound),
    }
}

/// The custom domain shown for a stored one: the same fields.
pub fn custom_domain_of(d: StoredCustomDomain) -> (r: CustomDomain)
    ensures
        r == (CustomDomain {
            id: d.id,
            organization_id: d.organization_id,
            hostname: d.hostname,
            verification_token: d.verification_token,
            status: d.status,
        }),
{
    CustomDomain {
        id: d.id,
        organization_id: d.organization_id,
        hostname: d.hostname,
        verification_token: d.verification_token,
        status: d.status,
    }
}

impl From<StoredCustomDomain> for CustomDomain {
    fn from(d: StoredCustomDomain) -> (r: CustomDomain) {
        custom_domain_of(d)
    }
}

impl FromSpecImpl<StoredCustomDomain> for CustomDomain {
    open spec fn obeys_from_spec() -> bool {
        true
    }

    open spec fn from_spec(d: StoredCustomDomain) -> CustomDomain {
        CustomDomain {
            id: d.id,
            organization_id: d.organization_id,
            hostname: d.hostname,
            verification_token: d.verification_token,
            status: d.status,
        }
    }
}

} // verus!
