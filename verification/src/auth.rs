//! Auth0 sign-in: the Auth0 settings, the key set cache, the bearer token and
//! its key id, and what a validated token yields.
use vstd::prelude::*;

use crate::error::ApiError;
use crate::text::{
    has_prefix, lemma_trim_end_char, lemma_trim_end_char_push, lemma_trim_start_pattern,
    lemma_trim_start_pattern_prepend, lemma_trim_start_pattern_push, opt_text, texts, starts_with,
    strip_prefix, trim_end_char, trim_end_matches_char, trim_start_matches, trim_start_pattern,
};
use crate::users::{bad_request_with, UserDoc};

use jsonwebtoken::jwk::JwkSet;
use jsonwebtoken::DecodingKey;

verus! {

#[verifier::external_type_specification]
#[verifier::external_body]
pub struct ExJwkSet(JwkSet);

#[verifier::external_type_specification]
#[verifier::external_body]
pub struct ExDecodingKey(DecodingKey);

/// The key ids of the keys in a key set, in order (`None` for a key without one).
pub uninterp spec fn jwk_set_key_ids(set: JwkSet) -> Seq<Option<Seq<char>>>;

/// What `DecodingKey::from_jwk` gives for each key of a key set, in order:
/// `Ok(())` when the key converts, else the display text of the error.
pub uninterp spec fn jwk_set_conversions(set: JwkSet) -> Seq<Result<(), Seq<char>>>;

/// The decoding key `DecodingKey::from_jwk` makes from key `i` of a key set
/// (when that key converts). Its source shows it is a function of the key
/// alone.
pub uninterp spec fn jwk_set_key(set: JwkSet, i: int) -> DecodingKey;

/// The key set holds a key with the id `kid`.
pub open spec fn has_key_id(set: JwkSet, kid: Seq<char>) -> bool {
    exists|i: int|
        0 <= i < jwk_set_key_ids(set).len() && #[trigger] jwk_set_key_ids(set)[i] == Some(kid)
}

/// Key `i` is the first key of the set with the id `kid` (the key
/// `JwkSet::find` answers with).
pub open spec fn first_key_with_id(set: JwkSet, kid: Seq<char>, i: int) -> bool {
    &&& 0 <= i < jwk_set_key_ids(set).len()
    &&& jwk_set_key_ids(set)[i] == Some(kid)
    &&& forall|j: int| 0 <= j < i ==> #[trigger] jwk_set_key_ids(set)[j] != Some(kid)
}

/// Trusted: the number of keys of a key set (`set.keys.len()`).
#[verifier::external_body]
fn jwk_count(set: &JwkSet) -> (r: usize)
    ensures
        r == jwk_set_key_ids(*set).len(),
        r == jwk_set_conversions(*set).len(),
{
    set.keys.len()
}

/// Trusted: the key id of key `i` of a key set (`set.keys[i].common.key_id`).
#[verifier::external_body]
fn jwk_key_id(set: &JwkSet, i: usize) -> (r: Option<String>)
    requires
        i < jwk_set_key_ids(*set).len(),
    ensures
        opt_text(r) == jwk_set_key_ids(*set)[i as int],
{
    set.keys[i].common.key_id.clone()
}

/// Trusted: calls `DecodingKey::from_jwk` on key `i` of a key set, handing
/// back the error's display text on failure. Its source shows the outcome
/// depends on the key alone (and that it does not panic); the key it makes is
/// named `jwk_set_key`.
#[verifier::external_body]
fn decoding_key_at(set: &JwkSet, i: usize) -> (r: Result<DecodingKey, String>)
    requires
        i < jwk_set_conversions(*set).len(),
    ensures
        match r {
            Ok(k) => jwk_set_conversions(*set)[i as int] == Ok::<(), Seq<char>>(()) && k == jwk_set_key(*set, i as int),
            Err(t) => jwk_set_conversions(*set)[i as int] == Err::<(), Seq<char>>(t@),
        },
{
    match DecodingKey::from_jwk(&set.keys[i]) {
        Ok(k) => Ok(k),
        Err(e) => Err(e.to_string()),
    }
}

/// The index of the first key of the set with the id `kid`, as
/// `JwkSet::find` picks it: the first key whose id is present and equal to
/// `kid`.
fn first_key_index(set: &JwkSet, kid: &str) -> (r: Option<usize>)
    ensures
        r matches Some(i) ==> first_key_with_id(*set, kid@, i as int),
        r is None ==> !has_key_id(*set, kid@),
        jwk_set_key_ids(*set).len() == jwk_set_conversions(*set).len(),
{
    let n = jwk_count(set);
    let mut i: usize = 0;
    while i < n
        invariant
            i <= n,
            n == jwk_set_key_ids(*set).len(),
            n == jwk_set_conversions(*set).len(),
            forall|j: int| 0 <= j < i ==> #[trigger] jwk_set_key_ids(*set)[j] != Some(kid@),
        decreases n - i,
    {
        match jwk_key_id(set, i) {
            Some(id) => {
                if crate::text::str_eq(id.as_str(), kid) {
                    return Some(i);
                }
            },
            None => {},
        }
        i = i + 1;
    }
    None
}

/// What `jsonwebtoken::decode_header` gives for a token: the key id of its
/// header, or the display text of the error.
pub uninterp spec fn jwt_header_kid(token: Seq<char>) -> Result<Option<Seq<char>>, Seq<char>>;

/// The text of a header key id lookup.
pub open spec fn header_kid_view(r: Result<Option<String>, String>) -> Result<Option<Seq<char>>, Seq<char>> {
    match r {
        Ok(Some(k)) => Ok(Some(k@)),
        Ok(None) => Ok(None),
        Err(e) => Err(e@),
    }
}

/// Trusted: calls `jsonwebtoken::decode_header` and keeps the header's `kid`
/// (or the error's display text). Its source fails on a token that has no
/// `.`, as a token of fewer than three parts.
#[verifier::external_body]
fn decode_header_kid(token: &str) -> (r: Result<Option<String>, String>)
    ensures
        header_kid_view(r) == jwt_header_kid(token@),
        !token@.contains('.') ==> r is Err,
{
    match jsonwebtoken::decode_header(token) {
        Ok(h) => Ok(h.kid),
        Err(e) => Err(e.to_string()),
    }
}

/// The error is an Auth0 client error with the given message.
pub open spec fn auth0_error_with(e: ApiError, msg: Seq<char>) -> bool {
    e matches ApiError::Auth0ClientError(m) && m@ == msg
}

/// `r` is what a header lookup `h` gives for the key id: the id, or an Auth0
/// error for an unreadable header or a header without a key id.
pub open spec fn kid_outcome(r: Result<String, ApiError>, h: Result<Option<Seq<char>>, Seq<char>>) -> bool {
    match h {
        Ok(Some(k)) => r matches Ok(t) && t@ == k,
        Ok(None) => r matches Err(e) && auth0_error_with(e, "Token missing kid"@),
        Err(m) => r matches Err(e) && auth0_error_with(e, "Invalid token header: "@ + m),
    }
}

/// The key id, given the result of reading the token header.
pub fn kid_from_header(header: Result<Option<String>, String>) -> (r: Result<String, ApiError>)
    ensures
        kid_outcome(r, header_kid_view(header)),
{
    match header {
        Ok(Some(kid)) => Ok(kid),
        Ok(None) => Err(ApiError::Auth0ClientError(String::from_str("Token missing kid"))),
        Err(e) => {
            let mut m = String::from_str("Invalid token header: ");
            m.append(e.as_str());
            Err(ApiError::Auth0ClientError(m))
        },
    }
}

/// The key id named in a token's header.
pub fn token_kid(token: &str) -> (r: Result<String, ApiError>)
    ensures
        kid_outcome(r, jwt_header_kid(token@)),
{
    kid_from_header(decode_header_kid(token))
}

// ---------------------------------------------------------------------------
// The key set cache
// ---------------------------------------------------------------------------

/// The Auth0 domain as a URL base: trailing `/` removed, `https://` put in
/// front unless it already starts with `http`.
pub open spec fn normalized_domain(domain: Seq<char>) -> Seq<char> {
    let t = trim_end_char(domain, '/');
    if has_prefix(t, "http"@) {
        t
    } else {
        "https://"@ + t
    }
}

/// Where a cache fetches its key set from: the domain's well-known JWKS path.
pub open spec fn jwks_url_of(c: JwksCache) -> Seq<char> {
    c.domain_text() + "/.well-known/jwks.json"@
}

/// JWKS cache: the Auth0 domain and, once fetched, its key set.
pub struct JwksCache {
    domain: String,
    jwks: Option<JwkSet>,
}

impl JwksCache {
    /// The domain keys are fetched from.
    pub closed spec fn domain_text(&self) -> Seq<char> {
        self.domain@
    }

    /// The cached key set, if fetched.
    pub closed spec fn cached(&self) -> Option<JwkSet> {
        self.jwks
    }

    /// A cache for the given Auth0 domain, with no key set yet.
    pub fn new(domain: &str) -> (r: Self)
        ensures
            r.domain_text() == normalized_domain(domain@),
            r.cached() is None,
    {
        let trimmed = trim_end_matches_char(domain, '/');
        if !starts_with(trimmed.as_str(), "http") {
            let mut d = String::from_str("https://");
            d.append(trimmed.as_str());
            return JwksCache { domain: d, jwks: None };
        }
        JwksCache { domain: trimmed, jwks: None }
    }

    /// Where the key set is fetched from.
    pub fn jwks_url(&self) -> (r: String)
        ensures
            r@ == jwks_url_of(*self),
    {
        let mut url = self.domain.clone();
        url.append("/.well-known/jwks.json");
        url
    }

    /// The key set must be fetched before the key `kid` can be looked up:
    /// nothing is cached yet, or the cached set has no key with that id (the
    /// cache refreshes on a miss).
    pub fn needs_fetch(&self, kid: &str) -> (r: bool)
        ensures
            r <==> fetch_needed(self.cached(), kid@),
    {
        match &self.jwks {
            None => true,
            Some(set) => first_key_index(set, kid).is_none(),
        }
    }

    /// Keep a fetched key set.
    pub fn store(&mut self, jwks: JwkSet)
        ensures
            final(self).cached() == Some(jwks),
            final(self).domain_text() == old(self).domain_text(),
    {
        self.jwks = Some(jwks);
    }

    /// Invalidate the cache (e.g. on a 401 from Auth0), so that the key set is
    /// fetched afresh.
    pub fn invalidate(&mut self)
        ensures
            final(self).cached() is None,
            final(self).domain_text() == old(self).domain_text(),
    {
        self.jwks = None;
    }

    /// The decoding key with the given key id, from the fetched key set: the
    /// first key with that id, converted.
    pub fn decoding_key(&self, kid: &str) -> (r: Result<DecodingKey, ApiError>)
        requires
            self.cached() is Some,
        ensures
            !has_key_id(self.cached()->0, kid@) ==> (r matches Err(e) && auth0_error_with(
                e,
                "JWK not found for kid"@,
            )),
            forall|i: int| #[trigger] first_key_with_id(self.cached()->0, kid@, i) ==> {
                &&& jwk_set_conversions(self.cached()->0)[i] is Ok ==> r is Ok
                &&& r matches Ok(k) ==> k == jwk_set_key(self.cached()->0, i)
                &&& jwk_set_conversions(self.cached()->0)[i] matches Err(t) ==> (r matches Err(
                    e,
                ) && auth0_error_with(e, "Invalid JWK: "@ + t))
            },
    {
        let set = match &self.jwks {
            Some(set) => set,
            None => {
                return Err(ApiError::Auth0ClientError(String::from_str("JWK not found for kid")));
            },
        };
        let i = match first_key_index(set, kid) {
            Some(i) => i,
            None => {
                return Err(ApiError::Auth0ClientError(String::from_str("JWK not found for kid")));
            },
        };
        proof {
            lemma_first_key_unique(*set, kid@, i as int);
        }
        match decoding_key_at(set, i) {
            Ok(key) => Ok(key),
            Err(e) => {
                let mut m = String::from_str("Invalid JWK: ");
                m.append(e.as_str());
                Err(ApiError::Auth0ClientError(m))
            },
        }
    }
}

/// Only one key is the first with a given id.
proof fn lemma_first_key_unique(set: JwkSet, kid: Seq<char>, i: int)
    requires
        first_key_with_id(set, kid, i),
    ensures
        forall|j: int| #[trigger] first_key_with_id(set, kid, j) ==> j == i,
{
    assert forall|j: int| #[trigger] first_key_with_id(set, kid, j) implies j == i by {
        if j < i {
            assert(jwk_set_key_ids(set)[j] != Some(kid));
        } else if j > i {
            assert(jwk_set_key_ids(set)[i] != Some(kid));
        }
    }
}

/// A lookup of `kid` needs a fetch first: nothing is cached, or the cached
/// set has no key with that id.
pub open spec fn fetch_needed(cached: Option<JwkSet>, kid: Seq<char>) -> bool {
    match cached {
        None => true,
        Some(set) => !has_key_id(set, kid),
    }
}

/// The error for a key set that could not be fetched, with the reason.
pub fn jwks_fetch_error(reason: &str) -> (e: ApiError)
    ensures
        auth0_error_with(e, "Failed to fetch JWKS: "@ + reason@),
{
    let mut m = String::from_str("Failed to fetch JWKS: ");
    m.append(reason);
    ApiError::Auth0ClientError(m)
}

/// The error for a fetched key set that could not be read, with the reason.
pub fn jwks_parse_error(reason: &str) -> (e: ApiError)
    ensures
        auth0_error_with(e, "Failed to parse JWKS: "@ + reason@),
{
    let mut m = String::from_str("Failed to parse JWKS: ");
    m.append(reason);
    ApiError::Auth0ClientError(m)
}

// ---------------------------------------------------------------------------
// Settings, tokens and claims
// ---------------------------------------------------------------------------

/// The audiences a token may be issued for: the API audience and the client
/// id, each when set and not empty, in that order.
pub open spec fn audiences_of(audience: Option<String>, client_id: Option<String>) -> Seq<Seq<char>> {
    (match audience {
        Some(a) => if a@.len() > 0 { seq![a@] } else { Seq::empty() },
        None => Seq::empty(),
    }) + (match client_id {
        Some(c) => if c@.len() > 0 { seq![c@] } else { Seq::empty() },
        None => Seq::empty(),
    })
}

/// The Auth0 settings: the domain (required) and the accepted audiences (at
/// least one of the API audience and the client id is required). Each
/// argument is the setting's value when it is set.
pub fn auth0_config(domain: Option<String>, audience: Option<String>, client_id: Option<String>) -> (r:
    Result<(String, Vec<String>), ApiError>)
    ensures
        domain is None ==> (r matches Err(e) && bad_request_with(e, "AUTH0_DOMAIN must be set"@)),
        domain is Some && audiences_of(audience, client_id).len() == 0 ==> (r matches Err(e)
            && bad_request_with(e, "AUTH0_AUDIENCE or AUTH0_CLIENT_ID must be set for Auth0 login"@)),
        domain is Some && audiences_of(audience, client_id).len() > 0 ==> (r matches Ok(
            cfg,
        ) && cfg.0 == domain->0 && texts(cfg.1@) == audiences_of(audience, client_id)),
        domain is Some && (client_id matches Some(c) && c@.len() > 0) ==> (r matches Ok(cfg)
            && cfg.1@.len() > 0 && cfg.1@.last()@ == client_id->0@),
        domain is Some && (audience matches Some(a) && a@.len() > 0) ==> (r matches Ok(cfg)
            && cfg.1@.len() > 0 && cfg.1@[0]@ == audience->0@),
        r matches Ok(cfg) ==> cfg.1@.len() == (if audience matches Some(a) && a@.len() > 0 {
            1int
        } else {
            0int
        }) + (if client_id matches Some(c) && c@.len() > 0 {
            1int
        } else {
            0int
        }),
{
    let domain = match domain {
        Some(d) => d,
        None => {
            return Err(ApiError::BadRequest(String::from_str("AUTH0_DOMAIN must be set")));
        },
    };
    let mut audiences: Vec<String> = Vec::new();
    if let Some(a) = audience {
        if a.as_str().unicode_len() > 0 {
            audiences.push(a);
        }
    }
    if let Some(c) = client_id {
        if c.as_str().unicode_len() > 0 {
            audiences.push(c);
        }
    }
    assert(texts(audiences@) =~= audiences_of(audience, client_id));
    proof {
        lemma_audiences(audience, client_id);
    }
    if audiences.len() == 0 {
        return Err(
            ApiError::BadRequest(
                String::from_str("AUTH0_AUDIENCE or AUTH0_CLIENT_ID must be set for Auth0 login"),
            ),
        );
    }
    Ok((domain, audiences))
}

/// The issuer tokens must carry: `https://<host>/`, the host being the
/// domain with any leading `https://` and trailing `/` removed.
pub open spec fn issuer_of(domain: Seq<char>) -> Seq<char> {
    "https://"@ + trim_end_char(trim_start_pattern(domain, "https://"@), '/') + "/"@
}

/// The issuer tokens of the given Auth0 domain must carry.
pub fn issuer_for_domain(domain: &str) -> (r: String)
    ensures
        r@ == issuer_of(domain@),
{
    proof {
        reveal_strlit("https://");
    }
    let host = trim_start_matches(domain, "https://");
    let host = trim_end_matches_char(host.as_str(), '/');
    let mut issuer = String::from_str("https://");
    issuer.append(host.as_str());
    issuer.append("/");
    issuer
}

/// A client id that is set and not empty is always an accepted audience,
/// whatever the API audience setting, and it comes last; an API audience that
/// is set and not empty is accepted too, and comes first. Nothing else is
/// accepted.
pub proof fn lemma_audiences(audience: Option<String>, client_id: Option<String>)
    ensures
        ({
            let auds = audiences_of(audience, client_id);
            let has_a = audience matches Some(a) && a@.len() > 0;
            let has_c = client_id matches Some(c) && c@.len() > 0;
            &&& auds.len() == (if has_a { 1int } else { 0int }) + (if has_c { 1int } else { 0int })
            &&& has_c ==> auds.contains(client_id->0@) && auds.last() == client_id->0@
            &&& has_a ==> auds.contains(audience->0@) && auds[0] == audience->0@
            &&& forall|i: int|
                0 <= i < auds.len() ==> (has_a && #[trigger] auds[i] == audience->0@) || (has_c
                    && auds[i] == client_id->0@)
        }),
{
    let auds = audiences_of(audience, client_id);
    if let Some(c) = client_id {
        if c@.len() > 0 {
            assert(auds[auds.len() - 1] == c@);
        }
    }
    if let Some(a) = audience {
        if a@.len() > 0 {
            assert(auds[0] == a@);
        }
    }
}

/// A domain given with its `https://` scheme has the same issuer as the bare
/// domain.
pub proof fn lemma_issuer_ignores_scheme(domain: Seq<char>)
    ensures
        issuer_of("https://"@ + domain) == issuer_of(domain),
{
    reveal_strlit("https://");
    lemma_trim_start_pattern_prepend(domain, "https://"@);
}

/// A trailing `/` on the domain does not change the issuer. The one exception
/// is a domain that, after its leading `https://`s, is `https:/`: there the
/// added `/` completes one more `https://`.
pub proof fn lemma_issuer_ignores_trailing_slash(domain: Seq<char>)
    requires
        trim_start_pattern(domain, "https://"@) != "https:/"@,
    ensures
        issuer_of(domain + "/"@) == issuer_of(domain),
{
    reveal_strlit("https://");
    reveal_strlit("https:/");
    reveal_strlit("/");
    let p = "https://"@;
    let t = trim_start_pattern(domain, p);
    lemma_trim_start_pattern(domain, p);
    if has_prefix(t.push('/'), p) {
        if t.len() >= p.len() {
            assert(t.subrange(0, p.len() as int) =~= t.push('/').subrange(0, p.len() as int));
        } else {
            assert(t.len() + 1 == p.len());
            assert(t =~= "https:/"@) by {
                assert forall|i: int| 0 <= i < t.len() implies t[i] == "https:/"@[i] by {
                    assert(t.push('/')[i] == t.push('/').subrange(0, p.len() as int)[i]);
                }
            }
        }
    }
    lemma_trim_start_pattern_push(domain, p, '/');
    assert(domain + "/"@ =~= domain.push('/'));
    lemma_trim_end_char_push(t, '/');
}

/// The issuer is `https://`, then the host, then one `/`: the host does not
/// start with `https://`, and does not end in `/`, so an issuer with a host
/// never ends in `//`.
pub proof fn lemma_issuer_shape(domain: Seq<char>)
    ensures
        ({
            let iss = issuer_of(domain);
            let host = iss.subrange(8, iss.len() - 1);
            &&& iss.len() >= 9
            &&& has_prefix(iss, "https://"@)
            &&& iss.last() == '/'
            &&& !has_prefix(host, "https://"@)
            &&& host.len() == 0 || host.last() != '/'
            &&& iss.len() > 9 ==> iss[iss.len() - 2] != '/'
        }),
{
    reveal_strlit("https://");
    reveal_strlit("/");
    let p = "https://"@;
    let t = trim_start_pattern(domain, p);
    let h = trim_end_char(t, '/');
    lemma_trim_start_pattern(domain, p);
    lemma_trim_end_char(t, '/');
    let iss = issuer_of(domain);
    assert(iss =~= p + h + "/"@);
    assert(iss.subrange(0, 8) =~= p);
    assert(iss.subrange(8, iss.len() - 1) =~= h);
    if has_prefix(h, p) {
        assert(t.subrange(0, 8) =~= h.subrange(0, 8));
    }
    if iss.len() > 9 {
        assert(iss[iss.len() - 2] == h.last());
    }
}

/// The bearer token of an `Authorization` header value, if it has one.
pub open spec fn bearer_of(header: Option<Seq<char>>) -> Option<Seq<char>> {
    match header {
        Some(h) => if has_prefix(h, "Bearer "@) {
            Some(h.subrange("Bearer "@.len() as int, h.len() as int))
        } else {
            None
        },
        None => None,
    }
}

/// The text of an optional string slice.
pub open spec fn opt_str_text(o: Option<&str>) -> Option<Seq<char>> {
    match o {
        Some(s) => Some(s@),
        None => None,
    }
}

/// Extract the bearer token from the `Authorization` header value, if any.
pub fn bearer_token(authorization: Option<&str>) -> (r: Option<String>)
    ensures
        opt_text(r) == bearer_of(opt_str_text(authorization)),
{
    match authorization {
        Some(h) => strip_prefix(h, "Bearer "),
        None => None,
    }
}

/// The Auth0 claims the API reads from a validated token.
#[derive(Clone, Debug)]
pub struct Auth0Claims {
    pub sub: String,
    pub email: Option<String>,
    pub exp: u64,
    pub iss: String,
}

/// The claims of a decoded and validated token; a token that failed to
/// decode or validate is answered with an Auth0 error.
pub fn claims_from_decoded(decoded: Result<Auth0Claims, String>) -> (r: Result<Auth0Claims, ApiError>)
    ensures
        decoded matches Ok(c) ==> r == Ok::<Auth0Claims, ApiError>(c),
        decoded matches Err(m) ==> (r matches Err(e) && auth0_error_with(e, "Invalid token: "@ + m@)),
{
    match decoded {
        Ok(c) => Ok(c),
        Err(m) => {
            let mut msg = String::from_str("Invalid token: ");
            msg.append(m.as_str());
            Err(ApiError::Auth0ClientError(msg))
        },
    }
}

/// The email of the claims: the email claim when present and not empty,
/// else `<sub>@auth0.local`.
pub open spec fn email_of(claims: Auth0Claims) -> Seq<char> {
    match claims.email {
        Some(e) => if e@.len() > 0 {
            e@
        } else {
            claims.sub@ + "@auth0.local"@
        },
        None => claims.sub@ + "@auth0.local"@,
    }
}

/// Extract the email from the claims (Auth0 may leave it out).
pub fn email_from_claims(claims: &Auth0Claims) -> (r: String)
    ensures
        r@ == email_of(*claims),
{
    if let Some(e) = &claims.email {
        if e.as_str().unicode_len() > 0 {
            return e.clone();
        }
    }
    let mut email = claims.sub.clone();
    email.append("@auth0.local");
    email
}

/// The answer of `GET /api/auth/me`.
#[derive(Clone, Debug)]
pub struct AuthMeResponse {
    pub sub: String,
    pub email: String,
    pub is_admin: bool,
}

impl AuthMeResponse {
    /// The answer for a signed-in user.
    pub fn from_user(user: UserDoc) -> (r: Self)
        ensures
            r.sub == user.auth0_sub,
            r.email == user.email,
            r.is_admin == user.is_admin,
    {
        AuthMeResponse { sub: user.auth0_sub, email: user.email, is_admin: user.is_admin }
    }
}

/// Auth0 sign-in goes on only when the key set cache (however it is shared)
/// is configured;
/// otherwise the request is answered `Bad request: Auth0 not configured`.
pub fn require_jwks<C>(jwks: Option<&C>) -> (r: Result<&C, ApiError>)
    ensures
        jwks matches Some(c) ==> r == Ok::<&C, ApiError>(c),
        jwks is None ==> (r matches Err(e) && bad_request_with(e, "Auth0 not configured"@)),
{
    match jwks {
        Some(c) => Ok(c),
        None => Err(ApiError::BadRequest(String::from_str("Auth0 not configured"))),
    }
}

/// A request without a bearer token is answered `Invalid credentials`.
pub fn require_token(token: Option<String>) -> (r: Result<String, ApiError>)
    ensures
        token matches Some(t) ==> r == Ok::<String, ApiError>(t),
        token is None ==> r matches Err(ApiError::InvalidCredentials),
{
    match token {
        Some(t) => Ok(t),
        None => Err(ApiError::InvalidCredentials),
    }
}

/// The checks of a sign-in request before its token is validated, in order:
/// the key set cache is configured, the Auth0 settings are complete, and the
/// request carries a bearer token. On success: the cache, the accepted
/// audiences, the issuer tokens must carry, and the token.
pub fn auth_request<C>(
    jwks: Option<&C>,
    domain: Option<String>,
    audience: Option<String>,
    client_id: Option<String>,
    authorization: Option<String>,
) -> (r: Result<(&C, Vec<String>, String, String), ApiError>)
    ensures
        jwks is None ==> (r matches Err(e) && bad_request_with(e, "Auth0 not configured"@)),
        jwks is Some && domain is None ==> (r matches Err(e) && bad_request_with(
            e,
            "AUTH0_DOMAIN must be set"@,
        )),
        jwks is Some && domain is Some && audiences_of(audience, client_id).len() == 0 ==> (r matches Err(e)
            && bad_request_with(e, "AUTH0_AUDIENCE or AUTH0_CLIENT_ID must be set for Auth0 login"@)),
        jwks is Some && domain is Some && audiences_of(audience, client_id).len() > 0 && bearer_of(
            opt_text(authorization),
        ) is None ==> r matches Err(ApiError::InvalidCredentials),
        jwks is Some && domain is Some && audiences_of(audience, client_id).len() > 0 && bearer_of(
            opt_text(authorization),
        ) is Some ==> (r matches Ok(req) && req.0 == jwks->0 && texts(req.1@) == audiences_of(
            audience,
            client_id,
        ) && req.2@ == issuer_of(domain->0@) && req.3@ == bearer_of(opt_text(authorization))->0),
{
    let cache = require_jwks(jwks)?;
    let (domain, audiences) = auth0_config(domain, audience, client_id)?;
    let issuer = issuer_for_domain(domain.as_str());
    let bearer = match &authorization {
        Some(h) => bearer_token(Some(h.as_str())),
        None => bearer_token(None),
    };
    let token = require_token(bearer)?;
    Ok((cache, audiences, issuer, token))
}

} // verus!
