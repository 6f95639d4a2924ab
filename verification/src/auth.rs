//! Authentication: API keys (their shape, their stored hash), the errors of
//! authentication, the claims of a session token, and how an
//! `Authorization` header is read.
use vstd::prelude::*;
use vstd::utf8::{encode_utf8, is_ascii_chars};
use sha2::Digest;
use crate::json::{
    string_eq, chars_of, string_of, Json, JsonNumber, JsonV, NumV, json_view, obj_insert,
    obj_get, lemma_obj_insert_get, empty_obj, jget, to_serde,
    from_serde,
};
use crate::text::{starts_with, has_prefix, concat, drop_chars};

verus! {

broadcast use vstd::utf8::is_ascii_chars_encode_utf8;

// ---------------------------------------------------------------------------
// Outside functions.

/// The SHA-256 digest of some bytes.
pub uninterp spec fn sha256(data: Seq<u8>) -> Seq<u8>;

/// `sha2::Sha256::digest`: the SHA-256 digest of the bytes, which is
/// 32 bytes long. The digest itself is named, not stated.
#[verifier::external_body]
fn sha256_bytes(data: &[u8]) -> (r: Vec<u8>)
    ensures
        r@ == sha256(data@),
        r@.len() == 32,
{
    sha2::Sha256::digest(data).to_vec()
}

/// The lower-case hexadecimal digit of a number below 16.
pub open spec fn hex_digit(n: u8) -> char {
    if n < 10 {
        (('0' as u8) + n) as char
    } else {
        (('a' as u8) + (n - 10)) as char
    }
}

/// Bytes in lower-case hexadecimal: two digits per byte, high nibble first.
pub open spec fn hex_lower(data: Seq<u8>) -> Seq<char>
    decreases data.len(),
{
    if data.len() == 0 {
        Seq::empty()
    } else {
        hex_lower(data.drop_last()).push(hex_digit(data.last() / 16)).push(
            hex_digit(data.last() % 16),
        )
    }
}

/// The lower-case hexadecimal digit of a number below 16.
fn hex_char(n: u8) -> (c: char)
    requires
        n < 16,
    ensures
        c == hex_digit(n),
{
    if n < 10 {
        (48u8 + n) as char
    } else {
        (97u8 + (n - 10)) as char
    }
}

/// Each byte as two lower-case hexadecimal digits, as `hex::encode` writes
/// them.
fn hex_encode(data: &[u8]) -> (r: String)
    ensures
        r@ == hex_lower(data@),
{
    let mut out: Vec<char> = Vec::new();
    let n = data.len();
    let mut i: usize = 0;
    assert(data@.take(0) =~= Seq::<u8>::empty());
    while i < n
        invariant
            n == data@.len(),
            i <= n,
            out@ == hex_lower(data@.take(i as int)),
        decreases n - i,
    {
        let b = data[i];
        assert(data@.take(i + 1).drop_last() =~= data@.take(i as int));
        assert(data@.take(i + 1).last() == b);
        out.push(hex_char(b / 16));
        out.push(hex_char(b % 16));
        i = i + 1;
    }
    assert(data@.take(n as int) =~= data@);
    string_of(out.as_slice())
}

/// A hyphenated lower-case UUID text: 36 characters, hyphens at positions
/// 8, 13, 18 and 23, lower-case hexadecimal digits elsewhere.
pub open spec fn uuid_shaped(s: Seq<char>) -> bool {
    &&& s.len() == 36
    &&& forall|i: int|
        0 <= i < 36 ==> if i == 8 || i == 13 || i == 18 || i == 23 {
            s[i] == '-'
        } else {
            ('0' <= #[trigger] s[i] <= '9') || ('a' <= s[i] <= 'f')
        }
}

/// `uuid::Uuid::new_v4` written with `to_string`: a random UUID in its
/// hyphenated lower-case form. Which UUID comes is left open.
#[verifier::external_body]
fn random_uuid_text() -> (r: String)
    ensures
        uuid_shaped(r@),
{
    uuid::Uuid::new_v4().to_string()
}

// ---------------------------------------------------------------------------
// API keys.

/// The text without any occurrence of `c`.
pub open spec fn without_char(s: Seq<char>, c: char) -> Seq<char>
    decreases s.len(),
{
    if s.len() == 0 {
        s
    } else if s.last() == c {
        without_char(s.drop_last(), c)
    } else {
        without_char(s.drop_last(), c).push(s.last())
    }
}

/// Is a text shaped like an API key: `fm_` first, and more than ten bytes?
pub open spec fn key_format_ok(key: Seq<char>) -> bool {
    starts_with(key, "fm_"@) && encode_utf8(key).len() > 10
}

/// The hash stored for an API key: SHA-256 of its UTF-8 bytes, in hex.
pub open spec fn key_hash(key: Seq<char>) -> Seq<char> {
    hex_lower(sha256(encode_utf8(key)))
}

/// Does a key match the hash stored for a key?
pub open spec fn verifies(key: Seq<char>, stored: Seq<char>) -> bool {
    key_hash(key) == stored
}

/// Hex text has two digits per byte.
proof fn lemma_hex_lower_len(data: Seq<u8>)
    ensures
        hex_lower(data).len() == 2 * data.len(),
    decreases data.len(),
{
    if data.len() > 0 {
        lemma_hex_lower_len(data.drop_last());
    }
}

/// Creates, hashes and checks API keys.
pub struct ApiKeyService;

/// The text without its hyphens.
fn remove_hyphens(s: &str) -> (r: String)
    ensures
        r@ == without_char(s@, '-'),
{
    let cs = chars_of(s);
    let mut out: Vec<char> = Vec::new();
    let n = cs.len();
    let mut i: usize = 0;
    assert(cs@.take(0) =~= Seq::<char>::empty());
    while i < n
        invariant
            n == cs@.len(),
            cs@ == s@,
            i <= n,
            out@ == without_char(cs@.take(i as int), '-'),
        decreases n - i,
    {
        proof {
            assert(cs@.take(i + 1).drop_last() =~= cs@.take(i as int));
            assert(cs@.take(i + 1).last() == cs@[i as int]);
        }
        let c = cs[i];
        if c != '-' {
            out.push(c);
        }
        i = i + 1;
    }
    assert(cs@.take(n as int) =~= cs@);
    string_of(out.as_slice())
}

/// A UUID text without its hyphens is 32 lower-case hexadecimal digits.
proof fn lemma_uuid_without_hyphens(u: Seq<char>)
    requires
        uuid_shaped(u),
    ensures
        without_char(u, '-').len() == 32,
        is_ascii_chars(without_char(u, '-')),
{
    lemma_without_char_prefix(u, 36);
    assert(u.take(36) =~= u);
}

/// Counting over a prefix of a UUID text.
proof fn lemma_without_char_prefix(u: Seq<char>, k: int)
    requires
        uuid_shaped(u),
        0 <= k <= 36,
    ensures
        without_char(u.take(k), '-').len() == k - (if k > 23 {
            4int
        } else if k > 18 {
            3int
        } else if k > 13 {
            2int
        } else if k > 8 {
            1int
        } else {
            0int
        }),
        is_ascii_chars(without_char(u.take(k), '-')),
    decreases k,
{
    if k > 0 {
        lemma_without_char_prefix(u, k - 1);
        assert(u.take(k).drop_last() =~= u.take(k - 1));
        assert(u.take(k).last() == u[k - 1]);
        let w = without_char(u.take(k - 1), '-');
        if u[k - 1] != '-' {
            assert forall|i: int| 0 <= i < w.push(u[k - 1]).len() implies '\0' <= #[trigger] w.push(
                u[k - 1],
            )[i] <= '\u{7f}' by {
                if i < w.len() {
                    assert(w.push(u[k - 1])[i] == w[i]);
                }
            }
        }
    } else {
        assert(u.take(0) =~= Seq::<char>::empty());
    }
}

impl ApiKeyService {
    /// A new random API key: `fm_` and the 32 hexadecimal digits of a
    /// random UUID.
    pub fn generate() -> (key: String)
        ensures
            exists|u: Seq<char>| uuid_shaped(u) && key@ == "fm_"@ + without_char(u, '-'),
            key@.len() == 35,
            key_format_ok(key@),
    {
        let u = random_uuid_text();
        let digits = remove_hyphens(u.as_str());
        let key = concat("fm_", digits.as_str());
        proof {
            reveal_strlit("fm_");
            lemma_uuid_without_hyphens(u@);
            assert(key@.take(3) =~= "fm_"@);
            assert(is_ascii_chars("fm_"@));
            assert(is_ascii_chars(key@)) by {
                assert forall|i: int| 0 <= i < key@.len() implies '\0' <= #[trigger] key@[i]
                    <= '\u{7f}' by {
                    if i >= 3 {
                        assert(key@[i] == digits@[i - 3]);
                    }
                }
            }
        }
        key
    }

    /// The hash stored for a key: SHA-256 of its bytes, in lower-case hex,
    /// 64 digits.
    pub fn hash(key: &str) -> (h: String)
        ensures
            h@ == key_hash(key@),
            h@.len() == 64,
    {
        let digest = sha256_bytes(key.as_bytes());
        proof {
            lemma_hex_lower_len(digest@);
        }
        hex_encode(digest.as_slice())
    }

    /// Does the key hash to the stored hash?
    pub fn verify(key: &str, hash: &str) -> (r: bool)
        ensures
            r == verifies(key@, hash@),
    {
        let h = ApiKeyService::hash(key);
        string_eq(h.as_str(), hash)
    }

    /// Is the key shaped like one: `fm_` first and more than ten bytes long?
    pub fn validate_format(key: &str) -> (r: bool)
        ensures
            r == key_format_ok(key@),
    {
        has_prefix(key, "fm_") && key.as_bytes().len() > 10
    }
}

// ---------------------------------------------------------------------------
// Errors and sessions.

/// Why authentication failed.
#[derive(Debug)]
pub enum AuthError {
    InvalidToken,
    TokenExpired,
    Unauthorized,
    InvalidApiKey,
    UserNotFound,
    InvalidCredentials,
    DatabaseError(String),
}

/// The text of an authentication error.
pub open spec fn auth_err_text(e: AuthError) -> Seq<char> {
    match e {
        AuthError::InvalidToken => "Invalid token"@,
        AuthError::TokenExpired => "Token expired"@,
        AuthError::Unauthorized => "Unauthorized"@,
        AuthError::InvalidApiKey => "Invalid API key"@,
        AuthError::UserNotFound => "User not found"@,
        AuthError::InvalidCredentials => "Invalid credentials"@,
        AuthError::DatabaseError(s) => "Database error: "@ + s@,
    }
}

impl AuthError {
    /// The text of the error.
    pub fn message(&self) -> (s: String)
        ensures
            s@ == auth_err_text(*self),
    {
        match self {
            AuthError::InvalidToken => "Invalid token".to_owned(),
            AuthError::TokenExpired => "Token expired".to_owned(),
            AuthError::Unauthorized => "Unauthorized".to_owned(),
            AuthError::InvalidApiKey => "Invalid API key".to_owned(),
            AuthError::UserNotFound => "User not found".to_owned(),
            AuthError::InvalidCredentials => "Invalid credentials".to_owned(),
            AuthError::DatabaseError(s) => concat("Database error: ", s.as_str()),
        }
    }

    /// The error for a token that did not verify: expired, or invalid for
    /// any other reason.
    pub fn from_token_failure(expired: bool) -> (e: AuthError)
        ensures
            e == if expired {
                AuthError::TokenExpired
            } else {
                AuthError::InvalidToken
            },
    {
        if expired {
            AuthError::TokenExpired
        } else {
            AuthError::InvalidToken
        }
    }
}

/// Who a request acts for.
#[derive(Debug, Clone)]
pub struct AuthContext {
    pub user_id: String,
    pub email: String,
}

/// The claims of a session token. Times are seconds since the Unix epoch.
#[derive(Debug, Clone)]
pub struct Claims {
    pub sub: String,
    pub email: String,
    pub exp: i64,
    pub iat: i64,
}

/// How long a session token lasts, in seconds: one day.
pub open spec fn token_lifetime() -> i64 {
    86400
}

/// The claims of a token issued at `now` for a user: it expires a day later.
pub fn token_claims(user_id: &str, email: &str, now: i64) -> (c: Claims)
    requires
        now + token_lifetime() <= i64::MAX,
    ensures
        c.sub@ == user_id@,
        c.email@ == email@,
        c.iat == now,
        c.exp == now + token_lifetime(),
{
    Claims { sub: user_id.to_owned(), email: email.to_owned(), exp: now + 86400, iat: now }
}

/// Who the claims of a verified token act for.
pub fn context_from_claims(claims: Claims) -> (a: AuthContext)
    ensures
        a.user_id == claims.sub,
        a.email == claims.email,
{
    AuthContext { user_id: claims.sub, email: claims.email }
}

// ---------------------------------------------------------------------------
// Session tokens.

/// The HS256 token that `jsonwebtoken::encode` makes of a payload with a
/// secret, under the default header.
pub uninterp spec fn hs256_token(payload: JsonV, secret: Seq<u8>) -> Seq<char>;

/// The payload of a token as `jsonwebtoken::decode` reads it with the
/// secret and the default validation, its time and audience checks left
/// out: the token's parts, its header's algorithm (HS256), its signature,
/// its JSON and its `exp` claim are checked; `None` when one fails.
pub uninterp spec fn jwt_payload(token: Seq<char>, secret: Seq<u8>) -> Option<JsonV>;

/// A payload of session claims: the texts `sub` and `email`, a
/// non-negative `exp` and an `iat`, both in the range of `i64`.
pub open spec fn is_claims_payload(p: JsonV) -> bool {
    exists|sub: Seq<char>, email: Seq<char>, exp: int, iat: int|
        0 <= exp <= i64::MAX && i64::MIN <= iat <= i64::MAX && p == #[trigger] claims_json(
            sub,
            email,
            exp,
            iat,
        )
}

/// `jsonwebtoken::encode` with the default header (HS256) and the secret as
/// key, on the payload in serde_json's form. It succeeds: the key's family
/// is the header's (HMAC) and a serde_json value always serialises. The
/// token is named; decoding a token of session claims with the same secret
/// (its signature, its JSON and its `exp` claim all check) gives the
/// claims back, as serde_json reads back what it wrote.
#[verifier::external_body]
fn jwt_encode(payload: &Json, secret: &[u8]) -> (r: Option<String>)
    ensures
        r is Some,
        r matches Some(t) ==> t@ == hs256_token(payload@, secret@),
        r matches Some(t) ==> (is_claims_payload(payload@) ==> jwt_payload(t@, secret@) == Some(
            payload@,
        )),
{
    let key = jsonwebtoken::EncodingKey::from_secret(secret);
    jsonwebtoken::encode(&jsonwebtoken::Header::default(), &to_serde(payload), &key).ok()
}

/// `jsonwebtoken::decode` into a serde_json value with the secret as key and
/// the default validation without its `exp` and `aud` checks, the claims
/// read into the library's form. The payload is named.
#[verifier::external_body]
fn jwt_decode(token: &str, secret: &[u8]) -> (r: Option<Json>)
    ensures
        match r {
            Some(p) => jwt_payload(token@, secret@) == Some(p@),
            None => jwt_payload(token@, secret@) is None,
        },
{
    let mut validation = jsonwebtoken::Validation::default();
    validation.validate_exp = false;
    validation.validate_aud = false;
    let key = jsonwebtoken::DecodingKey::from_secret(secret);
    jsonwebtoken::decode::<serde_json::Value>(token, &key, &validation).ok().map(|d| from_serde(&d.claims, 200))
}

/// `jsonwebtoken::get_current_timestamp`: seconds since the Unix epoch, as
/// the clock gives them. Nothing is stated of it.
#[verifier::external_body]
fn current_timestamp() -> u64 {
    jsonwebtoken::get_current_timestamp()
}

/// The payload that carries the claims.
pub open spec fn claims_json(sub: Seq<char>, email: Seq<char>, exp: int, iat: int) -> JsonV {
    empty_obj().entry("sub"@, JsonV::Str(sub)).entry("email"@, JsonV::Str(email)).entry(
        "exp"@,
        JsonV::Num(NumV::Int(exp)),
    ).entry("iat"@, JsonV::Num(NumV::Int(iat)))
}

/// An integer in the range of `i64`.
pub open spec fn i64_of(v: Option<JsonV>) -> Option<i64> {
    match v {
        Some(JsonV::Num(NumV::Int(n))) => if i64::MIN <= n <= i64::MAX {
            Some(n as i64)
        } else {
            None
        },
        _ => None,
    }
}

/// The text of a string value.
pub open spec fn text_of(v: Option<JsonV>) -> Option<Seq<char>> {
    match v {
        Some(JsonV::Str(t)) => Some(t),
        _ => None,
    }
}

/// The claims a payload holds, when it is an object with the text fields
/// `sub` and `email` and the `i64` fields `exp` and `iat` (other fields are
/// ignored).
pub open spec fn claims_in(p: JsonV) -> Option<(Seq<char>, Seq<char>, i64, i64)> {
    match (text_of(jget(p, "sub"@)), text_of(jget(p, "email"@)), i64_of(jget(p, "exp"@)), i64_of(
        jget(p, "iat"@),
    )) {
        (Some(s), Some(e), Some(x), Some(i)) => if p is Obj {
            Some((s, e, x, i))
        } else {
            None
        },
        _ => None,
    }
}

/// Does the payload carry an audience (a text, or an array of texts)? The
/// default validation refuses one, as no audience is expected.
pub open spec fn has_audience(p: JsonV) -> bool {
    match jget(p, "aud"@) {
        Some(JsonV::Str(_)) => true,
        Some(JsonV::Arr(items)) => forall|i: int| 0 <= i < items.len() ==> #[trigger] items[i] is Str,
        _ => false,
    }
}

/// How checking a token ends.
pub enum TokenVerdict {
    Valid(Seq<char>, Seq<char>, i64, i64),
    Expired,
    Invalid,
}

/// The verdict on a token whose payload reads as given, at `now` (seconds
/// since the epoch): unreadable payloads and payloads without the claims
/// are invalid; a token whose `exp` lies more than a minute (the leeway)
/// before `now` has expired; one that names an audience is invalid.
pub open spec fn token_verdict(p: Option<JsonV>, now: u64) -> TokenVerdict {
    match p {
        None => TokenVerdict::Invalid,
        Some(p) => match claims_in(p) {
            None => TokenVerdict::Invalid,
            Some((s, e, x, i)) => if x < 0 {
                TokenVerdict::Invalid
            } else if x + 60 < now {
                TokenVerdict::Expired
            } else if has_audience(p) {
                TokenVerdict::Invalid
            } else {
                TokenVerdict::Valid(s, e, x, i)
            },
        },
    }
}

/// The verdict a result gives.
pub open spec fn verdict_of(r: Result<Claims, AuthError>) -> TokenVerdict {
    match r {
        Ok(c) => TokenVerdict::Valid(c.sub@, c.email@, c.exp, c.iat),
        Err(AuthError::TokenExpired) => TokenVerdict::Expired,
        Err(_) => TokenVerdict::Invalid,
    }
}

/// The payload of the claims.
fn claims_payload(c: &Claims) -> (p: Json)
    ensures
        p@ == claims_json(c.sub@, c.email@, c.exp as int, c.iat as int),
{
    let exp = if c.exp >= 0 {
        JsonNumber::PosInt(c.exp as u64)
    } else {
        JsonNumber::NegInt(c.exp)
    };
    let iat = if c.iat >= 0 {
        JsonNumber::PosInt(c.iat as u64)
    } else {
        JsonNumber::NegInt(c.iat)
    };
    Json::empty_object().entry("sub", Json::from_str(c.sub.as_str())).entry(
        "email",
        Json::from_str(c.email.as_str()),
    ).entry("exp", Json::Number(exp)).entry("iat", Json::Number(iat))
}

/// An `i64` field of an object.
fn i64_field(p: &Json, k: &str) -> (r: Option<i64>)
    ensures
        r == i64_of(jget(p@, k@)),
{
    match p.get(k) {
        Some(Json::Number(JsonNumber::PosInt(u))) => if *u <= i64::MAX as u64 {
            Some(*u as i64)
        } else {
            None
        },
        Some(Json::Number(JsonNumber::NegInt(i))) => Some(*i),
        _ => None,
    }
}

/// A text field of an object.
fn text_field(p: &Json, k: &str) -> (r: Option<String>)
    ensures
        match r {
            Some(t) => text_of(jget(p@, k@)) == Some(t@),
            None => text_of(jget(p@, k@)) is None,
        },
{
    match p.get(k) {
        Some(Json::String(t)) => Some(t.clone()),
        _ => None,
    }
}

/// Does the payload carry an audience?
fn audience_present(p: &Json) -> (r: bool)
    ensures
        r == has_audience(p@),
{
    match p.get("aud") {
        Some(Json::String(_)) => true,
        Some(Json::Array(items)) => {
            proof {
                reveal_strlit("aud");
            }
            let ghost av = json_view(Json::Array(*items))->Arr_0;
            assert(jget(p@, "aud"@) == Some(JsonV::Arr(av)));
            let n = items.len();
            let mut i: usize = 0;
            while i < n
                invariant
                    n == items@.len(),
                    av.len() == n,
                    av == json_view(Json::Array(*items))->Arr_0,
                    jget(p@, "aud"@) == Some(JsonV::Arr(av)),
                    i <= n,
                    forall|j: int| 0 <= j < i ==> #[trigger] av[j] is Str,
                decreases n - i,
            {
                assert(av[i as int] == items@[i as int]@);
                match &items[i] {
                    Json::String(_) => {},
                    _ => {
                        assert(!(av[i as int] is Str));
                        return false;
                    },
                }
                i = i + 1;
            }
            true
        },
        _ => false,
    }
}

/// Issues and verifies session tokens signed with a shared secret.
pub struct JwtService {
    secret: Vec<u8>,
}

impl JwtService {
    /// The secret's bytes.
    pub closed spec fn secret(&self) -> Seq<u8> {
        self.secret@
    }

    /// A service with the secret's UTF-8 bytes as key.
    pub fn new(secret: String) -> (j: JwtService)
        ensures
            j.secret() == encode_utf8(secret@),
    {
        let b = secret.as_str().as_bytes();
        let mut v: Vec<u8> = Vec::new();
        let n = b.len();
        let mut i: usize = 0;
        while i < n
            invariant
                n == b@.len(),
                i <= n,
                v@ == b@.take(i as int),
            decreases n - i,
        {
            v.push(b[i]);
            assert(v@ =~= b@.take(i + 1));
            i = i + 1;
        }
        assert(b@.take(n as int) =~= b@);
        JwtService { secret: v }
    }

    /// A token for the user issued at `now` (seconds since the epoch),
    /// valid for a day; an encoding failure is an invalid token.
    pub fn generate_token(&self, user_id: &str, email: &str, now: i64) -> (r: Result<String, AuthError>)
        requires
            now + token_lifetime() <= i64::MAX,
        ensures
            r is Ok,
            r matches Ok(t) ==> t@ == hs256_token(
                claims_json(user_id@, email@, now + token_lifetime(), now as int),
                self.secret(),
            ),
            r matches Ok(t) ==> (now + token_lifetime() >= 0 ==> jwt_payload(t@, self.secret())
                == Some(claims_json(user_id@, email@, now + token_lifetime(), now as int))),
    {
        let claims = token_claims(user_id, email, now);
        let payload = claims_payload(&claims);
        proof {
            if now + token_lifetime() >= 0 {
                assert(payload@ == claims_json(claims.sub@, claims.email@, claims.exp as int, claims.iat as int));
                assert(is_claims_payload(payload@));
            }
        }
        match jwt_encode(&payload, self.secret.as_slice()) {
            Some(t) => Ok(t),
            None => Err(AuthError::InvalidToken),
        }
    }

    /// The claims of a token checked at `now` (seconds since the epoch).
    pub fn verify_token_at(&self, token: &str, now: u64) -> (r: Result<Claims, AuthError>)
        ensures
            verdict_of(r) == token_verdict(jwt_payload(token@, self.secret()), now),
            r matches Err(e) ==> (e == AuthError::InvalidToken || e == AuthError::TokenExpired),
    {
        let p = match jwt_decode(token, self.secret.as_slice()) {
            Some(p) => p,
            None => return Err(AuthError::InvalidToken),
        };
        let sub = match text_field(&p, "sub") {
            Some(t) => t,
            None => return Err(AuthError::InvalidToken),
        };
        let email = match text_field(&p, "email") {
            Some(t) => t,
            None => return Err(AuthError::InvalidToken),
        };
        let exp = match i64_field(&p, "exp") {
            Some(x) => x,
            None => return Err(AuthError::InvalidToken),
        };
        let iat = match i64_field(&p, "iat") {
            Some(x) => x,
            None => return Err(AuthError::InvalidToken),
        };
        if !p.is_object() || exp < 0 {
            return Err(AuthError::InvalidToken);
        }
        if (exp as u64) < now && now - (exp as u64) > 60 {
            return Err(AuthError::TokenExpired);
        }
        if audience_present(&p) {
            return Err(AuthError::InvalidToken);
        }
        Ok(Claims { sub, email, exp, iat })
    }

    /// The claims of a token checked now, by the clock.
    pub fn verify_token(&self, token: &str) -> (r: Result<Claims, AuthError>)
        ensures
            exists|now: u64| verdict_of(r) == token_verdict(jwt_payload(token@, self.secret()), now),
            r matches Err(e) ==> (e == AuthError::InvalidToken || e == AuthError::TokenExpired),
    {
        let now = current_timestamp();
        self.verify_token_at(token, now)
    }
}

/// The credential an `Authorization` header carries.
#[derive(Debug)]
pub enum Credential {
    /// `Bearer <token>`: a session token, or else an API key.
    Bearer(String),
    /// `ApiKey <key>`.
    ApiKey(String),
}

/// The credential a header carries, if it has a known scheme.
pub open spec fn credential_of(header: Seq<char>) -> Option<(bool, Seq<char>)> {
    if starts_with(header, "Bearer "@) {
        Some((true, header.skip(7)))
    } else if starts_with(header, "ApiKey "@) {
        Some((false, header.skip(7)))
    } else {
        None
    }
}

/// Reads the credential of an `Authorization` header; a missing header or an
/// unknown scheme is unauthorized.
pub fn parse_authorization(header: Option<&str>) -> (r: Result<Credential, AuthError>)
    ensures
        match header {
            None => r matches Err(AuthError::Unauthorized),
            Some(h) => match (credential_of(h@), r) {
                (Some((true, t)), Ok(Credential::Bearer(s))) => s@ == t,
                (Some((false, t)), Ok(Credential::ApiKey(s))) => s@ == t,
                (None, Err(AuthError::Unauthorized)) => true,
                _ => false,
            },
        },
{
    proof {
        reveal_strlit("Bearer ");
        reveal_strlit("ApiKey ");
    }
    let h = match header {
        Some(h) => h,
        None => return Err(AuthError::Unauthorized),
    };
    if has_prefix(h, "Bearer ") {
        Ok(Credential::Bearer(drop_chars(h, 7)))
    } else if has_prefix(h, "ApiKey ") {
        Ok(Credential::ApiKey(drop_chars(h, 7)))
    } else {
        Err(AuthError::Unauthorized)
    }
}

/// May an API key be checked against the stored keys? Only when a key
/// checker is available and the key is shaped like one.
pub fn api_key_admissible(key: &str, has_checker: bool) -> (r: Result<(), AuthError>)
    ensures
        r is Ok <==> (has_checker && key_format_ok(key@)),
        r matches Err(e) ==> e == AuthError::Unauthorized,
{
    if !has_checker {
        return Err(AuthError::Unauthorized);
    }
    if !ApiKeyService::validate_format(key) {
        return Err(AuthError::Unauthorized);
    }
    Ok(())
}

// ---------------------------------------------------------------------------
// Laws.

/// A key verifies against the hash the service stores for it, and against
/// no other text.
pub proof fn lemma_verify_own_hash(key: Seq<char>, stored: Seq<char>)
    ensures
        verifies(key, key_hash(key)),
        stored != key_hash(key) ==> !verifies(key, stored),
{
}

/// Every generated key is shaped like a key.
pub proof fn lemma_generated_keys_valid(u: Seq<char>)
    requires
        uuid_shaped(u),
    ensures
        key_format_ok("fm_"@ + without_char(u, '-')),
{
    let key = "fm_"@ + without_char(u, '-');
    reveal_strlit("fm_");
    lemma_uuid_without_hyphens(u);
    assert(key.take(3) =~= "fm_"@);
    assert(is_ascii_chars(key)) by {
        assert forall|i: int| 0 <= i < key.len() implies '\0' <= #[trigger] key[i] <= '\u{7f}' by {
            if i >= 3 {
                assert(key[i] == without_char(u, '-')[i - 3]);
            }
        }
    }
}

/// A token issued for a user at `now` reads back to its claims: checked
/// at any time up to a day and a minute later (the lifetime and the
/// leeway), it is valid and carries the user, the email, `exp` a day after
/// `now` and `iat` at `now`.
pub proof fn lemma_token_round_trip(sub: Seq<char>, email: Seq<char>, now: int, later: u64)
    requires
        0 <= now,
        now + token_lifetime() <= i64::MAX,
        later <= now + token_lifetime() + 60,
    ensures
        token_verdict(Some(claims_json(sub, email, now + token_lifetime(), now)), later)
            == TokenVerdict::Valid(sub, email, (now + token_lifetime()) as i64, now as i64),
{
    let x = now + token_lifetime();
    let p = claims_json(sub, email, x, now);
    reveal_strlit("sub");
    reveal_strlit("email");
    reveal_strlit("exp");
    reveal_strlit("iat");
    reveal_strlit("aud");
    let e0 = Seq::<(Seq<char>, JsonV)>::empty();
    let s1 = obj_insert(e0, "sub"@, JsonV::Str(sub));
    let s2 = obj_insert(s1, "email"@, JsonV::Str(email));
    let s3 = obj_insert(s2, "exp"@, JsonV::Num(NumV::Int(x)));
    let s4 = obj_insert(s3, "iat"@, JsonV::Num(NumV::Int(now)));
    assert(p == JsonV::Obj(s4));
    assert forall|k: Seq<char>| #![trigger obj_get(s4, k)] obj_get(s4, k) == (if k == "iat"@ {
        Some(JsonV::Num(NumV::Int(now)))
    } else if k == "exp"@ {
        Some(JsonV::Num(NumV::Int(x)))
    } else if k == "email"@ {
        Some(JsonV::Str(email))
    } else if k == "sub"@ {
        Some(JsonV::Str(sub))
    } else {
        None::<JsonV>
    }) by {
        lemma_obj_insert_get(s3, "iat"@, JsonV::Num(NumV::Int(now)), k);
        lemma_obj_insert_get(s2, "exp"@, JsonV::Num(NumV::Int(x)), k);
        lemma_obj_insert_get(s1, "email"@, JsonV::Str(email), k);
        lemma_obj_insert_get(e0, "sub"@, JsonV::Str(sub), k);
    }
    assert(obj_get(s4, "sub"@) == Some(JsonV::Str(sub)));
    assert(obj_get(s4, "email"@) == Some(JsonV::Str(email)));
    assert(obj_get(s4, "exp"@) == Some(JsonV::Num(NumV::Int(x))));
    assert(obj_get(s4, "iat"@) == Some(JsonV::Num(NumV::Int(now))));
    assert(obj_get(s4, "aud"@) is None);
}

} // verus!
