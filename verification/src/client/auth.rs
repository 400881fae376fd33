use vstd::prelude::*;
use vstd::string::StringSliceAdditionalSpecFns;

use crate::client::crypto::{
    base64_url_unpadded, ed25519_public_key, has_three_segments, is_base64_url_char, signed_jwt,
    ClaimsModel, DeviceKeypair, JwtClaims,
};
use crate::client::text::{decimal_digits, push_decimal_u64, string_of};
use crate::client::{is_request, Api, ApiRequest, Base, Client, ClientModel, Method};
use crate::error::Error;
use crate::models::auth::pin::PinResponse;
use crate::models::auth::token::NonceResponse;

verus! {

// ---------------------------------------------------------------------------
// Percent-encoding
// ---------------------------------------------------------------------------

/// The bytes left as they are: ASCII letters and digits, `-`, `.`, `_`, `~`.
pub open spec fn is_unreserved(b: u8) -> bool {
    ||| (48 <= b && b <= 57)
    ||| (65 <= b && b <= 90)
    ||| (97 <= b && b <= 122)
    ||| b == 45
    ||| b == 46
    ||| b == 95
    ||| b == 126
}

/// An uppercase hexadecimal digit.
pub open spec fn hex_upper(n: u8) -> char {
    if n < 10 { (48 + n) as char } else { (55 + n) as char }
}

pub open spec fn percent_encode_byte(b: u8) -> Seq<char> {
    if is_unreserved(b) {
        seq![b as char]
    } else {
        seq!['%', hex_upper(b / 16), hex_upper(b % 16)]
    }
}

pub open spec fn percent_encode(bytes: Seq<u8>) -> Seq<char>
    decreases bytes.len(),
{
    if bytes.len() == 0 {
        Seq::empty()
    } else {
        percent_encode_byte(bytes[0]) + percent_encode(bytes.drop_first())
    }
}

/// A string percent-encoded byte by byte of its UTF-8 form.
pub open spec fn url_encoded(s: Seq<char>) -> Seq<char> {
    percent_encode(vstd::utf8::encode_utf8(s))
}

/// Calls `urlencoding::encode`. Claimed (from its source and documentation):
/// every byte of the UTF-8 text except ASCII letters, digits, `-`, `.`, `_`
/// and `~` becomes `%` and two uppercase hexadecimal digits.
#[verifier::external_body]
fn url_encode(s: &str) -> (r: String)
    ensures
        r@ == url_encoded(s@),
{
    urlencoding::encode(s).into_owned()
}

// ---------------------------------------------------------------------------
// The clock
// ---------------------------------------------------------------------------

/// The last second that `chrono` can represent.
pub const MAX_UNIX_SECONDS: i64 = 8_210_266_876_799;

/// Calls `std::time::SystemTime::now` and its `duration_since` the Unix
/// epoch, in whole seconds; `None` when the clock reads before the epoch.
/// Nothing is claimed of the reading: it is the clock.
#[verifier::external_body]
fn system_seconds() -> Option<u64> {
    match std::time::SystemTime::now().duration_since(std::time::UNIX_EPOCH) {
        Ok(elapsed) => Some(elapsed.as_secs()),
        Err(_) => None,
    }
}

/// Calls `chrono::DateTime::<Utc>::from_timestamp(secs, 0)` and takes the
/// `timestamp` of the date it gives. Claimed (from its source and
/// documentation): every second from the Unix epoch to `MAX_UNIX_SECONDS`
/// (the last second of year 262142) gives a date, none after it does, and
/// a date's timestamp is the second it was made from. Not stated: where the
/// range ends before the epoch.
#[verifier::external_body]
fn utc_timestamp(secs: i64) -> (r: Option<i64>)
    ensures
        0 <= secs <= MAX_UNIX_SECONDS ==> r == Some(secs),
        secs > MAX_UNIX_SECONDS ==> r is None,
        r matches Some(t) ==> t == secs,
{
    match chrono::DateTime::<chrono::Utc>::from_timestamp(secs, 0) {
        Some(date) => Some(date.timestamp()),
        None => None,
    }
}

/// The Unix time of a clock reading (whole seconds since the epoch), when
/// both it and an hour later are dates that `chrono` can hold.
pub open spec fn usable_reading(reading: Option<u64>) -> Option<i64> {
    match reading {
        Some(s) => if s + 3600 <= MAX_UNIX_SECONDS {
            Some(s as i64)
        } else {
            None
        },
        None => None,
    }
}

/// The Unix time of a clock `reading` (`None`: the clock reads before the
/// epoch), as `chrono` takes it: `None` when the reading, or an hour after
/// it, is past the last date `chrono` can hold.
pub fn unix_seconds_from_reading(reading: Option<u64>) -> (r: Option<i64>)
    ensures
        r == usable_reading(reading),
{
    let secs = match reading {
        Some(s) => s,
        None => return None,
    };
    if secs > (i64::MAX as u64) - 3600 {
        return None;
    }
    let now = match utc_timestamp(secs as i64) {
        Some(t) => t,
        None => return None,
    };
    match utc_timestamp(now + 3600) {
        Some(_) => Some(now),
        None => None,
    }
}

/// The message of the error given when the clock has no usable reading.
pub open spec fn clock_error_message() -> Seq<char> {
    "system time before Unix epoch or out of range"@
}

/// The Unix time of the clock reading `reading`, or the error that says the
/// clock has no usable reading.
fn unix_now(reading: Option<u64>) -> (r: Result<i64, Error>)
    ensures
        match usable_reading(reading) {
            Some(t) => r == Ok::<i64, Error>(t),
            None => r matches Err(Error::Generic(m)) && m@ == clock_error_message(),
        },
        match r {
            Ok(t) => 0 <= t && t + 3600 <= MAX_UNIX_SECONDS,
            Err(e) => e matches Error::Generic(m) && m@ == clock_error_message(),
        },
{
    match unix_seconds_from_reading(reading) {
        Some(t) => Ok(t),
        None => Err(Error::Generic(string_of("system time before Unix epoch or out of range"))),
    }
}

// ---------------------------------------------------------------------------
// Requests of the PIN flow
// ---------------------------------------------------------------------------

/// A public key in JWK form.
#[derive(Debug)]
pub struct Jwk {
    pub kty: String,
    pub crv: String,
    pub x: String,
    pub kid: String,
    pub alg: String,
}

/// The body of a request for a linking PIN.
#[derive(Debug)]
pub struct PinRequest {
    pub jwk: Jwk,
    pub strong: bool,
}

impl DeviceKeypair {
    /// The public half of this key as an OKP/Ed25519 JWK.
    pub fn to_jwk(&self) -> (r: Jwk)
        ensures
            r.kty@ == "OKP"@,
            r.crv@ == "Ed25519"@,
            r.x@ == base64_url_unpadded(ed25519_public_key(self.secret_spec())),
            r.x@.len() == 43,
            r.kid@ == self.kid_spec(),
            r.alg@ == "EdDSA"@,
    {
        Jwk {
            kty: string_of("OKP"),
            crv: string_of("Ed25519"),
            x: self.public_key_b64(),
            kid: string_of(self.kid()),
            alg: string_of("EdDSA"),
        }
    }
}

/// The claims of a device JWT issued by `client_id` at `now`, valid for an
/// hour.
pub open spec fn device_claims(
    client_id: Seq<char>,
    now: int,
    nonce: Option<Seq<char>>,
    scope: Option<Seq<char>>,
) -> ClaimsModel {
    ClaimsModel {
        aud: "plex.tv"@,
        iss: client_id,
        iat: now,
        exp: now + 3600,
        nonce: nonce,
        scope: scope,
    }
}

/// The link to show the user so that the PIN gets approved: short (4
/// character) codes are typed in at plex.tv/link; other codes go to the
/// app's auth page with this client's id, its product and the page to
/// return to.
pub open spec fn auth_url_spec(
    client_id: Seq<char>,
    product: Option<Seq<char>>,
    code: Seq<char>,
    forward_url: Option<Seq<char>>,
) -> Seq<char> {
    if vstd::utf8::encode_utf8(code).len() == 4 {
        "https://plex.tv/link/?pin="@ + code
    } else {
        let product_param = match product {
            Some(p) => "&"@ + url_encoded("context[device][product]"@) + "="@ + url_encoded(p),
            None => Seq::empty(),
        };
        let forward_param = match forward_url {
            Some(f) => "&forwardUrl="@ + url_encoded(f),
            None => Seq::empty(),
        };
        "https://app.plex.tv/auth#?"@ + "clientID="@ + client_id + "&code="@ + code + product_param
            + forward_param
    }
}

pub open spec fn option_str_text(s: Option<&str>) -> Option<Seq<char>> {
    match s {
        Some(t) => Some(t@),
        None => None,
    }
}

/// The characters percent-encoding can produce: ASCII letters and digits,
/// `-`, `.`, `_`, `~` and `%`.
pub open spec fn is_url_safe_char(c: char) -> bool {
    ||| ('0' <= c && c <= '9')
    ||| ('A' <= c && c <= 'Z')
    ||| ('a' <= c && c <= 'z')
    ||| c == '-'
    ||| c == '.'
    ||| c == '_'
    ||| c == '~'
    ||| c == '%'
}

/// Percent-encoded text holds only URL-safe characters, so an encoded
/// parameter value can hold no `&`, `=`, `#` or `?` that would change the
/// meaning of the URL around it.
pub proof fn lemma_url_encoded_is_safe(s: Seq<char>)
    ensures
        forall|i: int| 0 <= i < url_encoded(s).len() ==> is_url_safe_char(#[trigger] url_encoded(s)[i]),
{
    lemma_percent_encode_is_safe(vstd::utf8::encode_utf8(s));
}

proof fn lemma_percent_encode_is_safe(bytes: Seq<u8>)
    ensures
        forall|i: int| 0 <= i < percent_encode(bytes).len() ==> is_url_safe_char(
            #[trigger] percent_encode(bytes)[i],
        ),
    decreases bytes.len(),
{
    if bytes.len() > 0 {
        lemma_percent_encode_is_safe(bytes.drop_first());
        let head = percent_encode_byte(bytes[0]);
        let tail = percent_encode(bytes.drop_first());
        assert(percent_encode(bytes) == head + tail);
        let b = bytes[0];
        assert forall|i: int| 0 <= i < head.len() implies is_url_safe_char(#[trigger] head[i]) by {
            if is_unreserved(b) {
                assert(head[i] == b as char);
            } else {
                assert(b / 16 < 16 && b % 16 < 16);
            }
        }
        assert forall|i: int| 0 <= i < percent_encode(bytes).len() implies is_url_safe_char(
            #[trigger] percent_encode(bytes)[i],
        ) by {
            if i < head.len() {
                assert(percent_encode(bytes)[i] == head[i]);
            } else {
                assert(percent_encode(bytes)[i] == tail[i - head.len()]);
            }
        }
    }
}

pub open spec fn is_unreserved_char(c: char) -> bool {
    ||| ('0' <= c && c <= '9')
    ||| ('A' <= c && c <= 'Z')
    ||| ('a' <= c && c <= 'z')
    ||| c == '-'
    ||| c == '.'
    ||| c == '_'
    ||| c == '~'
}

pub open spec fn byte_chars(bytes: Seq<u8>) -> Seq<char> {
    bytes.map_values(|b: u8| b as char)
}

proof fn lemma_percent_encode_unreserved(bytes: Seq<u8>)
    requires
        forall|i: int| 0 <= i < bytes.len() ==> is_unreserved(#[trigger] bytes[i]),
    ensures
        percent_encode(bytes) == byte_chars(bytes),
    decreases bytes.len(),
{
    if bytes.len() > 0 {
        lemma_percent_encode_unreserved(bytes.drop_first());
        assert(percent_encode(bytes) == seq![bytes[0] as char] + byte_chars(bytes.drop_first()));
        assert(byte_chars(bytes) == seq![bytes[0] as char] + byte_chars(bytes.drop_first()));
    } else {
        assert(byte_chars(bytes) == Seq::<char>::empty());
    }
}

/// Text made only of ASCII letters, digits, `-`, `.`, `_` and `~` is left
/// as it is by percent-encoding.
pub proof fn lemma_url_encoded_unreserved(s: Seq<char>)
    requires
        forall|i: int| 0 <= i < s.len() ==> is_unreserved_char(#[trigger] s[i]),
    ensures
        url_encoded(s) == s,
{
    assert(vstd::utf8::is_ascii_chars(s));
    vstd::utf8::is_ascii_chars_encode_utf8(s);
    let bytes = vstd::utf8::encode_utf8(s);
    assert forall|i: int| 0 <= i < bytes.len() implies is_unreserved(#[trigger] bytes[i]) by {
        assert(s[i] as u8 == bytes[i]);
    }
    lemma_percent_encode_unreserved(bytes);
    assert(byte_chars(bytes) =~= s) by {
        assert forall|i: int| 0 <= i < s.len() implies #[trigger] byte_chars(bytes)[i] == s[i] by {
            assert(s[i] as u8 == bytes[i]);
        }
    }
}

proof fn lemma_jws_chars_unreserved(s: Seq<char>)
    requires
        has_three_segments(s),
    ensures
        forall|k: int| 0 <= k < s.len() ==> is_unreserved_char(#[trigger] s[k]),
{
    let (i, j) = choose|i: int, j: int|
        {
            &&& 0 <= i < j < s.len()
            &&& #[trigger] s[i] == '.'
            &&& #[trigger] s[j] == '.'
            &&& forall|k: int|
                0 <= k < s.len() && k != i && k != j ==> is_base64_url_char(#[trigger] s[k])
        };
    assert forall|k: int| 0 <= k < s.len() implies is_unreserved_char(#[trigger] s[k]) by {
        if k != i && k != j {
            assert(is_base64_url_char(s[k]));
        }
    }
}

/// The path that polls PIN `pin_id`, authenticated by a signed device JWT.
pub open spec fn poll_pin_path_spec(pin_id: u64, jwt: Seq<char>) -> Seq<char> {
    "/api/v2/pins/"@ + decimal_digits(pin_id as nat) + "?deviceJWT="@ + url_encoded(jwt)
}

/// The body of a token request: a device JWT that signs a nonce.
#[derive(Debug)]
pub struct TokenRequest {
    pub jwt: String,
}

/// `r` is what polling PIN `pin_id` gives at the clock reading `reading`:
/// the GET that carries a device JWT issued at the reading and valid for an
/// hour, or the clock error when the reading is not usable.
pub open spec fn is_poll_pin_outcome(
    client: ClientModel,
    pin_id: u64,
    keypair: DeviceKeypair,
    reading: Option<u64>,
    r: Result<ApiRequest, Error>,
) -> bool {
    match usable_reading(reading) {
        Some(now) => r matches Ok(req) && is_request(
            req,
            client.token,
            Method::Get,
            Base::Clients,
            Api::Raw,
            poll_pin_path_spec(
                pin_id,
                signed_jwt(
                    keypair.secret_spec(),
                    keypair.kid_spec(),
                    device_claims(client.client_id, now as int, None, None),
                ),
            ),
            Seq::empty(),
        ),
        None => r matches Err(Error::Generic(m)) && m@ == clock_error_message(),
    }
}

/// `r` is what trading `nonce` for a token with `scope` gives at the clock
/// reading `reading`: the POST whose body holds a device JWT with the nonce
/// and scope, issued at the reading and valid for an hour, or the clock
/// error when the reading is not usable.
pub open spec fn is_refresh_token_outcome(
    client: ClientModel,
    keypair: DeviceKeypair,
    nonce: Seq<char>,
    scope: Seq<char>,
    reading: Option<u64>,
    r: Result<(ApiRequest, TokenRequest), Error>,
) -> bool {
    match usable_reading(reading) {
        Some(now) => r matches Ok(req) && is_request(
            req.0,
            client.token,
            Method::Post,
            Base::Clients,
            Api::Raw,
            "/api/v2/auth/token"@,
            Seq::empty(),
        ) && req.1.jwt@ == signed_jwt(
            keypair.secret_spec(),
            keypair.kid_spec(),
            device_claims(client.client_id, now as int, Some(nonce), Some(scope)),
        ),
        None => r matches Err(Error::Generic(m)) && m@ == clock_error_message(),
    }
}

/// `r` is the request for a linking PIN for `keypair`: a POST to
/// clients.plex.tv/api/v2/pins whose body holds the key as a JWK and the
/// `strong` flag.
pub open spec fn is_pin_request(
    r: (ApiRequest, PinRequest),
    client_token: Option<Seq<char>>,
    strong: bool,
    keypair: DeviceKeypair,
) -> bool {
    &&& is_request(r.0, client_token, Method::Post, Base::Clients, Api::Raw, "/api/v2/pins"@, Seq::empty())
    &&& r.1.strong == strong
    &&& r.1.jwk.kty@ == "OKP"@
    &&& r.1.jwk.crv@ == "Ed25519"@
    &&& r.1.jwk.x@ == base64_url_unpadded(ed25519_public_key(keypair.secret_spec()))
    &&& r.1.jwk.x@.len() == 43
    &&& r.1.jwk.kid@ == keypair.kid_spec()
    &&& r.1.jwk.alg@ == "EdDSA"@
}

impl Client {
    /// The request for a linking PIN for `keypair`, with its body.
    pub fn request_pin(&self, strong: bool, keypair: &DeviceKeypair) -> (r: (ApiRequest, PinRequest))
        ensures
            is_pin_request(r, self@.token, strong, *keypair),
    {
        let body = PinRequest { jwk: keypair.to_jwk(), strong };
        let request = self.request(Method::Post, Base::Clients, Api::Raw, "/api/v2/pins", Vec::new());
        (request, body)
    }

    /// The link at which the user approves `pin`.
    pub fn auth_url(&self, pin: &PinResponse, forward_url: Option<&str>) -> (r: String)
        ensures
            r@ == auth_url_spec(
                self@.client_id,
                self@.product,
                pin.code@,
                option_str_text(forward_url),
            ),
    {
        let code = pin.code.as_str();
        if code.as_bytes().len() == 4 {
            let mut url = string_of("https://plex.tv/link/?pin=");
            url.append(code);
            return url;
        }
        let mut url = string_of("https://app.plex.tv/auth#?");
        url.append("clientID=");
        url.append(self.client_id());
        url.append("&code=");
        url.append(code);
        if let Some(p) = self.product() {
            url.append("&");
            url.append(url_encode("context[device][product]").as_str());
            url.append("=");
            url.append(url_encode(p).as_str());
        }
        if let Some(forward) = forward_url {
            url.append("&forwardUrl=");
            url.append(url_encode(forward).as_str());
        }
        url
    }

    fn device_claims_at(&self, now: i64, nonce: Option<&str>, scope: Option<&str>) -> (r: JwtClaims)
        requires
            now <= i64::MAX - 3600,
        ensures
            r@ == device_claims(
                self@.client_id,
                now as int,
                option_str_text(nonce),
                option_str_text(scope),
            ),
    {
        JwtClaims {
            aud: string_of("plex.tv"),
            iss: string_of(self.client_id()),
            iat: now,
            exp: now + 3600,
            nonce: match nonce {
                Some(n) => Some(string_of(n)),
                None => None,
            },
            scope: match scope {
                Some(s) => Some(string_of(s)),
                None => None,
            },
        }
    }

    /// The request that polls PIN `pin_id` at time `now` (Unix seconds): a
    /// GET to clients.plex.tv whose path carries a device JWT signed with
    /// `keypair`, issued at `now` and valid for an hour.
    pub fn poll_pin_at(&self, pin_id: u64, keypair: &DeviceKeypair, now: i64) -> (r: ApiRequest)
        requires
            now <= i64::MAX - 3600,
        ensures
            is_request(
                r,
                self@.token,
                Method::Get,
                Base::Clients,
                Api::Raw,
                poll_pin_path_spec(
                    pin_id,
                    signed_jwt(
                        keypair.secret_spec(),
                        keypair.kid_spec(),
                        device_claims(self@.client_id, now as int, None, None),
                    ),
                ),
                Seq::empty(),
            ),
            // the token needs no escaping: it travels in the path as it is
            r.url@ == "https://clients.plex.tv"@ + "/api/v2/pins/"@ + decimal_digits(pin_id as nat)
                + "?deviceJWT="@ + signed_jwt(
                keypair.secret_spec(),
                keypair.kid_spec(),
                device_claims(self@.client_id, now as int, None, None),
            ),
    {
        let claims = self.device_claims_at(now, None, None);
        let jwt = keypair.sign_jwt(&claims);
        proof {
            lemma_jws_chars_unreserved(jwt@);
            lemma_url_encoded_unreserved(jwt@);
        }
        let mut path = string_of("/api/v2/pins/");
        push_decimal_u64(&mut path, pin_id);
        path.append("?deviceJWT=");
        path.append(url_encode(jwt.as_str()).as_str());
        let r = self.request(Method::Get, Base::Clients, Api::Raw, path.as_str(), Vec::new());
        proof {
            reveal_strlit("");
            assert(r.url@ =~= "https://clients.plex.tv"@ + path@);
        }
        r
    }

    /// The request that polls PIN `pin_id`, signed with the current time.
    /// Fails when the clock has no usable reading.
    pub fn poll_pin(&self, pin_id: u64, keypair: &DeviceKeypair) -> (r: Result<ApiRequest, Error>)
        ensures
            match r {
                Ok(req) => exists|now: i64|
                    0 <= now && now + 3600 <= MAX_UNIX_SECONDS && is_request(
                        req,
                        self@.token,
                        Method::Get,
                        Base::Clients,
                        Api::Raw,
                        poll_pin_path_spec(
                            pin_id,
                            signed_jwt(
                                keypair.secret_spec(),
                                keypair.kid_spec(),
                                device_claims(self@.client_id, now as int, None, None),
                            ),
                        ),
                        Seq::empty(),
                    ),
                Err(e) => e matches Error::Generic(m) && m@ == clock_error_message(),
            },
            exists|reading: Option<u64>| is_poll_pin_outcome(self@, pin_id, *keypair, reading, r),
    {
        self.poll_pin_with_reading(pin_id, keypair, system_seconds())
    }

    /// `poll_pin` at the clock reading `reading` (whole seconds since the
    /// Unix epoch; `None`: the clock reads before it).
    pub fn poll_pin_with_reading(&self, pin_id: u64, keypair: &DeviceKeypair, reading: Option<u64>) -> (r:
        Result<ApiRequest, Error>)
        ensures
            is_poll_pin_outcome(self@, pin_id, *keypair, reading, r),
    {
        let now = unix_now(reading)?;
        Ok(self.poll_pin_at(pin_id, keypair, now))
    }

    /// The request for a nonce, the first step of a token refresh.
    pub fn nonce_request(&self) -> (r: ApiRequest)
        ensures
            is_request(r, self@.token, Method::Get, Base::Clients, Api::Raw, "/api/v2/auth/nonce"@, Seq::empty()),
    {
        self.request(Method::Get, Base::Clients, Api::Raw, "/api/v2/auth/nonce", Vec::new())
    }

    /// The request that trades `nonce` for a new token with `scope`, at time
    /// `now` (Unix seconds): a POST to clients.plex.tv whose body holds a
    /// device JWT with the nonce and the scope, signed with `keypair`.
    pub fn refresh_token_at(
        &self,
        keypair: &DeviceKeypair,
        nonce: &NonceResponse,
        scope: &str,
        now: i64,
    ) -> (r: (ApiRequest, TokenRequest))
        requires
            now <= i64::MAX - 3600,
        ensures
            is_request(r.0, self@.token, Method::Post, Base::Clients, Api::Raw, "/api/v2/auth/token"@, Seq::empty()),
            r.1.jwt@ == signed_jwt(
                keypair.secret_spec(),
                keypair.kid_spec(),
                device_claims(self@.client_id, now as int, Some(nonce.nonce@), Some(scope@)),
            ),
            has_three_segments(r.1.jwt@),
    {
        let claims = self.device_claims_at(now, Some(nonce.nonce.as_str()), Some(scope));
        let jwt = keypair.sign_jwt(&claims);
        let request = self.request(Method::Post, Base::Clients, Api::Raw, "/api/v2/auth/token", Vec::new());
        (request, TokenRequest { jwt })
    }

    /// The request that trades `nonce` for a new token with `scope`, signed
    /// with the current time. Fails when the clock has no usable reading.
    pub fn refresh_token(&self, keypair: &DeviceKeypair, nonce: &NonceResponse, scope: &str) -> (r:
        Result<(ApiRequest, TokenRequest), Error>)
        ensures
            match r {
                Ok(req) => {
                    &&& is_request(
                        req.0,
                        self@.token,
                        Method::Post,
                        Base::Clients,
                        Api::Raw,
                        "/api/v2/auth/token"@,
                        Seq::empty(),
                    )
                    &&& exists|now: i64|
                        0 <= now && now + 3600 <= MAX_UNIX_SECONDS && req.1.jwt@ == signed_jwt(
                            keypair.secret_spec(),
                            keypair.kid_spec(),
                            device_claims(self@.client_id, now as int, Some(nonce.nonce@), Some(scope@)),
                        )
                    &&& has_three_segments(req.1.jwt@)
                },
                Err(e) => e matches Error::Generic(m) && m@ == clock_error_message(),
            },
            exists|reading: Option<u64>|
                is_refresh_token_outcome(self@, *keypair, nonce.nonce@, scope@, reading, r),
    {
        self.refresh_token_with_reading(keypair, nonce, scope, system_seconds())
    }

    /// `refresh_token` at the clock reading `reading` (whole seconds since
    /// the Unix epoch; `None`: the clock reads before it).
    pub fn refresh_token_with_reading(
        &self,
        keypair: &DeviceKeypair,
        nonce: &NonceResponse,
        scope: &str,
        reading: Option<u64>,
    ) -> (r: Result<(ApiRequest, TokenRequest), Error>)
        ensures
            is_refresh_token_outcome(self@, *keypair, nonce.nonce@, scope@, reading, r),
            r matches Ok(req) ==> has_three_segments(req.1.jwt@),
    {
        let now = unix_now(reading)?;
        Ok(self.refresh_token_at(keypair, nonce, scope, now))
    }
}

} // verus!

verus! {

// ---------------------------------------------------------------------------
// Laws of the PIN flow
// ---------------------------------------------------------------------------

/// A 4-byte code is typed in at plex.tv/link, whatever the product and the
/// page to return to.
pub proof fn lemma_auth_url_short_code(
    client_id: Seq<char>,
    product: Option<Seq<char>>,
    code: Seq<char>,
    forward_url: Option<Seq<char>>,
)
    requires
        vstd::utf8::encode_utf8(code).len() == 4,
    ensures
        auth_url_spec(client_id, product, code, forward_url) == "https://plex.tv/link/?pin="@ + code,
{
}

/// Any other code goes to the auth page with the client id and the code.
pub proof fn lemma_auth_url_plain(client_id: Seq<char>, code: Seq<char>)
    requires
        vstd::utf8::encode_utf8(code).len() != 4,
    ensures
        auth_url_spec(client_id, None, code, None) == "https://app.plex.tv/auth#?clientID="@
            + client_id + "&code="@ + code,
{
    reveal_strlit("https://app.plex.tv/auth#?");
    reveal_strlit("clientID=");
    reveal_strlit("https://app.plex.tv/auth#?clientID=");
    assert(auth_url_spec(client_id, None, code, None) =~= "https://app.plex.tv/auth#?clientID="@
        + client_id + "&code="@ + code);
}

/// A product adds its parameter right after the code.
pub proof fn lemma_auth_url_product_param(client_id: Seq<char>, product: Seq<char>, code: Seq<char>)
    requires
        vstd::utf8::encode_utf8(code).len() != 4,
    ensures
        auth_url_spec(client_id, Some(product), code, None) == auth_url_spec(client_id, None, code, None)
            + "&"@ + url_encoded("context[device][product]"@) + "="@ + url_encoded(product),
{
    assert(auth_url_spec(client_id, Some(product), code, None) =~= auth_url_spec(
        client_id,
        None,
        code,
        None,
    ) + "&"@ + url_encoded("context[device][product]"@) + "="@ + url_encoded(product));
}

/// A page to return to adds its parameter at the very end, and changes
/// nothing before it: the product parameter is there with or without it.
pub proof fn lemma_auth_url_forward_param(
    client_id: Seq<char>,
    product: Option<Seq<char>>,
    code: Seq<char>,
    forward_url: Seq<char>,
)
    requires
        vstd::utf8::encode_utf8(code).len() != 4,
    ensures
        auth_url_spec(client_id, product, code, Some(forward_url)) == auth_url_spec(
            client_id,
            product,
            code,
            None,
        ) + "&forwardUrl="@ + url_encoded(forward_url),
{
    assert(auth_url_spec(client_id, product, code, Some(forward_url)) =~= auth_url_spec(
        client_id,
        product,
        code,
        None,
    ) + "&forwardUrl="@ + url_encoded(forward_url));
}

/// Polling a PIN at a clock reading of `s` seconds signs a device JWT for
/// plex.tv, issued by this client at `s` and expiring an hour later, with no
/// nonce and no scope.
pub proof fn lemma_poll_pin_issued_at_reading(
    client: ClientModel,
    pin_id: u64,
    keypair: DeviceKeypair,
    s: u64,
    r: Result<ApiRequest, Error>,
)
    requires
        s + 3600 <= MAX_UNIX_SECONDS,
        is_poll_pin_outcome(client, pin_id, keypair, Some(s), r),
    ensures
        r matches Ok(req) && is_request(
            req,
            client.token,
            Method::Get,
            Base::Clients,
            Api::Raw,
            "/api/v2/pins/"@ + decimal_digits(pin_id as nat) + "?deviceJWT="@ + url_encoded(
                signed_jwt(
                    keypair.secret_spec(),
                    keypair.kid_spec(),
                    ClaimsModel {
                        aud: "plex.tv"@,
                        iss: client.client_id,
                        iat: s as int,
                        exp: s as int + 3600,
                        nonce: None,
                        scope: None,
                    },
                ),
            ),
            Seq::empty(),
        ),
{
}

/// Trading a nonce for a token at a clock reading of `s` seconds signs a
/// device JWT for plex.tv, issued by this client at `s` and expiring an
/// hour later, that carries the nonce and the scope.
pub proof fn lemma_refresh_token_issued_at_reading(
    client: ClientModel,
    keypair: DeviceKeypair,
    nonce: Seq<char>,
    scope: Seq<char>,
    s: u64,
    r: Result<(ApiRequest, TokenRequest), Error>,
)
    requires
        s + 3600 <= MAX_UNIX_SECONDS,
        is_refresh_token_outcome(client, keypair, nonce, scope, Some(s), r),
    ensures
        r matches Ok(req) && is_request(
            req.0,
            client.token,
            Method::Post,
            Base::Clients,
            Api::Raw,
            "/api/v2/auth/token"@,
            Seq::empty(),
        ) && req.1.jwt@ == signed_jwt(
            keypair.secret_spec(),
            keypair.kid_spec(),
            ClaimsModel {
                aud: "plex.tv"@,
                iss: client.client_id,
                iat: s as int,
                exp: s as int + 3600,
                nonce: Some(nonce),
                scope: Some(scope),
            },
        ),
{
}

/// A clock that reads before the epoch, or so late that an hour later is
/// past the last date `chrono` can hold, gives the clock error and no
/// request.
pub proof fn lemma_unusable_reading_is_refused(
    client: ClientModel,
    pin_id: u64,
    keypair: DeviceKeypair,
    nonce: Seq<char>,
    scope: Seq<char>,
    reading: Option<u64>,
    poll: Result<ApiRequest, Error>,
    refresh: Result<(ApiRequest, TokenRequest), Error>,
)
    requires
        reading matches Some(s) ==> s + 3600 > MAX_UNIX_SECONDS,
        is_poll_pin_outcome(client, pin_id, keypair, reading, poll),
        is_refresh_token_outcome(client, keypair, nonce, scope, reading, refresh),
    ensures
        poll matches Err(Error::Generic(m)) && m@ == "system time before Unix epoch or out of range"@,
        refresh matches Err(Error::Generic(m)) && m@ == "system time before Unix epoch or out of range"@,
{
}

} // verus!
