use vstd::prelude::*;
use vstd::string::StringSliceAdditionalSpecFns;

use crate::client::text::{decimal, push_decimal_i64, string_of};

verus! {

// ---------------------------------------------------------------------------
// Encodings and primitives of other crates
// ---------------------------------------------------------------------------

/// The character of a 6-bit value in the URL-safe base64 alphabet.
pub open spec fn base64_url_digit(n: int) -> char {
    if n < 26 {
        (65 + n) as char
    } else if n < 52 {
        (71 + n) as char
    } else if n < 62 {
        (n - 4) as char
    } else if n == 62 {
        '-'
    } else {
        '_'
    }
}

/// URL-safe base64 without padding (RFC 4648, section 5): every 3 bytes
/// become 4 characters; a final group of 1 or 2 bytes becomes 2 or 3.
pub open spec fn base64_url_unpadded(bytes: Seq<u8>) -> Seq<char>
    decreases bytes.len(),
{
    if bytes.len() == 0 {
        Seq::empty()
    } else if bytes.len() == 1 {
        let b0 = bytes[0] as int;
        seq![base64_url_digit(b0 / 4), base64_url_digit((b0 % 4) * 16)]
    } else if bytes.len() == 2 {
        let b0 = bytes[0] as int;
        let b1 = bytes[1] as int;
        seq![
            base64_url_digit(b0 / 4),
            base64_url_digit((b0 % 4) * 16 + b1 / 16),
            base64_url_digit((b1 % 16) * 4),
        ]
    } else {
        let b0 = bytes[0] as int;
        let b1 = bytes[1] as int;
        let b2 = bytes[2] as int;
        seq![
            base64_url_digit(b0 / 4),
            base64_url_digit((b0 % 4) * 16 + b1 / 16),
            base64_url_digit((b1 % 16) * 4 + b2 / 64),
            base64_url_digit(b2 % 64),
        ] + base64_url_unpadded(bytes.subrange(3, bytes.len() as int))
    }
}

/// The length of unpadded base64 of `n` bytes.
pub open spec fn base64_unpadded_len(n: nat) -> nat {
    (n / 3) * 4 + if n % 3 == 0 { 0 } else { n % 3 + 1 }
}

/// The URL-safe base64 alphabet: letters, digits, `-` and `_`.
pub open spec fn is_base64_url_char(c: char) -> bool {
    ||| ('A' <= c && c <= 'Z')
    ||| ('a' <= c && c <= 'z')
    ||| ('0' <= c && c <= '9')
    ||| c == '-'
    ||| c == '_'
}

/// Unpadded base64 of `n` bytes has `base64_unpadded_len(n)` characters,
/// all from the URL-safe alphabet.
pub proof fn lemma_base64_url_shape(bytes: Seq<u8>)
    ensures
        base64_url_unpadded(bytes).len() == base64_unpadded_len(bytes.len()),
        forall|i: int|
            0 <= i < base64_url_unpadded(bytes).len() ==> is_base64_url_char(
                #[trigger] base64_url_unpadded(bytes)[i],
            ),
    decreases bytes.len(),
{
    let e = base64_url_unpadded(bytes);
    if bytes.len() >= 3 {
        let rest = bytes.subrange(3, bytes.len() as int);
        lemma_base64_url_shape(rest);
        let b0 = bytes[0] as int;
        let b1 = bytes[1] as int;
        let b2 = bytes[2] as int;
        let head = seq![
            base64_url_digit(b0 / 4),
            base64_url_digit((b0 % 4) * 16 + b1 / 16),
            base64_url_digit((b1 % 16) * 4 + b2 / 64),
            base64_url_digit(b2 % 64),
        ];
        assert(e == head + base64_url_unpadded(rest));
        assert forall|i: int| 0 <= i < e.len() implies is_base64_url_char(#[trigger] e[i]) by {
            if i >= 4 {
                assert(e[i] == base64_url_unpadded(rest)[i - 4]);
            }
        }
        assert((bytes.len() as nat) / 3 == rest.len() / 3 + 1);
        assert((bytes.len() as nat) % 3 == rest.len() % 3);
    }
}

/// Calls `base64::engine::general_purpose::URL_SAFE_NO_PAD.encode`. Claimed
/// (from its documentation and source): RFC 4648 URL-safe base64, without
/// `=` padding, as `base64_url_unpadded` writes it out. It panics only when
/// the encoded length overflows `usize`, which no slice in memory reaches (a
/// slice holds at most `isize::MAX` bytes).
#[verifier::external_body]
fn encode_base64_url(bytes: &[u8]) -> (r: String)
    ensures
        r@ == base64_url_unpadded(bytes@),
{
    base64::Engine::encode(&base64::engine::general_purpose::URL_SAFE_NO_PAD, bytes)
}

/// The Ed25519 public key of a 32-byte secret key.
pub uninterp spec fn ed25519_public_key(secret: Seq<u8>) -> Seq<u8>;

/// The (deterministic) Ed25519 signature of `message` under a 32-byte
/// secret key.
pub uninterp spec fn ed25519_signature(secret: Seq<u8>, message: Seq<u8>) -> Seq<u8>;

/// Calls `ed25519_dalek::SigningKey::verifying_key` on the key made by
/// `SigningKey::from_bytes`. Claimed: the 32 bytes of the public key are a
/// function of the secret key alone.
#[verifier::external_body]
fn public_key_of(secret: &[u8; 32]) -> (r: [u8; 32])
    ensures
        r@ == ed25519_public_key(secret@),
{
    ed25519_dalek::SigningKey::from_bytes(secret).verifying_key().to_bytes()
}

/// Calls `ed25519_dalek::Signer::sign` with the key made by
/// `SigningKey::from_bytes`. Claimed: the 64 signature bytes are a function
/// of the secret key and the message (Ed25519 signing is deterministic).
#[verifier::external_body]
fn sign_message(secret: &[u8; 32], message: &[u8]) -> (r: [u8; 64])
    ensures
        r@ == ed25519_signature(secret@, message@),
{
    ed25519_dalek::Signer::sign(&ed25519_dalek::SigningKey::from_bytes(secret), message).to_bytes()
}

/// Calls `rand::random` for 32 bytes. Nothing is claimed of them.
#[verifier::external_body]
fn random_secret() -> [u8; 32] {
    rand::random()
}

pub open spec fn is_lower_hex_digit(c: char) -> bool {
    ('0' <= c && c <= '9') || ('a' <= c && c <= 'f')
}

/// The text of a random (version 4) UUID: 36 characters in groups of 8, 4,
/// 4, 4 and 12 lowercase hexadecimal digits joined by `-`, with the version
/// digit `4` and a variant digit among `8`, `9`, `a`, `b`.
pub open spec fn is_uuid_v4_text(s: Seq<char>) -> bool {
    &&& s.len() == 36
    &&& forall|i: int|
        0 <= i < 36 ==> if i == 8 || i == 13 || i == 18 || i == 23 {
            #[trigger] s[i] == '-'
        } else {
            is_lower_hex_digit(s[i])
        }
    &&& s[14] == '4'
    &&& (s[19] == '8' || s[19] == '9' || s[19] == 'a' || s[19] == 'b')
}

/// Calls `uuid::Uuid::new_v4` and formats it with `to_string`. Claimed: the
/// text has the shape of a version 4 UUID. Not stated: which one (random).
#[verifier::external_body]
fn random_uuid_text() -> (r: String)
    ensures
        is_uuid_v4_text(r@),
{
    uuid::Uuid::new_v4().to_string()
}

/// A lowercase hexadecimal digit.
pub open spec fn hex_lower(n: u32) -> char {
    if n < 10 { (48 + n) as char } else { (87 + n) as char }
}

/// How JSON writes one character inside a string: quote, backslash and the
/// control characters are escaped, the short forms used where JSON has them.
pub open spec fn json_escape_char(c: char) -> Seq<char> {
    let u = c as u32;
    if c == '"' {
        seq!['\\', '"']
    } else if c == '\\' {
        seq!['\\', '\\']
    } else if u == 8 {
        seq!['\\', 'b']
    } else if u == 9 {
        seq!['\\', 't']
    } else if u == 10 {
        seq!['\\', 'n']
    } else if u == 12 {
        seq!['\\', 'f']
    } else if u == 13 {
        seq!['\\', 'r']
    } else if u < 32 {
        seq!['\\', 'u', '0', '0', hex_lower(u / 16), hex_lower(u % 16)]
    } else {
        seq![c]
    }
}

pub open spec fn json_escape(s: Seq<char>) -> Seq<char>
    decreases s.len(),
{
    if s.len() == 0 {
        Seq::empty()
    } else {
        json_escape_char(s[0]) + json_escape(s.drop_first())
    }
}

/// A string written as a JSON string literal.
pub open spec fn json_quoted(s: Seq<char>) -> Seq<char> {
    seq!['"'] + json_escape(s) + seq!['"']
}

/// Calls `serde_json::to_string` on a `str`. Claimed (from its source): it
/// succeeds, and writes the string between quotes, escaping `"`, `\` and the
/// control characters below U+0020 (`\b \t \n \f \r` or `\u00xx`), and no
/// other character.
#[verifier::external_body]
fn json_string(s: &str) -> (r: Option<String>)
    ensures
        r is Some,
        r.unwrap()@ == json_quoted(s@),
{
    serde_json::to_string(s).ok()
}

fn json_quote(s: &str) -> (r: String)
    ensures
        r@ == json_quoted(s@),
{
    match json_string(s) {
        Some(t) => t,
        None => {
            proof {
                assert(false);
            }
            String::new()
        },
    }
}

// ---------------------------------------------------------------------------
// Device keys and JWTs
// ---------------------------------------------------------------------------

/// The claims of a device JWT.
pub struct JwtClaims {
    pub aud: String,
    pub iss: String,
    pub iat: i64,
    pub exp: i64,
    pub nonce: Option<String>,
    pub scope: Option<String>,
}

/// The claims of a device JWT, as values.
pub struct ClaimsModel {
    pub aud: Seq<char>,
    pub iss: Seq<char>,
    pub iat: int,
    pub exp: int,
    pub nonce: Option<Seq<char>>,
    pub scope: Option<Seq<char>>,
}

pub open spec fn optional_text(s: Option<String>) -> Option<Seq<char>> {
    match s {
        Some(t) => Some(t@),
        None => None,
    }
}

impl View for JwtClaims {
    type V = ClaimsModel;

    open spec fn view(&self) -> ClaimsModel {
        ClaimsModel {
            aud: self.aud@,
            iss: self.iss@,
            iat: self.iat as int,
            exp: self.exp as int,
            nonce: optional_text(self.nonce),
            scope: optional_text(self.scope),
        }
    }
}

/// An Ed25519 key of this device, and the id under which plex.tv knows it.
#[derive(Clone)]
pub struct DeviceKeypair {
    secret: [u8; 32],
    kid: String,
}

/// The JOSE header of a device JWT: `{"alg":"EdDSA","kid":…,"typ":"JWT"}`.
pub open spec fn jwt_header_json(kid: Seq<char>) -> Seq<char> {
    "{\"alg\":\"EdDSA\",\"kid\":"@ + json_quoted(kid) + ",\"typ\":\"JWT\"}"@
}

/// An optional JSON member: nothing when the value is absent.
pub open spec fn optional_member(key_prefix: Seq<char>, value: Option<Seq<char>>) -> Seq<char> {
    match value {
        Some(v) => key_prefix + json_quoted(v),
        None => Seq::empty(),
    }
}

/// The JSON text of the claims: `aud`, `iss`, `iat`, `exp`, then `nonce`
/// and `scope` when present.
pub open spec fn jwt_claims_json(c: ClaimsModel) -> Seq<char> {
    "{\"aud\":"@ + json_quoted(c.aud) + ",\"iss\":"@ + json_quoted(c.iss) + ",\"iat\":"@
        + decimal(c.iat) + ",\"exp\":"@ + decimal(c.exp) + optional_member(
        ",\"nonce\":"@,
        c.nonce,
    ) + optional_member(",\"scope\":"@, c.scope) + "}"@
}

/// The signed part of a JWT: encoded header, `.`, encoded claims.
pub open spec fn jwt_signing_input(kid: Seq<char>, c: ClaimsModel) -> Seq<char> {
    base64_url_unpadded(vstd::utf8::encode_utf8(jwt_header_json(kid))) + "."@
        + base64_url_unpadded(vstd::utf8::encode_utf8(jwt_claims_json(c)))
}

/// A compact JWS: signing input, `.`, encoded Ed25519 signature of the
/// signing input.
pub open spec fn signed_jwt(secret: Seq<u8>, kid: Seq<char>, c: ClaimsModel) -> Seq<char> {
    jwt_signing_input(kid, c) + "."@ + base64_url_unpadded(
        ed25519_signature(secret, vstd::utf8::encode_utf8(jwt_signing_input(kid, c))),
    )
}

/// Three segments of URL-safe base64 separated by two dots.
pub open spec fn has_three_segments(s: Seq<char>) -> bool {
    exists|i: int, j: int|
        {
            &&& 0 <= i < j < s.len()
            &&& #[trigger] s[i] == '.'
            &&& #[trigger] s[j] == '.'
            &&& forall|k: int|
                0 <= k < s.len() && k != i && k != j ==> is_base64_url_char(#[trigger] s[k])
        }
}

impl DeviceKeypair {
    /// The secret key bytes.
    pub closed spec fn secret_spec(&self) -> Seq<u8> {
        self.secret@
    }

    /// The key id.
    pub closed spec fn kid_spec(&self) -> Seq<char> {
        self.kid@
    }

    /// A new random Ed25519 key with a random UUID as its id.
    pub fn generate() -> (r: Self)
        ensures
            is_uuid_v4_text(r.kid_spec()),
            r.secret_spec().len() == 32,
    {
        let secret = random_secret();
        let kid = random_uuid_text();
        DeviceKeypair { secret, kid }
    }

    /// Restores a key saved with `private_key_bytes` and `kid`.
    pub fn from_bytes(private_key_bytes: &[u8; 32], kid: &str) -> (r: Self)
        ensures
            r.secret_spec() == private_key_bytes@,
            r.kid_spec() == kid@,
    {
        DeviceKeypair { secret: *private_key_bytes, kid: string_of(kid) }
    }

    /// The secret key bytes, to be persisted.
    pub fn private_key_bytes(&self) -> (r: [u8; 32])
        ensures
            r@ == self.secret_spec(),
    {
        self.secret
    }

    /// The key id, to be persisted along with the key bytes.
    pub fn kid(&self) -> (r: &str)
        ensures
            r@ == self.kid_spec(),
    {
        self.kid.as_str()
    }

    /// The public key, URL-safe base64 without padding: 43 characters.
    pub fn public_key_b64(&self) -> (r: String)
        ensures
            r@ == base64_url_unpadded(ed25519_public_key(self.secret_spec())),
            r@.len() == 43,
            forall|i: int| 0 <= i < r@.len() ==> is_base64_url_char(#[trigger] r@[i]),
    {
        let public_key = public_key_of(&self.secret);
        let r = encode_base64_url(public_key.as_slice());
        proof {
            lemma_base64_url_shape(public_key@);
            assert(public_key@.len() == 32);
        }
        r
    }

    /// The compact JWS of `claims`, signed with this key and carrying its id.
    pub fn sign_jwt(&self, claims: &JwtClaims) -> (r: String)
        ensures
            r@ == signed_jwt(self.secret_spec(), self.kid_spec(), claims@),
            has_three_segments(r@),
    {
        let header = jwt_header_text(self.kid.as_str());
        let body = jwt_claims_text(claims);
        let encoded_header = encode_base64_url(header.as_str().as_bytes());
        let encoded_claims = encode_base64_url(body.as_str().as_bytes());
        proof {
            reveal_strlit(".");
        }
        let mut input = string_of(encoded_header.as_str());
        input.append(".");
        input.append(encoded_claims.as_str());
        let signature = sign_message(&self.secret, input.as_str().as_bytes());
        let encoded_signature = encode_base64_url(signature.as_slice());
        let mut token = input;
        token.append(".");
        token.append(encoded_signature.as_str());
        proof {
            lemma_base64_url_shape(vstd::utf8::encode_utf8(header@));
            lemma_base64_url_shape(vstd::utf8::encode_utf8(body@));
            lemma_base64_url_shape(signature@);
            let h = encoded_header@;
            let c = encoded_claims@;
            let g = encoded_signature@;
            let t = token@;
            let i = h.len() as int;
            let j = (h.len() + 1 + c.len()) as int;
            assert(t == h + seq!['.'] + c + seq!['.'] + g);
            assert(t[i] == '.');
            assert(t[j] == '.');
            assert forall|k: int| 0 <= k < t.len() && k != i && k != j implies is_base64_url_char(
                #[trigger] t[k],
            ) by {
                if k < i {
                    assert(t[k] == h[k]);
                } else if k < j {
                    assert(t[k] == c[k - i - 1]);
                } else {
                    assert(t[k] == g[k - j - 1]);
                }
            }
        }
        token
    }
}

fn jwt_header_text(kid: &str) -> (r: String)
    ensures
        r@ == jwt_header_json(kid@),
{
    let mut s = string_of("{\"alg\":\"EdDSA\",\"kid\":");
    s.append(json_quote(kid).as_str());
    s.append(",\"typ\":\"JWT\"}");
    s
}

fn push_optional_member(out: &mut String, key_prefix: &str, value: &Option<String>)
    ensures
        final(out)@ == old(out)@ + optional_member(key_prefix@, optional_text(*value)),
{
    match value {
        Some(v) => {
            out.append(key_prefix);
            out.append(json_quote(v.as_str()).as_str());
        },
        None => {},
    }
}

fn jwt_claims_text(c: &JwtClaims) -> (r: String)
    ensures
        r@ == jwt_claims_json(c@),
{
    let mut s = string_of("{\"aud\":");
    s.append(json_quote(c.aud.as_str()).as_str());
    s.append(",\"iss\":");
    s.append(json_quote(c.iss.as_str()).as_str());
    s.append(",\"iat\":");
    push_decimal_i64(&mut s, c.iat);
    s.append(",\"exp\":");
    push_decimal_i64(&mut s, c.exp);
    push_optional_member(&mut s, ",\"nonce\":", &c.nonce);
    push_optional_member(&mut s, ",\"scope\":", &c.scope);
    s.append("}");
    s
}

} // verus!

verus! {

/// A key restored from the bytes and id that were persisted of another signs
/// exactly as that one, and has the same public key.
pub proof fn lemma_restored_key_signs_alike(
    key: DeviceKeypair,
    restored: DeviceKeypair,
    claims: ClaimsModel,
)
    requires
        restored.secret_spec() == key.secret_spec(),
        restored.kid_spec() == key.kid_spec(),
    ensures
        signed_jwt(restored.secret_spec(), restored.kid_spec(), claims) == signed_jwt(
            key.secret_spec(),
            key.kid_spec(),
            claims,
        ),
        ed25519_public_key(restored.secret_spec()) == ed25519_public_key(key.secret_spec()),
{
}

} // verus!

verus! {

// ---------------------------------------------------------------------------
// Decoding base64
// ---------------------------------------------------------------------------

/// The 6-bit value of a character of the URL-safe base64 alphabet.
pub open spec fn base64_url_value(c: char) -> int {
    if 'A' <= c && c <= 'Z' {
        c as int - 65
    } else if 'a' <= c && c <= 'z' {
        c as int - 71
    } else if '0' <= c && c <= '9' {
        c as int + 4
    } else if c == '-' {
        62
    } else {
        63
    }
}

/// Unpadded URL-safe base64 read back: every 4 characters give 3 bytes; a
/// final group of 2 or 3 characters gives 1 or 2.
pub open spec fn base64_url_decoded(s: Seq<char>) -> Seq<u8>
    decreases s.len(),
{
    if s.len() < 2 {
        Seq::empty()
    } else {
        let v0 = base64_url_value(s[0]);
        let v1 = base64_url_value(s[1]);
        if s.len() == 2 {
            seq![(v0 * 4 + v1 / 16) as u8]
        } else {
            let v2 = base64_url_value(s[2]);
            if s.len() == 3 {
                seq![(v0 * 4 + v1 / 16) as u8, ((v1 % 16) * 16 + v2 / 4) as u8]
            } else {
                let v3 = base64_url_value(s[3]);
                seq![
                    (v0 * 4 + v1 / 16) as u8,
                    ((v1 % 16) * 16 + v2 / 4) as u8,
                    ((v2 % 4) * 64 + v3) as u8,
                ] + base64_url_decoded(s.subrange(4, s.len() as int))
            }
        }
    }
}

proof fn lemma_base64_url_value_of_digit(n: int)
    requires
        0 <= n < 64,
    ensures
        base64_url_value(base64_url_digit(n)) == n,
{
}

proof fn lemma_base64_group(b0: int, b1: int, b2: int)
    requires
        0 <= b0 < 256,
        0 <= b1 < 256,
        0 <= b2 < 256,
    ensures
        (b0 / 4) * 4 + ((b0 % 4) * 16 + b1 / 16) / 16 == b0,
        (((b0 % 4) * 16 + b1 / 16) % 16) * 16 + ((b1 % 16) * 4 + b2 / 64) / 4 == b1,
        (((b1 % 16) * 4 + b2 / 64) % 4) * 64 + b2 % 64 == b2,
        (b0 / 4) * 4 + ((b0 % 4) * 16) / 16 == b0,
        (((b0 % 4) * 16 + b1 / 16) % 16) * 16 + ((b1 % 16) * 4) / 4 == b1,
        0 <= b0 / 4 < 64,
        0 <= (b0 % 4) * 16 + b1 / 16 < 64,
        0 <= (b1 % 16) * 4 + b2 / 64 < 64,
        0 <= (b0 % 4) * 16 < 64,
        0 <= (b1 % 16) * 4 < 64,
{
}

/// Base64 loses nothing: reading it back gives the bytes that were encoded.
pub proof fn lemma_base64_url_round_trip(bytes: Seq<u8>)
    ensures
        base64_url_decoded(base64_url_unpadded(bytes)) == bytes,
    decreases bytes.len(),
{
    let e = base64_url_unpadded(bytes);
    if bytes.len() == 0 {
    } else if bytes.len() == 1 {
        let b0 = bytes[0] as int;
        lemma_base64_group(b0, 0, 0);
        lemma_base64_url_value_of_digit(b0 / 4);
        lemma_base64_url_value_of_digit((b0 % 4) * 16);
        assert(base64_url_decoded(e) =~= bytes);
    } else if bytes.len() == 2 {
        let b0 = bytes[0] as int;
        let b1 = bytes[1] as int;
        lemma_base64_group(b0, b1, 0);
        lemma_base64_url_value_of_digit(b0 / 4);
        lemma_base64_url_value_of_digit((b0 % 4) * 16 + b1 / 16);
        lemma_base64_url_value_of_digit((b1 % 16) * 4);
        assert(base64_url_decoded(e) =~= bytes);
    } else {
        let b0 = bytes[0] as int;
        let b1 = bytes[1] as int;
        let b2 = bytes[2] as int;
        let rest = bytes.subrange(3, bytes.len() as int);
        lemma_base64_url_round_trip(rest);
        lemma_base64_group(b0, b1, b2);
        lemma_base64_url_value_of_digit(b0 / 4);
        lemma_base64_url_value_of_digit((b0 % 4) * 16 + b1 / 16);
        lemma_base64_url_value_of_digit((b1 % 16) * 4 + b2 / 64);
        lemma_base64_url_value_of_digit(b2 % 64);
        lemma_base64_url_shape(rest);
        assert(e.subrange(4, e.len() as int) =~= base64_url_unpadded(rest));
        assert(base64_url_decoded(e) =~= bytes);
    }
}

/// Every segment of a signed JWT reads back: split at its two dots, the
/// first segment decodes to the header's JSON text, the second to the
/// claims' JSON text, and the third to the Ed25519 signature of the first
/// two and the dot between them.
pub proof fn lemma_signed_jwt_reads_back(secret: Seq<u8>, kid: Seq<char>, c: ClaimsModel)
    ensures
        exists|header: Seq<char>, claims: Seq<char>, signature: Seq<char>|
            {
                &&& signed_jwt(secret, kid, c) == header + "."@ + claims + "."@ + signature
                &&& forall|i: int| 0 <= i < header.len() ==> #[trigger] header[i] != '.'
                &&& forall|i: int| 0 <= i < claims.len() ==> #[trigger] claims[i] != '.'
                &&& forall|i: int| 0 <= i < signature.len() ==> #[trigger] signature[i] != '.'
                &&& vstd::utf8::decode_utf8(base64_url_decoded(header)) == jwt_header_json(kid)
                &&& vstd::utf8::decode_utf8(base64_url_decoded(claims)) == jwt_claims_json(c)
                &&& base64_url_decoded(signature) == ed25519_signature(
                    secret,
                    vstd::utf8::encode_utf8(header + "."@ + claims),
                )
            },
{
    let hb = vstd::utf8::encode_utf8(jwt_header_json(kid));
    let cb = vstd::utf8::encode_utf8(jwt_claims_json(c));
    let header = base64_url_unpadded(hb);
    let claims = base64_url_unpadded(cb);
    let sb = ed25519_signature(secret, vstd::utf8::encode_utf8(header + "."@ + claims));
    let signature = base64_url_unpadded(sb);
    lemma_base64_url_shape(hb);
    lemma_base64_url_shape(cb);
    lemma_base64_url_shape(sb);
    lemma_base64_url_round_trip(hb);
    lemma_base64_url_round_trip(cb);
    lemma_base64_url_round_trip(sb);
    vstd::utf8::encode_utf8_decode_utf8(jwt_header_json(kid));
    vstd::utf8::encode_utf8_decode_utf8(jwt_claims_json(c));
    assert forall|i: int| 0 <= i < header.len() implies #[trigger] header[i] != '.' by {
        assert(is_base64_url_char(header[i]));
    }
    assert forall|i: int| 0 <= i < claims.len() implies #[trigger] claims[i] != '.' by {
        assert(is_base64_url_char(claims[i]));
    }
    assert forall|i: int| 0 <= i < signature.len() implies #[trigger] signature[i] != '.' by {
        assert(is_base64_url_char(signature[i]));
    }
    assert(signed_jwt(secret, kid, c) == header + "."@ + claims + "."@ + signature);
}

} // verus!
