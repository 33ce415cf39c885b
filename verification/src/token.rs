use vstd::prelude::*;
use vstd::string::StringExecFns;

use crate::digits::all_digits;
use crate::digits::digit_val;
use crate::digits::digits_val;
use crate::digits::is_digit;
use crate::entity::auth::Claims;
use crate::entity::ids::Token;
use crate::entity::ids::UserId;
use crate::service::errors::TokenServiceError;
use crate::service::ports::TokenService;
use crate::text::chars_of;
use crate::text::find_first;
use crate::text::string_from_chars;
use crate::text::string_of_range;

verus! {

/// Seconds of grace jsonwebtoken-style validation grants past expiry.
pub const TOKEN_LEEWAY_SECS: u64 = 60;

/// The url-safe unpadded base64 text of a string's UTF-8 bytes; a
/// function of the characters alone.
pub uninterp spec fn b64url_str_of(s: Seq<char>) -> Seq<char>;

/// The padded standard-alphabet base64 text of a byte sequence; a
/// function of the bytes alone.
pub uninterp spec fn b64_std_of(bytes: Seq<u8>) -> Seq<char>;

/// The url-safe unpadded base64 text of the HMAC-SHA-512 tag of
/// `message` under `key` (both as UTF-8); a function of the two alone.
pub uninterp spec fn hs512_sig(key: Seq<char>, message: Seq<char>) -> Seq<char>;

/// Relies on base64's URL_SAFE_NO_PAD engine over str::as_bytes,
/// named `b64url_str_of`.
#[verifier::external_body]
fn b64url_encode_str(s: &str) -> (r: String)
    ensures
        r@ == b64url_str_of(s@),
{
    base64::Engine::encode(&base64::prelude::BASE64_URL_SAFE_NO_PAD, s.as_bytes())
}

/// Relies on base64's URL_SAFE_NO_PAD engine to invert
/// `b64url_str_of` (that engine rejects padding and non-canonical
/// trailing bits), and on String::from_utf8: a decodable valid-UTF-8
/// payload comes back as the text whose encoding is the input.
#[verifier::external_body]
fn b64url_decode_str(s: &str) -> (r: Result<String, ()>)
    ensures
        r matches Ok(t) ==> b64url_str_of(t@) == s@,
{
    match base64::Engine::decode(&base64::prelude::BASE64_URL_SAFE_NO_PAD, s.as_bytes()) {
        Ok(bytes) => match String::from_utf8(bytes) {
            Ok(t) => Ok(t),
            Err(_) => Err(()),
        },
        Err(_) => Err(()),
    }
}

/// Relies on base64's BASE64_STANDARD engine, named `b64_std_of`:
/// deterministic, four output characters per three input bytes, padded.
#[verifier::external_body]
fn b64_std_encode(bytes: &Vec<u8>) -> (r: String)
    ensures
        r@ == b64_std_of(bytes@),
        r@.len() == ((bytes@.len() + 2) / 3) * 4,
{
    base64::Engine::encode(&base64::prelude::BASE64_STANDARD, bytes.as_slice())
}

/// Relies on rand_core::OsRng::fill_bytes: `n` bytes from the
/// operating system's generator; nothing is known of their values.
#[verifier::external_body]
fn os_random_bytes(n: usize) -> (r: Vec<u8>)
    ensures
        r@.len() == n,
{
    let mut buf = vec![0u8; n];
    rand_core::RngCore::fill_bytes(&mut rand_core::OsRng, &mut buf);
    buf
}

/// Relies on jsonwebtoken::crypto::sign with Algorithm::HS512 over a
/// secret key: base64url(HMAC-SHA-512), deterministic in key and
/// message, named `hs512_sig`; the HS512 arm of its source never
/// fails.
#[verifier::external_body]
fn hs512_sign(key: &str, message: &str) -> (r: Result<String, ()>)
    ensures
        r matches Ok(s) ==> s@ == hs512_sig(key@, message@),
{
    match jsonwebtoken::crypto::sign(
        message.as_bytes(),
        &jsonwebtoken::EncodingKey::from_secret(key.as_bytes()),
        jsonwebtoken::Algorithm::HS512,
    ) {
        Ok(s) => Ok(s),
        Err(_) => Err(()),
    }
}

/// Relies on jsonwebtoken::crypto::verify with Algorithm::HS512: its
/// source re-signs the message with the key and compares the result
/// with the given signature in constant time.
#[verifier::external_body]
fn hs512_verify_sig(signature: &str, message: &str, key: &str) -> (r: Result<bool, ()>)
    ensures
        r matches Ok(b) ==> b == (signature@ == hs512_sig(key@, message@)),
{
    match jsonwebtoken::crypto::verify(
        signature,
        message.as_bytes(),
        &jsonwebtoken::DecodingKey::from_secret(key.as_bytes()),
        jsonwebtoken::Algorithm::HS512,
    ) {
        Ok(b) => Ok(b),
        Err(_) => Err(()),
    }
}

/// A fresh signing secret: 32 random bytes in standard base64 (44
/// characters).
pub fn generate_key() -> (r: String)
    ensures
        r@.len() == 44,
{
    let bytes = os_random_bytes(32);
    b64_std_encode(&bytes)
}

pub open spec fn digit_char(d: int) -> char {
    seq!['0', '1', '2', '3', '4', '5', '6', '7', '8', '9'][d]
}

/// The canonical decimal text of a non-negative number.
pub open spec fn dec_digits(n: int) -> Seq<char>
    decreases n,
{
    if n < 10 {
        seq![digit_char(n)]
    } else {
        dec_digits(n / 10) + seq![digit_char(n % 10)]
    }
}

/// How one character is written inside a JSON string: quote and
/// backslash escaped, everything else as itself. (Identifiers here are
/// UUID strings; the escaping does not cover control characters, and
/// token verification rejects a payload holding one.)
pub open spec fn json_escape_char(c: char) -> Seq<char> {
    if c == '"' {
        seq!['\\', '"']
    } else if c == '\\' {
        seq!['\\', '\\']
    } else {
        seq![c]
    }
}

pub open spec fn json_escape(s: Seq<char>) -> Seq<char>
    decreases s.len(),
{
    if s.len() == 0 {
        Seq::<char>::empty()
    } else {
        json_escape_char(s[0]) + json_escape(s.drop_first())
    }
}

proof fn lemma_json_escape_push(s: Seq<char>, c: char)
    ensures
        json_escape(s.push(c)) == json_escape(s) + json_escape_char(c),
    decreases s.len(),
{
    if s.len() == 0 {
        assert(s.push(c)[0] == c);
        assert(s.push(c).drop_first() =~= Seq::<char>::empty());
        assert(json_escape(s.push(c).drop_first()) =~= Seq::<char>::empty());
        assert(json_escape(s.push(c)) =~= json_escape_char(c));
        assert(json_escape(s) + json_escape_char(c) =~= json_escape_char(c));
    } else {
        assert(s.push(c)[0] == s[0]);
        assert(s.push(c).drop_first() =~= s.drop_first().push(c));
        lemma_json_escape_push(s.drop_first(), c);
        assert(json_escape_char(s[0]) + (json_escape(s.drop_first()) + json_escape_char(c)) =~= (
        json_escape_char(s[0]) + json_escape(s.drop_first())) + json_escape_char(c));
    }
}

pub open spec fn claims_prefix() -> Seq<char> {
    seq!['{', '"', 'u', 's', 'e', 'r', 'I', 'd', '"', ':', '"']
}

pub open spec fn claims_middle() -> Seq<char> {
    seq!['"', ',', '"', 'e', 'x', 'p', '"', ':']
}

/// The claims object as this service writes it:
/// `{"userId":"...","exp":N}`.
pub open spec fn claims_json(user_id: Seq<char>, exp: int) -> Seq<char> {
    claims_prefix() + json_escape(user_id) + claims_middle() + dec_digits(exp) + seq!['}']
}

/// The header this service signs under: HS512, type JWT.
pub open spec fn header_json() -> Seq<char> {
    seq![
        '{', '"', 't', 'y', 'p', '"', ':', '"', 'J', 'W', 'T', '"', ',', '"', 'a', 'l', 'g', '"',
        ':', '"', 'H', 'S', '5', '1', '2', '"', '}',
    ]
}

/// An accepted token: one this service would have issued for this
/// user under this key, whose expiry (plus leeway) has not passed
/// `now`.
pub open spec fn spec_token_accepted(
    key: Seq<char>,
    now: u64,
    token: Seq<char>,
    user_id: Seq<char>,
) -> bool {
    exists|e: int|
        0 <= e && token == #[trigger] jwt_of(key, user_id, e) && e + TOKEN_LEEWAY_SECS >= now
}

/// An expired token: authentic under this key, but its expiry plus the
/// leeway lies before `now`.
pub open spec fn spec_token_expired(key: Seq<char>, now: u64, token: Seq<char>) -> bool {
    exists|u: Seq<char>, e: int|
        0 <= e && token == #[trigger] jwt_of(key, u, e) && e + TOKEN_LEEWAY_SECS < now
}

/// The complete token for these claims under this key.
pub open spec fn jwt_of(key: Seq<char>, user_id: Seq<char>, exp: int) -> Seq<char> {
    let message = b64url_str_of(header_json()) + seq!['.'] + b64url_str_of(
        claims_json(user_id, exp),
    );
    message + seq!['.'] + hs512_sig(key, message)
}

fn digit_char_exec(d: u64) -> (r: char)
    requires
        d < 10,
    ensures
        r == digit_char(d as int),
{
    if d == 0 {
        '0'
    } else if d == 1 {
        '1'
    } else if d == 2 {
        '2'
    } else if d == 3 {
        '3'
    } else if d == 4 {
        '4'
    } else if d == 5 {
        '5'
    } else if d == 6 {
        '6'
    } else if d == 7 {
        '7'
    } else if d == 8 {
        '8'
    } else {
        '9'
    }
}

fn push_dec_digits(out: &mut Vec<char>, n: u64)
    ensures
        final(out)@ == old(out)@ + dec_digits(n as int),
    decreases n,
{
    if n < 10 {
        out.push(digit_char_exec(n));
        proof {
            assert(final(out)@ =~= old(out)@ + dec_digits(n as int));
        }
    } else {
        let ghost before = out@;
        push_dec_digits(out, n / 10);
        out.push(digit_char_exec(n % 10));
        proof {
            assert(final(out)@ =~= before + (dec_digits(n as int / 10) + seq![
                digit_char(n as int % 10),
            ]));
        }
    }
}

/// Appends the JSON-escaped form of `s`.
fn push_escaped(out: &mut Vec<char>, s: &Vec<char>)
    ensures
        final(out)@ == old(out)@ + json_escape(s@),
{
    let n = s.len();
    let mut i: usize = 0;
    proof {
        assert(s@.take(0) =~= Seq::<char>::empty());
        assert(out@ =~= out@ + json_escape(s@.take(0)));
    }
    while i < n
        invariant
            i <= n == s@.len(),
            out@ == old(out)@ + json_escape(s@.take(i as int)),
        decreases n - i,
    {
        let c = s[i];
        proof {
            lemma_json_escape_push(s@.take(i as int), c);
            assert(s@.take(i as int + 1) =~= s@.take(i as int).push(c));
        }
        if c == '"' {
            out.push('\\');
            out.push('"');
        } else if c == '\\' {
            out.push('\\');
            out.push('\\');
        } else {
            out.push(c);
        }
        proof {
            assert(out@ =~= old(out)@ + (json_escape(s@.take(i as int)) + json_escape_char(c)));
        }
        i += 1;
    }
    proof {
        assert(s@.take(n as int) =~= s@);
    }
}

/// Whether `s[from..]` starts with `pat`.
fn matches_at(s: &Vec<char>, from: usize, pat: &Vec<char>) -> (r: bool)
    requires
        from + pat@.len() <= s@.len(),
    ensures
        r == (s@.subrange(from as int, from + pat@.len()) == pat@),
{
    let m = pat.len();
    let n = s.len();
    let mut k: usize = 0;
    while k < m
        invariant
            k <= m == pat@.len(),
            from + m <= n == s@.len(),
            forall|j: int| 0 <= j < k ==> #[trigger] s@[from + j] == pat@[j],
        decreases m - k,
    {
        if s[from + k] != pat[k] {
            proof {
                assert(s@.subrange(from as int, from + pat@.len())[k as int] != pat@[k as int]);
            }
            return false;
        }
        k += 1;
    }
    proof {
        assert forall|j: int| 0 <= j < m implies s@.subrange(
            from as int,
            from + pat@.len(),
        )[j] == pat@[j] by {
            assert(s@[from + j] == pat@[j]);
        }
        assert(s@.subrange(from as int, from + pat@.len()) =~= pat@);
    }
    true
}

/// Parses a claims object of exactly the shape this service emits,
/// handing back the user identifier and expiry it was emitted from.
fn parse_claims(s: &Vec<char>) -> (r: Option<(String, u64)>)
    ensures
        r matches Some((uid, exp)) ==> s@ == claims_json(uid@, exp as int),
{
    let n = s.len();
    let prefix = chars_of("{\"userId\":\"");
    proof {
        reveal_strlit("{\"userId\":\"");
        assert(prefix@ =~= claims_prefix());
    }
    if n < 11 {
        return None;
    }
    if !matches_at(s, 0, &prefix) {
        return None;
    }
    let mut uid: Vec<char> = Vec::new();
    let mut i: usize = 11;
    proof {
        assert(s@.subrange(11, 11) =~= json_escape(uid@));
    }
    loop
        invariant
            11 <= i <= n == s@.len(),
            s@.subrange(11, i as int) == json_escape(uid@),
        ensures
            11 <= i <= n == s@.len(),
            s@.subrange(11, i as int) == json_escape(uid@),
            i < n && s@[i as int] == '"',
        decreases n - i,
    {
        if i >= n {
            return None;
        }
        let c = s[i];
        if c == '"' {
            break;
        }
        let ghost uid_old = uid@;
        let step: usize;
        if c == '\\' {
            if i + 1 >= n {
                return None;
            }
            let e = s[i + 1];
            if e == '"' {
                uid.push('"');
                step = 2;
                proof {
                    assert(s@.subrange(i as int, i as int + 2) =~= json_escape_char('"'));
                }
            } else if e == '\\' {
                uid.push('\\');
                step = 2;
                proof {
                    assert(s@.subrange(i as int, i as int + 2) =~= json_escape_char('\\'));
                }
            } else {
                return None;
            }
        } else {
            uid.push(c);
            step = 1;
            proof {
                assert(s@.subrange(i as int, i as int + 1) =~= json_escape_char(c));
            }
        }
        proof {
            let c2 = uid@.last();
            lemma_json_escape_push(uid_old, c2);
            assert(uid@ =~= uid_old.push(c2));
            assert(s@.subrange(11, i as int + step as int) =~= s@.subrange(11, i as int)
                + s@.subrange(i as int, i as int + step as int));
        }
        i += step;
    }
    let end = i;
    let middle = chars_of("\",\"exp\":");
    proof {
        reveal_strlit("\",\"exp\":");
        assert(middle@ =~= claims_middle());
    }
    if n - end < 8 {
        return None;
    }
    if !matches_at(s, end, &middle) {
        return None;
    }
    let dig_from = end + 8;
    let dig_to = n - 1;
    if dig_from >= dig_to {
        return None;
    }
    if s[n - 1] != '}' {
        return None;
    }
    if s[dig_from] == '0' && dig_to - dig_from > 1 {
        return None;
    }
    let exp = match crate::digits::parse_u64_field(s, dig_from, dig_to) {
        Some(v) => v,
        None => {
            return None;
        },
    };
    proof {
        let digits = s@.subrange(dig_from as int, dig_to as int);
        lemma_dec_digits_canonical(digits);
        crate::digits::lemma_digits_val_nonneg(digits);
        assert(exp as int == digits_val(digits));
        assert(dec_digits(exp as int) == digits);
        assert(s@.subrange(0, 11) == claims_prefix());
        assert(s@.subrange(end as int, end as int + 8) == claims_middle());
        assert(seq![s@[n - 1]] =~= seq!['}']);
        assert(s@ =~= s@.subrange(0, 11) + s@.subrange(11, end as int) + s@.subrange(
            end as int,
            end as int + 8,
        ) + s@.subrange(dig_from as int, dig_to as int) + seq![s@[n - 1]]);
        assert(s@ == claims_json(uid@, exp as int));
    }
    Some((string_from_chars(&uid), exp))
}

/// A non-empty digit string without a leading zero denotes its value
/// canonically: writing the value back gives the same characters.
proof fn lemma_dec_digits_canonical(s: Seq<char>)
    requires
        s.len() > 0,
        all_digits(s),
        s.len() > 1 ==> s[0] != '0',
    ensures
        dec_digits(digits_val(s)) == s,
    decreases s.len(),
{
    let v = digits_val(s);
    lemma_digit_char_inverse(s.last());
    if s.len() == 1 {
        assert(s.drop_last().len() == 0);
        assert(digits_val(s.drop_last()) == 0);
        assert(v == digit_val(s[0]));
        assert(dec_digits(v) =~= s);
    } else {
        let head = s.drop_last();
        assert(all_digits(head) && head[0] == s[0]) by {
            assert(forall|i: int| 0 <= i < head.len() ==> #[trigger] head[i] == s[i]);
        }
        lemma_digits_val_positive(head);
        lemma_digits_val_digit_bound(s);
        assert(v == digits_val(head) * 10 + digit_val(s.last()));
        assert(v >= 10);
        assert(v / 10 == digits_val(head) && v % 10 == digit_val(s.last())) by {
            vstd::arithmetic::div_mod::lemma_fundamental_div_mod_converse(
                v,
                10,
                digits_val(head),
                digit_val(s.last()),
            );
        }
        lemma_dec_digits_canonical(head);
        assert(dec_digits(v) =~= head + seq![s.last()]);
        assert(head + seq![s.last()] =~= s);
    }
}

/// A digit string without a leading zero is worth at least one.
proof fn lemma_digits_val_positive(s: Seq<char>)
    requires
        s.len() > 0,
        all_digits(s),
        s[0] != '0',
    ensures
        digits_val(s) >= 1,
    decreases s.len(),
{
    lemma_digit_char_inverse(s.last());
    if s.len() == 1 {
        assert(s.drop_last().len() == 0);
        assert(digits_val(s.drop_last()) == 0);
        assert(is_digit(s[0]) && s[0] != '0');
        assert(digit_val(s[0]) >= 1);
        assert(digits_val(s) == digit_val(s[0]));
    } else {
        let head = s.drop_last();
        assert(all_digits(head) && head[0] == s[0]) by {
            assert(forall|i: int| 0 <= i < head.len() ==> #[trigger] head[i] == s[i]);
        }
        lemma_digits_val_positive(head);
        lemma_digits_val_digit_bound(s);
        assert(digits_val(s) == digits_val(head) * 10 + digit_val(s.last()));
        assert(digits_val(head) * 10 >= 10);
    }
}

/// The final digit contributes a value below ten.
proof fn lemma_digits_val_digit_bound(s: Seq<char>)
    requires
        s.len() > 0,
        all_digits(s),
    ensures
        0 <= digit_val(s.last()) < 10,
{
    assert(is_digit(s[s.len() - 1]));
}

/// A digit character is the canonical writing of its value.
proof fn lemma_digit_char_inverse(c: char)
    requires
        is_digit(c),
    ensures
        digit_char(digit_val(c)) == c,
{
    if c == '0' {
    } else if c == '1' {
    } else if c == '2' {
    } else if c == '3' {
    } else if c == '4' {
    } else if c == '5' {
    } else if c == '6' {
    } else if c == '7' {
    } else if c == '8' {
    } else {
        assert(c == '9');
    }
}

/// Token service backed by HS512-signed JWTs under a shared secret.
/// The clock is injected at construction (seconds of UNIX time), so
/// expiry checking is testable.
#[derive(Debug, Clone)]
pub struct TokenServiceImpl {
    key: String,
    now: u64,
}

impl TokenServiceImpl {
    pub closed spec fn spec_key(&self) -> Seq<char> {
        self.key@
    }

    pub closed spec fn spec_now(&self) -> u64 {
        self.now
    }

    pub fn new(key: String, now: u64) -> (r: Self)
        ensures
            r.spec_key() == key@,
            r.spec_now() == now,
    {
        Self { key, now }
    }

    /// Issues the token `jwt_of` describes for these claims.
    pub fn create_token(&self, claims: &Claims) -> (r: Result<Token, TokenServiceError>)
        ensures
            r matches Ok(t) ==> t@ == jwt_of(self.spec_key(), claims.user_id@, claims.exp as int),
            r matches Err(e) ==> e matches TokenServiceError::SigningError(_),
    {
        let mut json: Vec<char> = Vec::new();
        let prefix = chars_of("{\"userId\":\"");
        let middle = chars_of("\",\"exp\":");
        proof {
            reveal_strlit("{\"userId\":\"");
            reveal_strlit("\",\"exp\":");
            assert(prefix@ =~= claims_prefix());
            assert(middle@ =~= claims_middle());
        }
        let mut prefix = prefix;
        json.append(&mut prefix);
        let uid_chars = chars_of(claims.user_id.0.as_str());
        push_escaped(&mut json, &uid_chars);
        let mut middle = middle;
        json.append(&mut middle);
        push_dec_digits(&mut json, claims.exp as u64);
        json.push('}');
        proof {
            assert(json@ =~= claims_json(claims.user_id@, claims.exp as int));
        }
        let payload = b64url_encode_str(string_from_chars(&json).as_str());
        let header = b64url_encode_str("{\"typ\":\"JWT\",\"alg\":\"HS512\"}");
        proof {
            reveal_strlit("{\"typ\":\"JWT\",\"alg\":\"HS512\"}");
            assert("{\"typ\":\"JWT\",\"alg\":\"HS512\"}"@ =~= header_json());
            reveal_strlit(".");
        }
        let mut message = header;
        message.append(".");
        message.append(payload.as_str());
        proof {
            assert("."@ =~= seq!['.']);
        }
        let sig = match hs512_sign(self.key.as_str(), message.as_str()) {
            Ok(s) => s,
            Err(_) => {
                return Err(TokenServiceError::SigningError("token signing failed".to_owned()));
            },
        };
        let mut token = message;
        token.append(".");
        token.append(sig.as_str());
        Ok(Token(token))
    }

    /// Accepts a token only if it is, character for character, a token
    /// this service would issue under its key — canonical header,
    /// canonical claims, matching HS512 signature — and its expiry,
    /// plus the leeway, has not passed the injected clock.
    pub fn verify_token(&self, token: &Token) -> (r: Result<UserId, TokenServiceError>)
        ensures
            r matches Ok(uid) ==> spec_token_accepted(
                self.spec_key(),
                self.spec_now(),
                token@,
                uid@,
            ),
            r == Err::<UserId, TokenServiceError>(TokenServiceError::TokenExpired)
                ==> spec_token_expired(self.spec_key(), self.spec_now(), token@),
    {
        let chars = chars_of(token.0.as_str());
        let n = chars.len();
        let i = find_first(&chars, 0, '.');
        if i == n {
            return Err(TokenServiceError::TokenInvalid("token is not three parts".to_owned()));
        }
        let j = find_first(&chars, i + 1, '.');
        if j == n {
            return Err(TokenServiceError::TokenInvalid("token is not three parts".to_owned()));
        }
        let header_part = string_of_range(&chars, 0, i);
        let payload_part = string_of_range(&chars, i + 1, j);
        let sig_part = string_of_range(&chars, j + 1, n);
        let message = string_of_range(&chars, 0, j);
        let expected_header = b64url_encode_str("{\"typ\":\"JWT\",\"alg\":\"HS512\"}");
        proof {
            reveal_strlit("{\"typ\":\"JWT\",\"alg\":\"HS512\"}");
            assert("{\"typ\":\"JWT\",\"alg\":\"HS512\"}"@ =~= header_json());
        }
        if !(header_part == expected_header) {
            return Err(TokenServiceError::TokenInvalid("unexpected token header".to_owned()));
        }
        let json = match b64url_decode_str(payload_part.as_str()) {
            Ok(s) => s,
            Err(_) => {
                return Err(
                    TokenServiceError::TokenInvalid("token payload is not readable".to_owned()),
                );
            },
        };
        let json_chars = chars_of(json.as_str());
        let (uid, exp) = match parse_claims(&json_chars) {
            Some(p) => p,
            None => {
                return Err(
                    TokenServiceError::TokenInvalid("token claims are not readable".to_owned()),
                );
            },
        };
        let sig_ok = match hs512_verify_sig(sig_part.as_str(), message.as_str(), self.key.as_str())
            {
            Ok(b) => b,
            Err(_) => {
                return Err(
                    TokenServiceError::UnknownError("signature check failed to run".to_owned()),
                );
            },
        };
        if !sig_ok {
            return Err(TokenServiceError::TokenInvalid("signature mismatch".to_owned()));
        }
        proof {
            assert(token@ == chars@);
            assert(message@ =~= chars@.subrange(0, i as int) + seq!['.'] + chars@.subrange(
                i as int + 1,
                j as int,
            ));
            assert(chars@.subrange(0, i as int) == b64url_str_of(header_json()));
            assert(chars@.subrange(i as int + 1, j as int) == b64url_str_of(
                claims_json(uid@, exp as int),
            ));
            assert(token@ =~= message@ + seq!['.'] + chars@.subrange(j as int + 1, n as int));
            assert(chars@.subrange(j as int + 1, n as int) == hs512_sig(
                self.spec_key(),
                message@,
            ));
            assert(token@ == jwt_of(self.spec_key(), uid@, exp as int));
        }
        if self.now >= TOKEN_LEEWAY_SECS && exp < self.now - TOKEN_LEEWAY_SECS {
            proof {
                assert(spec_token_expired(self.spec_key(), self.spec_now(), token@)) by {
                    assert(0 <= exp as int && token@ == jwt_of(
                        self.spec_key(),
                        uid@,
                        exp as int,
                    ) && exp as int + TOKEN_LEEWAY_SECS < self.spec_now());
                }
            }
            return Err(TokenServiceError::TokenExpired);
        }
        let result_id = UserId(uid);
        proof {
            assert(result_id@ == uid@);
            assert(spec_token_accepted(self.spec_key(), self.spec_now(), token@, result_id@)) by {
                assert(0 <= exp as int && token@ == jwt_of(
                    self.spec_key(),
                    result_id@,
                    exp as int,
                ) && exp as int + TOKEN_LEEWAY_SECS >= self.spec_now());
            }
        }
        Ok(result_id)
    }
}

impl TokenService for TokenServiceImpl {
    fn create(&self, claims: Claims) -> Result<Token, TokenServiceError> {
        self.create_token(&claims)
    }

    fn verify(&self, token: Token) -> Result<UserId, TokenServiceError> {
        self.verify_token(&token)
    }
}

} // verus!
