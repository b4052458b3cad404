//! One-time codes: the HMAC of the time step, dynamic truncation, and the
//! lowest decimal digits of the result.
use vstd::prelude::*;
use hmac::Mac;
use crate::text::{chars_of, contains, contains_chars, low_digits, lemma_low_digits, push_low_digits, string_of};
use crate::totp::{
    algorithm_of, digits_of, is_valid_secret, parse_chars, valid_secret, parse_uri, period_of, valid_digits, Algorithm,
    TOTPError, TotpModel, TOTP,
};

verus! {

/// HMAC-SHA1 of a message under a key.
pub uninterp spec fn hmac_sha1_of(key: Seq<u8>, msg: Seq<u8>) -> Seq<u8>;

/// HMAC-SHA256 of a message under a key.
pub uninterp spec fn hmac_sha256_of(key: Seq<u8>, msg: Seq<u8>) -> Seq<u8>;

/// HMAC-SHA512 of a message under a key.
pub uninterp spec fn hmac_sha512_of(key: Seq<u8>, msg: Seq<u8>) -> Seq<u8>;

/// The bytes that an unpadded RFC 4648 base32 text stands for.
pub uninterp spec fn base32_decoded(s: Seq<char>) -> Option<Seq<u8>>;

pub open spec fn is_upper_base32_char(c: char) -> bool {
    let u = c as u32;
    (65 <= u <= 90) || (50 <= u <= 55)
}

/// Relies on `base32::decode` with the unpadded RFC 4648 alphabet, which
/// accepts exactly the texts made of `A`-`Z` and `2`-`7`.
#[verifier::external_body]
fn decode_base32(s: &str) -> (r: Option<Vec<u8>>)
    ensures
        match r {
            Some(v) => base32_decoded(s@) == Some(v@),
            None => base32_decoded(s@) is None,
        },
        r is Some <==> forall|j: int| 0 <= j < s@.len() ==> is_upper_base32_char(#[trigger] s@[j]),
{
    base32::decode(base32::Alphabet::Rfc4648 { padding: false }, s)
}

/// Relies on `hmac::Hmac<sha1::Sha1>`, which takes keys of any length and
/// yields 20 bytes.
#[verifier::external_body]
fn hmac_sha1(key: &Vec<u8>, msg: &Vec<u8>) -> (r: Vec<u8>)
    ensures
        r@ == hmac_sha1_of(key@, msg@),
        r@.len() == 20,
{
    match <hmac::Hmac<sha1::Sha1> as Mac>::new_from_slice(key.as_slice()) {
        Ok(mut m) => {
            m.update(msg.as_slice());
            m.finalize().into_bytes().to_vec()
        },
        Err(_) => Vec::new(),
    }
}

/// Relies on `hmac::Hmac<sha2::Sha256>`, which takes keys of any length and
/// yields 32 bytes.
#[verifier::external_body]
fn hmac_sha256(key: &Vec<u8>, msg: &Vec<u8>) -> (r: Vec<u8>)
    ensures
        r@ == hmac_sha256_of(key@, msg@),
        r@.len() == 32,
{
    match <hmac::Hmac<sha2::Sha256> as Mac>::new_from_slice(key.as_slice()) {
        Ok(mut m) => {
            m.update(msg.as_slice());
            m.finalize().into_bytes().to_vec()
        },
        Err(_) => Vec::new(),
    }
}

/// Relies on `hmac::Hmac<sha2::Sha512>`, which takes keys of any length and
/// yields 64 bytes.
#[verifier::external_body]
fn hmac_sha512(key: &Vec<u8>, msg: &Vec<u8>) -> (r: Vec<u8>)
    ensures
        r@ == hmac_sha512_of(key@, msg@),
        r@.len() == 64,
{
    match <hmac::Hmac<sha2::Sha512> as Mac>::new_from_slice(key.as_slice()) {
        Ok(mut m) => {
            m.update(msg.as_slice());
            m.finalize().into_bytes().to_vec()
        },
        Err(_) => Vec::new(),
    }
}

pub open spec fn mac_of(a: Algorithm, key: Seq<u8>, msg: Seq<u8>) -> Seq<u8> {
    match a {
        Algorithm::SHA1 => hmac_sha1_of(key, msg),
        Algorithm::SHA256 => hmac_sha256_of(key, msg),
        Algorithm::SHA512 => hmac_sha512_of(key, msg),
    }
}

/// The eight big-endian bytes of a counter.
pub open spec fn counter_bytes(c: u64) -> Seq<u8> {
    seq![
        ((c / 0x100_0000_0000_0000) % 256) as u8,
        ((c / 0x1_0000_0000_0000) % 256) as u8,
        ((c / 0x100_0000_0000) % 256) as u8,
        ((c / 0x1_0000_0000) % 256) as u8,
        ((c / 0x100_0000) % 256) as u8,
        ((c / 0x1_0000) % 256) as u8,
        ((c / 0x100) % 256) as u8,
        (c % 256) as u8,
    ]
}

/// Dynamic truncation: the low four bits of the last byte pick four bytes,
/// read big-endian with the top bit cleared.
pub open spec fn truncated(h: Seq<u8>) -> nat {
    let o = (h.last() % 16) as int;
    ((h[o] % 128) as nat) * 0x100_0000 + (h[o + 1] as nat) * 0x1_0000 + (h[o + 2] as nat) * 0x100
        + (h[o + 3] as nat)
}

/// The code of a time step: the lowest `digits` decimal digits of the
/// truncated HMAC of the step, padded with zeros.
pub open spec fn code_of(a: Algorithm, key: Seq<u8>, step: u64, digits: nat) -> Seq<char> {
    low_digits(truncated(mac_of(a, key, counter_bytes(step))), digits)
}

pub open spec fn upper_char(c: char) -> char {
    if 97 <= (c as u32) <= 122 {
        ((c as u32 - 32) as u8) as char
    } else {
        c
    }
}

pub open spec fn upper(s: Seq<char>) -> Seq<char> {
    Seq::new(s.len(), |i: int| upper_char(s[i]))
}

/// The token of a descriptor at a time in seconds, or why there is none: a
/// secret that is not a non-empty base32 text (in either case) gives no key.
pub open spec fn token_of(m: TotpModel, t: u64) -> Result<Seq<char>, TOTPError> {
    if !valid_digits(digits_of(m)) {
        Err(TOTPError::InvalidDigits)
    } else if period_of(m) == 0 {
        Err(TOTPError::InvalidPeriod)
    } else if !valid_secret(m.secret) {
        Err(TOTPError::GenerationError)
    } else {
        Ok(
            code_of(
                algorithm_of(m),
                base32_decoded(upper(m.secret))->0,
                t / (period_of(m) as u64),
                digits_of(m) as nat,
            ),
        )
    }
}

fn counter_bytes_of(c: u64) -> (r: Vec<u8>)
    ensures
        r@ == counter_bytes(c),
{
    let r = vec![
        ((c / 0x100_0000_0000_0000) % 256) as u8,
        ((c / 0x1_0000_0000_0000) % 256) as u8,
        ((c / 0x100_0000_0000) % 256) as u8,
        ((c / 0x1_0000_0000) % 256) as u8,
        ((c / 0x100_0000) % 256) as u8,
        ((c / 0x1_0000) % 256) as u8,
        ((c / 0x100) % 256) as u8,
        (c % 256) as u8,
    ];
    assert(r@ =~= counter_bytes(c));
    r
}

fn truncate_mac(h: &Vec<u8>) -> (r: u64)
    requires
        h@.len() >= 20,
    ensures
        r == truncated(h@),
{
    let o = (h[h.len() - 1] % 16) as usize;
    (h[o] % 128) as u64 * 0x100_0000 + h[o + 1] as u64 * 0x1_0000 + h[o + 2] as u64 * 0x100 + h[o + 3] as u64
}

/// The code that an HMAC value gives: its dynamic truncation, written as
/// the lowest `digits` decimal digits.
pub fn code_from_mac(mac: &Vec<u8>, digits: u8) -> (r: Vec<char>)
    requires
        mac@.len() >= 20,
    ensures
        r@ == low_digits(truncated(mac@), digits as nat),
        r@.len() == digits,
{
    let v = truncate_mac(mac);
    let mut out: Vec<char> = Vec::new();
    push_low_digits(&mut out, v, digits);
    proof {
        lemma_low_digits(v as nat, digits as nat);
    }
    assert(out@ =~= low_digits(truncated(mac@), digits as nat));
    out
}

/// The code of a time step under a decoded key.
pub fn step_code(a: Algorithm, key: &Vec<u8>, step: u64, digits: u8) -> (r: Vec<char>)
    ensures
        r@ == code_of(a, key@, step, digits as nat),
        r@.len() == digits,
{
    let msg = counter_bytes_of(step);
    let h = match a {
        Algorithm::SHA1 => hmac_sha1(key, &msg),
        Algorithm::SHA256 => hmac_sha256(key, &msg),
        Algorithm::SHA512 => hmac_sha512(key, &msg),
    };
    code_from_mac(&h, digits)
}

fn upper_chars(s: &Vec<char>) -> (r: Vec<char>)
    ensures
        r@ == upper(s@),
{
    let mut r: Vec<char> = Vec::new();
    let mut i: usize = 0;
    while i < s.len()
        invariant
            0 <= i <= s.len(),
            r@ =~= upper(s@).take(i as int),
        decreases s.len() - i,
    {
        let c = s[i];
        let u = c as u32;
        if 97 <= u && u <= 122 {
            r.push(((u - 32) as u8) as char);
        } else {
            r.push(c);
        }
        i = i + 1;
    }
    assert(r@ =~= upper(s@));
    r
}

impl TOTP {
    /// The token at `current_time`, in seconds since the epoch.
    pub fn generate_token(&self, current_time: u64) -> (r: Result<String, TOTPError>)
        ensures
            match token_of(self@, current_time) {
                Ok(t) => r is Ok && r->Ok_0@ == t,
                Err(e) => r == Err::<String, TOTPError>(e),
            },
    {
        let digits = match self.digits {
            Some(d) => d,
            None => 6,
        };
        let period = match self.period {
            Some(p) => p,
            None => 30,
        };
        let algorithm = match self.algorithm {
            Some(a) => a,
            None => Algorithm::SHA1,
        };
        if digits < 6 || digits > 10 {
            return Err(TOTPError::InvalidDigits);
        }
        if period == 0 {
            return Err(TOTPError::InvalidPeriod);
        }
        let chars = chars_of(self.secret.as_str());
        if !is_valid_secret(&chars) {
            return Err(TOTPError::GenerationError);
        }
        let upper_secret = upper_chars(&chars);
        assert forall|j: int| 0 <= j < upper_secret@.len() implies is_upper_base32_char(
            #[trigger] upper_secret@[j],
        ) by {
            assert(crate::totp::is_base32_char(chars@[j]));
        }
        let secret = string_of(&upper_secret);
        let key = match decode_base32(secret.as_str()) {
            Some(k) => k,
            None => {
                return Err(TOTPError::GenerationError);
            },
        };
        let code = step_code(algorithm, &key, current_time / (period as u64), digits);
        Ok(string_of(&code))
    }
}

#[derive(Clone, Debug)]
/// A token together with the descriptor and the time it was made for.
pub struct TotpTokenResult {
    pub totp: TOTP,
    pub token: String,
    pub timestamp: u64,
}

pub open spec fn otpauth() -> Seq<char> {
    seq!['o', 't', 'p', 'a', 'u', 't', 'h']
}

/// A descriptor with this secret and every parameter at its default.
pub open spec fn bare_model(secret: Seq<char>) -> TotpModel {
    TotpModel {
        label: None,
        secret,
        issuer: None,
        algorithm: None,
        digits: None,
        period: None,
    }
}

/// A text that mentions `otpauth` is read as a URI; any other is a secret.
pub open spec fn descriptor_for(input: Seq<char>) -> Result<TotpModel, TOTPError> {
    if contains(input, otpauth()) {
        parse_uri(input)
    } else {
        Ok(bare_model(input))
    }
}

/// Makes tokens from a URI or a bare secret.
pub struct TotpTokenGenerator;

impl TotpTokenGenerator {
    pub fn new() -> (r: Self) {
        TotpTokenGenerator
    }

    /// The token for `uri` at `current_time`.
    pub fn generate_token(&self, uri: String, current_time: u64) -> (r: Result<TotpTokenResult, TOTPError>)
        ensures
            match descriptor_for(uri@) {
                Err(e) => r is Err && r->Err_0 == e,
                Ok(m) => match token_of(m, current_time) {
                    Err(e) => r is Err && r->Err_0 == e,
                    Ok(t) => r is Ok && r->Ok_0.totp@ == m && r->Ok_0.token@ == t
                        && r->Ok_0.timestamp == current_time,
                },
            },
    {
        let chars = chars_of(uri.as_str());
        let marker = vec!['o', 't', 'p', 'a', 'u', 't', 'h'];
        assert(marker@ =~= otpauth());
        let totp = if contains_chars(&chars, &marker) {
            match parse_chars(&chars) {
                Ok(t) => t,
                Err(e) => {
                    return Err(e);
                },
            }
        } else {
            TOTP { label: None, secret: uri, issuer: None, algorithm: None, digits: None, period: None }
        };
        let token = match totp.generate_token(current_time) {
            Ok(t) => t,
            Err(e) => {
                return Err(e);
            },
        };
        Ok(TotpTokenResult { totp, token, timestamp: current_time })
    }
}

} // verus!
