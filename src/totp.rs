//! The TOTP descriptor, its `otpauth://` URI form, and the parser and
//! serializer between the two.
use vstd::prelude::*;
use crate::text::{
    all_digits, chars_of, decode_escapes, find_char, find_param, has_prefix, index_of,
    lemma_index_of, numeral, numeral_value, parse_decimal, percent_decode, percent_encode,
    push_encoded, push_numeral, query_param, same_chars, starts_with, string_of,
};

verus! {

/// The hash function under the HMAC of a one-time code.
#[derive(Clone, Copy, Debug, PartialEq, Eq, Structural)]
pub enum Algorithm {
    SHA1,
    SHA256,
    SHA512,
}

pub type TOTPAlgorithm = Algorithm;

/// The ways in which handling a TOTP URI or computing a code can fail.
#[derive(Clone, Copy, Debug, PartialEq, Eq, Structural)]
pub enum TOTPError {
    MalformedUri,
    InvalidSecret,
    UnsupportedAlgorithm,
    InvalidDigits,
    InvalidPeriod,
    EditRejected,
    GenerationError,
}

impl TOTPError {
    /// A human-readable description; it never holds secret material.
    pub fn message(&self) -> &'static str {
        match self {
            TOTPError::MalformedUri => "the URI is not an otpauth://totp URI",
            TOTPError::InvalidSecret => "the secret is missing or is not base32",
            TOTPError::UnsupportedAlgorithm => "the algorithm is not supported",
            TOTPError::InvalidDigits => "the number of digits is out of range",
            TOTPError::InvalidPeriod => "the period is not a positive number of seconds",
            TOTPError::EditRejected => "the edit changes the secret",
            TOTPError::GenerationError => "the secret cannot be decoded",
        }
    }
}

/// A TOTP credential. Absent parameters take their defaults: SHA1, six
/// digits, thirty seconds.
#[derive(Clone, Debug)]
pub struct TOTP {
    pub label: Option<String>,
    pub secret: String,
    pub issuer: Option<String>,
    pub algorithm: Option<Algorithm>,
    pub digits: Option<u8>,
    pub period: Option<u16>,
}

/// The mathematical value of a [`TOTP`].
pub struct TotpModel {
    pub label: Option<Seq<char>>,
    pub secret: Seq<char>,
    pub issuer: Option<Seq<char>>,
    pub algorithm: Option<Algorithm>,
    pub digits: Option<u8>,
    pub period: Option<u16>,
}

pub open spec fn text_view(o: Option<String>) -> Option<Seq<char>> {
    match o {
        Some(s) => Some(s@),
        None => None,
    }
}

impl View for TOTP {
    type V = TotpModel;

    open spec fn view(&self) -> TotpModel {
        TotpModel {
            label: text_view(self.label),
            secret: self.secret@,
            issuer: text_view(self.issuer),
            algorithm: self.algorithm,
            digits: self.digits,
            period: self.period,
        }
    }
}

pub open spec fn totp_result_view(r: Result<TOTP, TOTPError>) -> Result<TotpModel, TOTPError> {
    match r {
        Ok(t) => Ok(t@),
        Err(e) => Err(e),
    }
}

// ------------------------------------------------------------------ the model

pub open spec fn is_base32_char(c: char) -> bool {
    let u = c as u32;
    (65 <= u <= 90) || (97 <= u <= 122) || (50 <= u <= 55)
}

/// A secret is a non-empty base32 text, in either case.
pub open spec fn valid_secret(s: Seq<char>) -> bool {
    s.len() > 0 && forall|j: int| 0 <= j < s.len() ==> is_base32_char(#[trigger] s[j])
}

pub open spec fn valid_digits(d: u8) -> bool {
    6 <= d <= 10
}

pub open spec fn valid_period(p: u16) -> bool {
    p >= 1
}

/// A descriptor that its URI form can carry unchanged.
pub open spec fn valid_model(m: TotpModel) -> bool {
    &&& valid_secret(m.secret)
    &&& (m.digits matches Some(d) ==> valid_digits(d))
    &&& (m.period matches Some(p) ==> valid_period(p))
}

pub open spec fn algorithm_of(m: TotpModel) -> Algorithm {
    match m.algorithm {
        Some(a) => a,
        None => Algorithm::SHA1,
    }
}

pub open spec fn digits_of(m: TotpModel) -> u8 {
    match m.digits {
        Some(d) => d,
        None => 6,
    }
}

pub open spec fn period_of(m: TotpModel) -> u16 {
    match m.period {
        Some(p) => p,
        None => 30,
    }
}

// ------------------------------------------------------------ the URI grammar

pub open spec fn uri_head() -> Seq<char> {
    seq!['o', 't', 'p', 'a', 'u', 't', 'h', ':', '/', '/', 't', 'o', 't', 'p']
}

pub open spec fn key_secret() -> Seq<char> {
    seq!['s', 'e', 'c', 'r', 'e', 't']
}

pub open spec fn key_issuer() -> Seq<char> {
    seq!['i', 's', 's', 'u', 'e', 'r']
}

pub open spec fn key_algorithm() -> Seq<char> {
    seq!['a', 'l', 'g', 'o', 'r', 'i', 't', 'h', 'm']
}

pub open spec fn key_digits() -> Seq<char> {
    seq!['d', 'i', 'g', 'i', 't', 's']
}

pub open spec fn key_period() -> Seq<char> {
    seq!['p', 'e', 'r', 'i', 'o', 'd']
}

pub open spec fn algorithm_name(a: Algorithm) -> Seq<char> {
    match a {
        Algorithm::SHA1 => seq!['S', 'H', 'A', '1'],
        Algorithm::SHA256 => seq!['S', 'H', 'A', '2', '5', '6'],
        Algorithm::SHA512 => seq!['S', 'H', 'A', '5', '1', '2'],
    }
}

pub open spec fn algorithm_named(s: Seq<char>) -> Option<Algorithm> {
    if s == algorithm_name(Algorithm::SHA1) {
        Some(Algorithm::SHA1)
    } else if s == algorithm_name(Algorithm::SHA256) {
        Some(Algorithm::SHA256)
    } else if s == algorithm_name(Algorithm::SHA512) {
        Some(Algorithm::SHA512)
    } else {
        None
    }
}

/// What follows `otpauth://totp`: a `/` and the label, or directly the query.
pub open spec fn uri_rest(s: Seq<char>) -> Seq<char> {
    let after = s.skip(uri_head().len() as int);
    if after.len() > 0 && after[0] == '/' {
        after.drop_first()
    } else {
        after
    }
}

pub open spec fn well_headed(s: Seq<char>) -> bool {
    let after = s.skip(uri_head().len() as int);
    has_prefix(s, uri_head()) && (after.len() == 0 || after[0] == '/' || after[0] == '?')
}

pub open spec fn label_part(rest: Seq<char>) -> Seq<char> {
    rest.take(index_of(rest, '?'))
}

pub open spec fn query_part(rest: Seq<char>) -> Seq<char> {
    let q = index_of(rest, '?');
    if q < rest.len() {
        rest.skip(q + 1)
    } else {
        Seq::empty()
    }
}

pub open spec fn decoded_text(raw: Option<Seq<char>>) -> Option<Seq<char>> {
    match raw {
        Some(v) => Some(percent_decode(v)),
        None => None,
    }
}

/// The raw label: present exactly when `otpauth://totp` is followed by `/`.
pub open spec fn raw_label(s: Seq<char>) -> Option<Seq<char>> {
    let after = s.skip(uri_head().len() as int);
    if after.len() > 0 && after[0] == '/' {
        Some(label_part(uri_rest(s)))
    } else {
        None
    }
}

pub open spec fn number_in(v: Seq<char>, lo: int, hi: int) -> bool {
    v.len() > 0 && all_digits(v) && lo <= numeral_value(v) <= hi
}

/// The descriptor held by a label and a query, or the first error among
/// secret, algorithm, digits and period.
pub open spec fn model_of_parts(label: Option<Seq<char>>, query: Seq<char>) -> Result<TotpModel, TOTPError> {
    let secret = query_param(query, key_secret());
    let algorithm = query_param(query, key_algorithm());
    let digits = query_param(query, key_digits());
    let period = query_param(query, key_period());
    if !(secret matches Some(s) && valid_secret(s)) {
        Err(TOTPError::InvalidSecret)
    } else if algorithm matches Some(a) && algorithm_named(a) is None {
        Err(TOTPError::UnsupportedAlgorithm)
    } else if digits matches Some(d) && !number_in(d, 6, 10) {
        Err(TOTPError::InvalidDigits)
    } else if period matches Some(p) && !number_in(p, 1, 0xffff) {
        Err(TOTPError::InvalidPeriod)
    } else {
        Ok(
            TotpModel {
                label: decoded_text(label),
                secret: secret->0,
                issuer: decoded_text(query_param(query, key_issuer())),
                algorithm: match algorithm {
                    Some(a) => algorithm_named(a),
                    None => None,
                },
                digits: match digits {
                    Some(d) => Some(numeral_value(d) as u8),
                    None => None,
                },
                period: match period {
                    Some(p) => Some(numeral_value(p) as u16),
                    None => None,
                },
            },
        )
    }
}

/// The descriptor that a URI text denotes. The form is
/// `otpauth://totp/LABEL?secret=..&issuer=..&algorithm=..&digits=..&period=..`,
/// where the `/LABEL` may be missing, parameters may come in any order, the
/// first of a repeated parameter counts, and others are ignored.
pub open spec fn parse_uri(s: Seq<char>) -> Result<TotpModel, TOTPError> {
    if !well_headed(s) {
        Err(TOTPError::MalformedUri)
    } else {
        model_of_parts(raw_label(s), query_part(uri_rest(s)))
    }
}

// ----------------------------------------------------------------- the parser

fn uri_head_chars() -> (r: Vec<char>)
    ensures
        r@ == uri_head(),
{
    let r = vec!['o', 't', 'p', 'a', 'u', 't', 'h', ':', '/', '/', 't', 'o', 't', 'p'];
    assert(r@ =~= uri_head());
    r
}

pub(crate) fn key_chars(k: u8) -> (r: Vec<char>)
    requires
        k < 5,
    ensures
        k == 0 ==> r@ == key_secret(),
        k == 1 ==> r@ == key_issuer(),
        k == 2 ==> r@ == key_algorithm(),
        k == 3 ==> r@ == key_digits(),
        k == 4 ==> r@ == key_period(),
{
    let r = if k == 0 {
        vec!['s', 'e', 'c', 'r', 'e', 't']
    } else if k == 1 {
        vec!['i', 's', 's', 'u', 'e', 'r']
    } else if k == 2 {
        vec!['a', 'l', 'g', 'o', 'r', 'i', 't', 'h', 'm']
    } else if k == 3 {
        vec!['d', 'i', 'g', 'i', 't', 's']
    } else {
        vec!['p', 'e', 'r', 'i', 'o', 'd']
    };
    assert(k == 0 ==> r@ =~= key_secret());
    assert(k == 1 ==> r@ =~= key_issuer());
    assert(k == 2 ==> r@ =~= key_algorithm());
    assert(k == 3 ==> r@ =~= key_digits());
    assert(k == 4 ==> r@ =~= key_period());
    r
}

pub(crate) fn algorithm_chars(a: Algorithm) -> (r: Vec<char>)
    ensures
        r@ == algorithm_name(a),
{
    let r = match a {
        Algorithm::SHA1 => vec!['S', 'H', 'A', '1'],
        Algorithm::SHA256 => vec!['S', 'H', 'A', '2', '5', '6'],
        Algorithm::SHA512 => vec!['S', 'H', 'A', '5', '1', '2'],
    };
    assert(r@ =~= algorithm_name(a));
    r
}

fn algorithm_from(s: &Vec<char>) -> (r: Option<Algorithm>)
    ensures
        r == algorithm_named(s@),
{
    if same_chars(s, &algorithm_chars(Algorithm::SHA1)) {
        Some(Algorithm::SHA1)
    } else if same_chars(s, &algorithm_chars(Algorithm::SHA256)) {
        Some(Algorithm::SHA256)
    } else if same_chars(s, &algorithm_chars(Algorithm::SHA512)) {
        Some(Algorithm::SHA512)
    } else {
        None
    }
}

pub(crate) fn is_valid_secret(s: &Vec<char>) -> (r: bool)
    ensures
        r == valid_secret(s@),
{
    if s.len() == 0 {
        return false;
    }
    let mut i: usize = 0;
    while i < s.len()
        invariant
            0 <= i <= s.len(),
            forall|j: int| 0 <= j < i ==> is_base32_char(#[trigger] s@[j]),
        decreases s.len() - i,
    {
        let u = s[i] as u32;
        if !((65 <= u && u <= 90) || (97 <= u && u <= 122) || (50 <= u && u <= 55)) {
            assert(!is_base32_char(s@[i as int]));
            return false;
        }
        i = i + 1;
    }
    true
}

fn decode_text(raw: Option<Vec<char>>) -> (r: Option<String>)
    ensures
        text_view(r) == decoded_text(
            match raw {
                Some(v) => Some(v@),
                None => None,
            },
        ),
{
    match raw {
        Some(v) => Some(string_of(&decode_escapes(&v))),
        None => None,
    }
}

/// Builds the descriptor from the raw label and the query of a URI.
fn totp_of_parts(label: Option<Vec<char>>, query: &Vec<char>) -> (r: Result<TOTP, TOTPError>)
    ensures
        totp_result_view(r) == model_of_parts(chars_view(label), query@),
{
    let secret = match find_param(query, &key_chars(0)) {
        Some(v) => v,
        None => {
            return Err(TOTPError::InvalidSecret);
        },
    };
    if !is_valid_secret(&secret) {
        return Err(TOTPError::InvalidSecret);
    }
    let ghost q = query@;
    assert(query_param(q, key_secret()) == Some(secret@));
    let algorithm = match find_param(query, &key_chars(2)) {
        Some(v) => match algorithm_from(&v) {
            Some(a) => Some(a),
            None => {
                return Err(TOTPError::UnsupportedAlgorithm);
            },
        },
        None => None,
    };
    assert(!(query_param(q, key_algorithm()) matches Some(a) && algorithm_named(a) is None));
    assert(algorithm == match query_param(q, key_algorithm()) {
        Some(a) => algorithm_named(a),
        None => None,
    });
    let digits = match find_param(query, &key_chars(3)) {
        Some(v) => match parse_decimal(&v, 10) {
            Some(d) => {
                if d < 6 {
                    return Err(TOTPError::InvalidDigits);
                }
                Some(d as u8)
            },
            None => {
                return Err(TOTPError::InvalidDigits);
            },
        },
        None => None,
    };
    assert(!(query_param(q, key_digits()) matches Some(d) && !number_in(d, 6, 10)));
    assert(digits == match query_param(q, key_digits()) {
        Some(d) => Some(numeral_value(d) as u8),
        None => None::<u8>,
    });
    let period = match find_param(query, &key_chars(4)) {
        Some(v) => match parse_decimal(&v, 0xffff) {
            Some(p) => {
                if p < 1 {
                    return Err(TOTPError::InvalidPeriod);
                }
                Some(p as u16)
            },
            None => {
                return Err(TOTPError::InvalidPeriod);
            },
        },
        None => None,
    };
    assert(!(query_param(q, key_period()) matches Some(p) && !number_in(p, 1, 0xffff)));
    assert(period == match query_param(q, key_period()) {
        Some(p) => Some(numeral_value(p) as u16),
        None => None::<u16>,
    });
    let issuer = decode_text(find_param(query, &key_chars(1)));
    let label = decode_text(label);
    Ok(
        TOTP {
            label,
            secret: string_of(&secret),
            issuer,
            algorithm,
            digits,
            period,
        },
    )
}

/// Splits a URI into its raw label and its query, if it is well headed.
pub(crate) fn split_uri(s: &Vec<char>) -> (r: Option<(Option<Vec<char>>, Vec<char>)>)
    ensures
        r is None <==> !well_headed(s@),
        r matches Some(p) ==> chars_view(p.0) == raw_label(s@) && p.1@ == query_part(uri_rest(s@)),
{
    let head = uri_head_chars();
    if !starts_with(s, &head) {
        return None;
    }
    let n = head.len();
    let mut start = n;
    let ghost after = s@.skip(n as int);
    let mut has_label = false;
    if s.len() > n {
        let c = s[n];
        if c == '/' {
            start = n + 1;
            has_label = true;
            assert(after.drop_first() =~= s@.skip(start as int));
        } else if c != '?' {
            return None;
        }
    }
    assert(uri_rest(s@) =~= s@.skip(start as int));
    let ghost rest = s@.skip(start as int);
    let q = find_char(s, start, '?');
    proof {
        lemma_index_of(rest, '?');
    }
    let label = if has_label {
        let l = crate::text::copy_range(s, start, q);
        assert(l@ =~= label_part(rest));
        Some(l)
    } else {
        None
    };
    let query = if q < s.len() {
        crate::text::copy_range(s, q + 1, s.len())
    } else {
        Vec::new()
    };
    assert(query@ =~= query_part(rest));
    Some((label, query))
}

/// Parses the characters of a URI.
pub(crate) fn parse_chars(s: &Vec<char>) -> (r: Result<TOTP, TOTPError>)
    ensures
        totp_result_view(r) == parse_uri(s@),
{
    match split_uri(s) {
        None => Err(TOTPError::MalformedUri),
        Some((label, query)) => totp_of_parts(label, &query),
    }
}

impl TOTP {
    /// Parses an `otpauth://totp` URI.
    pub fn from_uri(uri: &str) -> (r: Result<TOTP, TOTPError>)
        ensures
            totp_result_view(r) == parse_uri(uri@),
    {
        parse_chars(&chars_of(uri))
    }
}

// ------------------------------------------------------------- the URI form

pub open spec fn param_text(key: Seq<char>, value: Seq<char>) -> Seq<char> {
    key + seq!['='] + value
}

pub open spec fn optional_param(key: Seq<char>, value: Option<Seq<char>>) -> Seq<Seq<char>> {
    match value {
        Some(v) => seq![param_text(key, v)],
        None => Seq::empty(),
    }
}

/// The parameters of the canonical URI, in their fixed order; absent ones
/// are left out.
pub open spec fn uri_params(m: TotpModel) -> Seq<Seq<char>> {
    seq![param_text(key_secret(), m.secret)] + (optional_param(
        key_issuer(),
        match m.issuer {
            Some(i) => Some(percent_encode(i)),
            None => None,
        },
    ) + (optional_param(
        key_algorithm(),
        match m.algorithm {
            Some(a) => Some(algorithm_name(a)),
            None => None,
        },
    ) + (optional_param(
        key_digits(),
        match m.digits {
            Some(d) => Some(numeral(d as nat)),
            None => None,
        },
    ) + optional_param(
        key_period(),
        match m.period {
            Some(p) => Some(numeral(p as nat)),
            None => None,
        },
    ))))
}

/// The pieces joined by `&`.
pub open spec fn join_params(ps: Seq<Seq<char>>) -> Seq<char>
    decreases ps.len(),
{
    if ps.len() == 0 {
        Seq::empty()
    } else if ps.len() == 1 {
        ps[0]
    } else {
        ps[0] + seq!['&'] + join_params(ps.drop_first())
    }
}

/// `/` and the escaped label, or nothing when there is no label.
pub open spec fn label_segment(m: TotpModel) -> Seq<char> {
    match m.label {
        Some(l) => seq!['/'] + percent_encode(l),
        None => Seq::empty(),
    }
}

/// The canonical URI of a descriptor.
pub open spec fn uri_of(m: TotpModel) -> Seq<char> {
    uri_head() + label_segment(m) + seq!['?'] + join_params(
        uri_params(m),
    )
}

pub open spec fn view_all(ps: Seq<Vec<char>>) -> Seq<Seq<char>> {
    Seq::new(ps.len(), |i: int| ps[i]@)
}

/// Appends the pieces from `from` on, joined by `&`.
fn push_joined(out: &mut Vec<char>, ps: &Vec<Vec<char>>, from: usize)
    requires
        from < ps.len(),
    ensures
        final(out)@ == old(out)@ + join_params(view_all(ps@).skip(from as int)),
    decreases ps.len() - from,
{
    let ghost rest = view_all(ps@).skip(from as int);
    crate::text::append_chars(out, &ps[from]);
    if from + 1 < ps.len() {
        out.push('&');
        push_joined(out, ps, from + 1);
        assert(rest.drop_first() =~= view_all(ps@).skip(from + 1));
    } else {
        assert(rest.len() == 1);
    }
    assert(final(out)@ =~= old(out)@ + join_params(rest));
}

fn param_chars(k: u8, value: &Vec<char>) -> (r: Vec<char>)
    requires
        k < 5,
    ensures
        k == 0 ==> r@ == param_text(key_secret(), value@),
        k == 1 ==> r@ == param_text(key_issuer(), value@),
        k == 2 ==> r@ == param_text(key_algorithm(), value@),
        k == 3 ==> r@ == param_text(key_digits(), value@),
        k == 4 ==> r@ == param_text(key_period(), value@),
{
    let mut r = key_chars(k);
    r.push('=');
    crate::text::append_chars(&mut r, value);
    r
}

fn numeral_chars(n: u64) -> (r: Vec<char>)
    ensures
        r@ == numeral(n as nat),
{
    let mut r: Vec<char> = Vec::new();
    push_numeral(&mut r, n);
    assert(r@ =~= numeral(n as nat));
    r
}

fn encoded_chars(s: &String) -> (r: Vec<char>)
    ensures
        r@ == percent_encode(s@),
{
    let mut r: Vec<char> = Vec::new();
    push_encoded(&mut r, &chars_of(s.as_str()));
    assert(r@ =~= percent_encode(s@));
    r
}

pub open spec fn key_of(k: u8) -> Seq<char> {
    if k == 0 {
        key_secret()
    } else if k == 1 {
        key_issuer()
    } else if k == 2 {
        key_algorithm()
    } else if k == 3 {
        key_digits()
    } else {
        key_period()
    }
}

pub open spec fn chars_view(o: Option<Vec<char>>) -> Option<Seq<char>> {
    match o {
        Some(v) => Some(v@),
        None => None,
    }
}

fn push_optional(ps: &mut Vec<Vec<char>>, k: u8, value: Option<Vec<char>>)
    requires
        0 < k < 5,
    ensures
        view_all(final(ps)@) == view_all(old(ps)@) + optional_param(key_of(k), chars_view(value)),
{
    match value {
        Some(v) => {
            ps.push(param_chars(k, &v));
        },
        None => {},
    }
    assert(view_all(final(ps)@) =~= view_all(old(ps)@) + optional_param(key_of(k), chars_view(value)));
}

impl TOTP {
    fn uri_param_list(&self) -> (r: Vec<Vec<char>>)
        ensures
            view_all(r@) == uri_params(self@),
            r@.len() > 0,
    {
        let mut ps: Vec<Vec<char>> = Vec::new();
        ps.push(param_chars(0, &chars_of(self.secret.as_str())));
        let ghost v0 = view_all(ps@);
        assert(v0 =~= seq![param_text(key_secret(), self@.secret)]);
        let issuer = match &self.issuer {
            Some(i) => Some(encoded_chars(i)),
            None => None,
        };
        push_optional(&mut ps, 1, issuer);
        let ghost v1 = view_all(ps@);
        let algorithm = match self.algorithm {
            Some(a) => Some(algorithm_chars(a)),
            None => None,
        };
        push_optional(&mut ps, 2, algorithm);
        let ghost v2 = view_all(ps@);
        let digits = match self.digits {
            Some(d) => Some(numeral_chars(d as u64)),
            None => None,
        };
        push_optional(&mut ps, 3, digits);
        let ghost v3 = view_all(ps@);
        let period = match self.period {
            Some(p) => Some(numeral_chars(p as u64)),
            None => None,
        };
        push_optional(&mut ps, 4, period);
        assert(view_all(ps@) =~= uri_params(self@));
        ps
    }

    /// The canonical URI: `otpauth://totp/`, the escaped label, then the
    /// secret and the parameters that are present.
    pub fn to_uri(&self) -> (r: String)
        ensures
            r@ == uri_of(self@),
    {
        let ps = self.uri_param_list();
        let mut out = uri_head_chars();
        match &self.label {
            Some(l) => {
                out.push('/');
                push_encoded(&mut out, &chars_of(l.as_str()));
            },
            None => {},
        }
        out.push('?');
        push_joined(&mut out, &ps, 0);
        assert(view_all(ps@).skip(0) =~= view_all(ps@));
        assert(out@ =~= uri_of(self@));
        string_of(&out)
    }
}

} // verus!
