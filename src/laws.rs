//! Laws that relate the parser, the serializer, the sanitizer and the token
//! generator.
use vstd::prelude::*;
use crate::text::{
    all_digits, index_of, lemma_index_of_concat, lemma_low_digits, lemma_numeral,
    lemma_percent_round_trip, lemma_split_on_concat, lemma_split_on_single, lookup, needs_escape,
    numeral, numeral_value, pair_key, pair_value, percent_decode, percent_encode, query_param,
    split_on,
};
use crate::totp::{
    algorithm_name, algorithm_named, decoded_text, digits_of, raw_label, join_params, key_algorithm, key_digits,
    key_issuer, key_period, key_secret, label_part, label_segment, optional_param, param_text,
    parse_uri, period_of, query_part, uri_head, uri_of, uri_params, uri_rest, valid_model,
    valid_secret, well_headed, Algorithm, TOTPError, TotpModel,
};
use crate::otp::token_of;
use crate::sanitizer::{saved_form, secret_of};

verus! {

pub open spec fn free_of(s: Seq<char>, c: char) -> bool {
    forall|j: int| 0 <= j < s.len() ==> s[j] != c
}

proof fn lemma_free_of_concat(a: Seq<char>, b: Seq<char>, c: char)
    requires
        free_of(a, c),
        free_of(b, c),
    ensures
        free_of(a + b, c),
{
    assert forall|j: int| 0 <= j < (a + b).len() implies (a + b)[j] != c by {
        if j >= a.len() {
            assert((a + b)[j] == b[j - a.len()]);
        }
    }
}

proof fn lemma_encoded_free(s: Seq<char>)
    ensures
        free_of(percent_encode(s), '&'),
        free_of(percent_encode(s), '?'),
        percent_decode(percent_encode(s)) == s,
        s.len() > 0 ==> percent_encode(s).len() > 0,
{
    lemma_percent_round_trip(s);
    assert(needs_escape('&') && needs_escape('?'));
}

proof fn lemma_param(k: Seq<char>, v: Seq<char>)
    requires
        free_of(k, '='),
        free_of(k, '&'),
        free_of(v, '&'),
    ensures
        pair_key(param_text(k, v)) == k,
        pair_value(param_text(k, v)) == v,
        free_of(param_text(k, v), '&'),
{
    let p = param_text(k, v);
    assert(p =~= k + (seq!['='] + v));
    lemma_index_of_concat(k, seq!['='] + v, '=');
    assert(p.take(k.len() as int) =~= k);
    assert(p.skip(k.len() as int + 1) =~= v);
    lemma_free_of_concat(k, seq!['='], '&');
    lemma_free_of_concat(k + seq!['='], v, '&');
}

proof fn lemma_join_split(ps: Seq<Seq<char>>)
    requires
        ps.len() >= 1,
        forall|i: int| 0 <= i < ps.len() ==> free_of(#[trigger] ps[i], '&'),
    ensures
        split_on(join_params(ps), '&') == ps,
    decreases ps.len(),
{
    if ps.len() == 1 {
        lemma_split_on_single(ps[0], '&');
        assert(seq![ps[0]] =~= ps);
    } else {
        let rest = ps.drop_first();
        assert forall|i: int| 0 <= i < rest.len() implies free_of(#[trigger] rest[i], '&') by {
            assert(rest[i] == ps[i + 1]);
        }
        lemma_join_split(rest);
        lemma_split_on_concat(ps[0], join_params(rest), '&');
        assert(seq![ps[0]] + rest =~= ps);
    }
}

proof fn lemma_lookup_opt(key: Seq<char>, o: Option<Seq<char>>, rest: Seq<Seq<char>>, k: Seq<char>)
    requires
        free_of(key, '='),
        free_of(key, '&'),
        o matches Some(v) ==> free_of(v, '&'),
    ensures
        lookup(optional_param(key, o) + rest, k) == (if o is Some && key == k {
            Some(o->0)
        } else {
            lookup(rest, k)
        }),
{
    match o {
        Some(v) => {
            lemma_param(key, v);
            let s = optional_param(key, o) + rest;
            assert(s[0] == param_text(key, v));
            assert(s.drop_first() =~= rest);
        },
        None => {
            assert(optional_param(key, o) + rest =~= rest);
        },
    }
}

proof fn lemma_keys()
    ensures
        free_of(key_secret(), '=') && free_of(key_secret(), '&'),
        free_of(key_issuer(), '=') && free_of(key_issuer(), '&'),
        free_of(key_algorithm(), '=') && free_of(key_algorithm(), '&'),
        free_of(key_digits(), '=') && free_of(key_digits(), '&'),
        free_of(key_period(), '=') && free_of(key_period(), '&'),
        key_secret() != key_issuer() && key_secret() != key_algorithm(),
        key_secret() != key_digits() && key_secret() != key_period(),
        key_issuer() != key_algorithm() && key_issuer() != key_digits(),
        key_issuer() != key_period() && key_algorithm() != key_digits(),
        key_algorithm() != key_period() && key_digits() != key_period(),
        forall|a: Algorithm| algorithm_named(#[trigger] algorithm_name(a)) == Some(a),
        forall|a: Algorithm| free_of(#[trigger] algorithm_name(a), '&'),
{
    assert(key_secret()[0] != key_issuer()[0]);
    assert(key_secret()[0] != key_algorithm()[0]);
    assert(key_secret()[0] != key_digits()[0]);
    assert(key_secret()[0] != key_period()[0]);
    assert(key_issuer()[0] != key_algorithm()[0]);
    assert(key_issuer()[0] != key_digits()[0]);
    assert(key_issuer()[0] != key_period()[0]);
    assert(key_algorithm()[0] != key_digits()[0]);
    assert(key_algorithm()[0] != key_period()[0]);
    assert(key_digits()[0] != key_period()[0]);
    assert(algorithm_name(Algorithm::SHA1).len() != algorithm_name(Algorithm::SHA256).len());
    assert(algorithm_name(Algorithm::SHA1).len() != algorithm_name(Algorithm::SHA512).len());
    assert(algorithm_name(Algorithm::SHA256)[3] != algorithm_name(Algorithm::SHA512)[3]);
}

proof fn lemma_numeral_free(n: nat)
    ensures
        free_of(numeral(n), '&'),
        all_digits(numeral(n)),
        numeral(n).len() > 0,
        numeral_value(numeral(n)) == n,
{
    lemma_numeral(n);
    assert forall|j: int| 0 <= j < numeral(n).len() implies numeral(n)[j] != '&' by {
        assert(crate::text::is_digit(numeral(n)[j]));
    }
}

/// Serializing a valid descriptor to its canonical URI and parsing that URI
/// gives the descriptor back.
#[verifier::rlimit(40)]
pub proof fn law_round_trip(m: TotpModel)
    requires
        valid_model(m),
    ensures
        parse_uri(uri_of(m)) == Ok::<TotpModel, TOTPError>(m),
{
    lemma_keys();
    let ps = uri_params(m);
    let j = join_params(ps);
    let s = uri_of(m);
    assert(s.take(14) =~= uri_head());
    let after = s.skip(14);
    assert(after =~= label_segment(m) + (seq!['?'] + j));
    match m.label {
        Some(l) => {
            lemma_encoded_free(l);
            let e = percent_encode(l);
            assert(after =~= seq!['/'] + (e + (seq!['?'] + j)));
            let rest = uri_rest(s);
            assert(rest =~= e + (seq!['?'] + j));
            lemma_index_of_concat(e, seq!['?'] + j, '?');
            assert(label_part(rest) =~= e);
            assert(rest.skip(e.len() as int + 1) =~= j);
            assert(query_part(rest) == j);
            assert(raw_label(s) == Some(e));
        },
        None => {
            let rest = uri_rest(s);
            assert(rest =~= seq!['?'] + j);
            assert(index_of(rest, '?') == 0);
            assert(rest.skip(1) =~= j);
            assert(query_part(rest) == j);
            assert(raw_label(s) is None);
        },
    }
    assert(well_headed(s));
    assert(decoded_text(raw_label(s)) == m.label);
    // the parameters
    let issuer = match m.issuer {
        Some(i) => Some(percent_encode(i)),
        None => None,
    };
    let algorithm = match m.algorithm {
        Some(a) => Some(algorithm_name(a)),
        None => None,
    };
    let digits = match m.digits {
        Some(d) => Some(numeral(d as nat)),
        None => None,
    };
    let period = match m.period {
        Some(p) => Some(numeral(p as nat)),
        None => None,
    };
    if let Some(i) = m.issuer {
        lemma_encoded_free(i);
    }
    if let Some(d) = m.digits {
        lemma_numeral_free(d as nat);
    }
    if let Some(p) = m.period {
        lemma_numeral_free(p as nat);
    }
    assert(free_of(m.secret, '&')) by {
        assert forall|x: int| 0 <= x < m.secret.len() implies m.secret[x] != '&' by {
            assert(crate::totp::is_base32_char(m.secret[x]));
        }
    }
    lemma_param(key_secret(), m.secret);
    let o1 = optional_param(key_issuer(), issuer);
    let o2 = optional_param(key_algorithm(), algorithm);
    let o3 = optional_param(key_digits(), digits);
    let o4 = optional_param(key_period(), period);
    assert(o4 =~= o4 + Seq::<Seq<char>>::empty());
    assert forall|i: int| 0 <= i < ps.len() implies free_of(#[trigger] ps[i], '&') by {
        if let Some(v) = issuer {
            lemma_param(key_issuer(), v);
        }
        if let Some(v) = algorithm {
            lemma_param(key_algorithm(), v);
        }
        if let Some(v) = digits {
            lemma_param(key_digits(), v);
        }
        if let Some(v) = period {
            lemma_param(key_period(), v);
        }
    }
    lemma_join_split(ps);
    assert(split_on(j, '&') == ps);
    assert forall|k: Seq<char>| #![auto]
        lookup(ps, k) == (if k == key_secret() {
            Some(m.secret)
        } else if issuer is Some && k == key_issuer() {
            issuer
        } else if algorithm is Some && k == key_algorithm() {
            algorithm
        } else if digits is Some && k == key_digits() {
            digits
        } else if period is Some && k == key_period() {
            period
        } else {
            None
        }) by {
        let r1 = o1 + (o2 + (o3 + o4));
        assert((seq![param_text(key_secret(), m.secret)] + r1)[0] == param_text(key_secret(), m.secret));
        assert((seq![param_text(key_secret(), m.secret)] + r1).drop_first() =~= r1);
        lemma_lookup_opt(key_issuer(), issuer, o2 + (o3 + o4), k);
        lemma_lookup_opt(key_algorithm(), algorithm, o3 + o4, k);
        lemma_lookup_opt(key_digits(), digits, o4, k);
        lemma_lookup_opt(key_period(), period, Seq::<Seq<char>>::empty(), k);
    }
    assert(query_param(j, key_secret()) == Some(m.secret));
    assert(query_param(j, key_issuer()) == issuer);
    assert(query_param(j, key_algorithm()) == algorithm);
    assert(query_param(j, key_digits()) == digits);
    assert(query_param(j, key_period()) == period);
    assert(decoded_text(issuer) == m.issuer);
    let r = parse_uri(s);
    assert(r is Ok);
    assert(r->Ok_0.algorithm == m.algorithm);
    assert(r->Ok_0.digits == m.digits);
    assert(r->Ok_0.period == m.period);
}

/// Whatever parses is a valid descriptor.
pub proof fn law_parsed_is_valid(s: Seq<char>)
    ensures
        parse_uri(s) matches Ok(m) ==> valid_model(m),
{
}

/// Two times in the same time step give the same token.
pub proof fn law_same_step_same_token(m: TotpModel, t: u64, u: u64)
    requires
        period_of(m) > 0,
        t / (period_of(m) as u64) == u / (period_of(m) as u64),
    ensures
        token_of(m, t) == token_of(m, u),
{
}

/// A time at the start of a period and the last second of that period give
/// the same token.
pub proof fn law_period_window(m: TotpModel, t: u64)
    requires
        period_of(m) > 0,
        t % (period_of(m) as u64) == 0,
        t + period_of(m) - 1 <= u64::MAX,
    ensures
        token_of(m, t) == token_of(m, (t + period_of(m) - 1) as u64),
{
    let p = period_of(m) as int;
    let ti = t as int;
    let u = ti + p - 1;
    assert(u / p == ti / p) by (nonlinear_arith)
        requires
            p > 0,
            ti % p == 0,
            u == ti + p - 1,
            ti >= 0,
    {
        assert(ti == (ti / p) * p);
        assert(u == (ti / p) * p + (p - 1));
    }
}

/// A token has exactly as many characters as the descriptor's digits, each a
/// decimal digit.
pub proof fn law_token_length(m: TotpModel, t: u64)
    ensures
        token_of(m, t) matches Ok(tok) ==> tok.len() == digits_of(m) && all_digits(tok),
{
    if let Ok(tok) = token_of(m, t) {
        let key = crate::otp::base32_decoded(crate::otp::upper(m.secret))->0;
        let h = crate::otp::mac_of(crate::totp::algorithm_of(m), key, crate::otp::counter_bytes(t / (period_of(m) as u64)));
        lemma_low_digits(crate::otp::truncated(h), digits_of(m) as nat);
    }
}

/// An original that parses holds its descriptor's secret.
pub proof fn law_parsed_secret(s: Seq<char>)
    ensures
        parse_uri(s) matches Ok(m) ==> secret_of(s) == Some(m.secret),
{
}

/// Given an original that holds the secret `secret`, an edit with another
/// secret is rejected, and an edit that keeps it is saved as the canonical
/// URI of the edited descriptor, which parses back to that descriptor.
pub proof fn law_secret_guard(original: Seq<char>, edited: Seq<char>, secret: Seq<char>)
    requires
        secret_of(original) == Some(secret),
        parse_uri(edited) is Ok,
    ensures
        parse_uri(edited)->Ok_0.secret != secret ==> saved_form(original, edited) == Err::<
            Seq<char>,
            TOTPError,
        >(TOTPError::EditRejected),
        parse_uri(edited)->Ok_0.secret == secret ==> saved_form(original, edited) == Ok::<
            Seq<char>,
            TOTPError,
        >(uri_of(parse_uri(edited)->Ok_0)) && parse_uri(uri_of(parse_uri(edited)->Ok_0))
            == parse_uri(edited),
{
    law_parsed_is_valid(edited);
    law_round_trip(parse_uri(edited)->Ok_0);
}

/// A well-headed URI without a `secret` parameter fails with `InvalidSecret`.
pub proof fn law_missing_secret(s: Seq<char>)
    requires
        well_headed(s),
        query_param(query_part(uri_rest(s)), key_secret()) is None,
    ensures
        parse_uri(s) == Err::<TotpModel, TOTPError>(TOTPError::InvalidSecret),
{
}

/// With a valid secret and a known or absent algorithm, a `digits` value of
/// zero or with a minus sign fails with `InvalidDigits`.
pub proof fn law_nonpositive_digits(s: Seq<char>)
    requires
        well_headed(s),
        query_param(query_part(uri_rest(s)), key_secret()) matches Some(v) && valid_secret(v),
        query_param(query_part(uri_rest(s)), key_algorithm()) matches Some(a) ==> algorithm_named(a) is Some,
        query_param(query_part(uri_rest(s)), key_digits()) matches Some(d) && (
            (all_digits(d) && numeral_value(d) == 0) || (d.len() > 0 && d[0] == '-')),
    ensures
        parse_uri(s) == Err::<TotpModel, TOTPError>(TOTPError::InvalidDigits),
{
    let d = query_param(query_part(uri_rest(s)), key_digits())->0;
    if d.len() > 0 && d[0] == '-' {
        assert(!crate::text::is_digit(d[0]));
    }
}

} // verus!
