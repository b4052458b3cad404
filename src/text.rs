//! Character-sequence utilities: searching, splitting, percent escapes and
//! decimal numerals, each with its mathematical definition.
use vstd::prelude::*;

verus! {

/// Position of the first `c` in `s`, or `s.len()` when there is none.
pub open spec fn index_of(s: Seq<char>, c: char) -> int
    decreases s.len(),
{
    if s.len() == 0 {
        0
    } else if s[0] == c {
        0
    } else {
        1 + index_of(s.drop_first(), c)
    }
}

pub proof fn lemma_index_of(s: Seq<char>, c: char)
    ensures
        0 <= index_of(s, c) <= s.len(),
        index_of(s, c) < s.len() ==> s[index_of(s, c)] == c,
        forall|j: int| 0 <= j < index_of(s, c) ==> s[j] != c,
    decreases s.len(),
{
    if s.len() > 0 && s[0] != c {
        lemma_index_of(s.drop_first(), c);
        assert forall|j: int| 0 <= j < index_of(s, c) implies s[j] != c by {
            if j > 0 {
                assert(s[j] == s.drop_first()[j - 1]);
            }
        }
    }
}

/// A sequence `a` free of `c`, followed by `c` (or by nothing), has its first
/// `c` right after `a`.
pub proof fn lemma_index_of_concat(a: Seq<char>, b: Seq<char>, c: char)
    requires
        forall|j: int| 0 <= j < a.len() ==> a[j] != c,
        b.len() == 0 || b[0] == c,
    ensures
        index_of(a + b, c) == a.len(),
    decreases a.len(),
{
    if a.len() > 0 {
        assert((a + b).drop_first() =~= a.drop_first() + b);
        lemma_index_of_concat(a.drop_first(), b, c);
    } else {
        assert(a + b =~= b);
    }
}

/// The pieces of `s` between occurrences of `c`.
pub open spec fn split_on(s: Seq<char>, c: char) -> Seq<Seq<char>>
    decreases s.len(),
{
    let i = index_of(s, c);
    if !(0 <= i < s.len()) {
        seq![s]
    } else {
        seq![s.take(i)] + split_on(s.skip(i + 1), c)
    }
}

/// The first piece of a split, when a `c` follows it.
pub proof fn lemma_split_on_concat(a: Seq<char>, b: Seq<char>, c: char)
    requires
        forall|j: int| 0 <= j < a.len() ==> a[j] != c,
    ensures
        split_on(a + seq![c] + b, c) == seq![a] + split_on(b, c),
{
    let s = a + seq![c] + b;
    assert(s =~= a + (seq![c] + b));
    lemma_index_of_concat(a, seq![c] + b, c);
    assert(s.take(a.len() as int) =~= a);
    assert(s.skip(a.len() as int + 1) =~= b);
}

/// A sequence free of `c` splits into itself.
pub proof fn lemma_split_on_single(a: Seq<char>, c: char)
    requires
        forall|j: int| 0 <= j < a.len() ==> a[j] != c,
    ensures
        split_on(a, c) == seq![a],
{
    lemma_index_of_concat(a, seq![], c);
    assert(a + seq![] =~= a);
}

/// Finds the first `c` of `s` at or after `from`.
pub fn find_char(s: &Vec<char>, from: usize, c: char) -> (r: usize)
    requires
        from <= s.len(),
    ensures
        r == from + index_of(s@.skip(from as int), c),
        r <= s.len(),
{
    let mut i: usize = from;
    proof {
        lemma_index_of(s@.skip(from as int), c);
    }
    while i < s.len() && s[i] != c
        invariant
            from <= i <= s.len(),
            from + index_of(s@.skip(from as int), c) == i + index_of(s@.skip(i as int), c),
        decreases s.len() - i,
    {
        assert(s@.skip(i as int).drop_first() =~= s@.skip(i + 1));
        i = i + 1;
    }
    i
}

/// Copies `s[start..end]`.
pub fn copy_range(s: &Vec<char>, start: usize, end: usize) -> (r: Vec<char>)
    requires
        start <= end <= s.len(),
    ensures
        r@ == s@.subrange(start as int, end as int),
{
    let mut r: Vec<char> = Vec::new();
    let mut i: usize = start;
    while i < end
        invariant
            start <= i <= end <= s.len(),
            r@ == s@.subrange(start as int, i as int),
        decreases end - i,
    {
        r.push(s[i]);
        assert(r@ =~= s@.subrange(start as int, i + 1));
        i = i + 1;
    }
    r
}

/// Whether two sequences hold the same characters.
pub fn same_chars(a: &Vec<char>, b: &Vec<char>) -> (r: bool)
    ensures
        r == (a@ == b@),
{
    if a.len() != b.len() {
        return false;
    }
    let mut i: usize = 0;
    while i < a.len()
        invariant
            a.len() == b.len(),
            0 <= i <= a.len(),
            forall|j: int| 0 <= j < i ==> a@[j] == b@[j],
        decreases a.len() - i,
    {
        if a[i] != b[i] {
            return false;
        }
        i = i + 1;
    }
    assert(a@ =~= b@);
    true
}

/// Appends the characters of `b` to `a`.
pub fn append_chars(a: &mut Vec<char>, b: &Vec<char>)
    ensures
        final(a)@ == old(a)@ + b@,
{
    let mut i: usize = 0;
    while i < b.len()
        invariant
            0 <= i <= b.len(),
            a@ == old(a)@ + b@.take(i as int),
        decreases b.len() - i,
    {
        a.push(b[i]);
        assert(b@.take(i + 1) =~= b@.take(i as int).push(b@[i as int]));
        i = i + 1;
    }
    assert(b@.take(b.len() as int) =~= b@);
}

// ---------------------------------------------------------------- query pairs

/// The name of a `name=value` pair.
pub open spec fn pair_key(p: Seq<char>) -> Seq<char> {
    p.take(index_of(p, '='))
}

/// The value of a `name=value` pair; empty when there is no `=`.
pub open spec fn pair_value(p: Seq<char>) -> Seq<char> {
    let i = index_of(p, '=');
    if i < p.len() {
        p.skip(i + 1)
    } else {
        Seq::empty()
    }
}

/// The value of the first pair named `key`.
pub open spec fn lookup(pairs: Seq<Seq<char>>, key: Seq<char>) -> Option<Seq<char>>
    decreases pairs.len(),
{
    if pairs.len() == 0 {
        None
    } else if pair_key(pairs[0]) == key {
        Some(pair_value(pairs[0]))
    } else {
        lookup(pairs.drop_first(), key)
    }
}

/// The value of parameter `key` in a query string `a=1&b=2`.
pub open spec fn query_param(q: Seq<char>, key: Seq<char>) -> Option<Seq<char>> {
    lookup(split_on(q, '&'), key)
}

/// Finds the value of the first parameter named `key` in the query `q`.
pub fn find_param(q: &Vec<char>, key: &Vec<char>) -> (r: Option<Vec<char>>)
    ensures
        match r {
            Some(v) => query_param(q@, key@) == Some(v@),
            None => query_param(q@, key@) is None,
        },
{
    let mut start: usize = 0;
    assert(q@.skip(0) =~= q@);
    loop
        invariant
            start <= q.len(),
            query_param(q@, key@) == lookup(split_on(q@.skip(start as int), '&'), key@),
        decreases q.len() - start,
    {
        let end = find_char(q, start, '&');
        let rest = Ghost(q@.skip(start as int));
        proof {
            lemma_index_of(rest@, '&');
        }
        let seg = copy_range(q, start, end);
        assert(seg@ =~= rest@.take(index_of(rest@, '&')));
        let eq = find_char(&seg, 0, '=');
        assert(seg@.skip(0) =~= seg@);
        proof {
            lemma_index_of(seg@, '=');
        }
        let name = copy_range(&seg, 0, eq);
        assert(name@ =~= pair_key(seg@));
        if same_chars(&name, key) {
            let value = if eq < seg.len() {
                copy_range(&seg, eq + 1, seg.len())
            } else {
                Vec::new()
            };
            assert(value@ =~= pair_value(seg@));
            if end < q.len() {
                assert(split_on(rest@, '&')[0] == seg@);
            } else {
                assert(seg@ =~= rest@);
            }
            return Some(value);
        }
        if end >= q.len() {
            assert(seg@ =~= rest@);
            assert(split_on(rest@, '&') == seq![seg@]);
            assert(lookup(seq![seg@].drop_first(), key@) is None);
            return None;
        }
        assert(rest@.skip(index_of(rest@, '&') + 1) =~= q@.skip(end + 1));
        assert(split_on(rest@, '&').drop_first() =~= split_on(q@.skip(end + 1), '&'));
        start = end + 1;
    }
}

// ---------------------------------------------------------- decimal numerals

pub open spec fn is_digit(c: char) -> bool {
    48 <= (c as u32) <= 57
}

pub open spec fn all_digits(s: Seq<char>) -> bool {
    forall|j: int| 0 <= j < s.len() ==> is_digit(#[trigger] s[j])
}

pub open spec fn digit_value(c: char) -> int {
    (c as u32) as int - 48
}

/// The digit character for `d < 10`.
pub open spec fn digit_char(d: int) -> char {
    ((d + 48) as u8) as char
}

/// The number that the decimal numeral `s` denotes.
pub open spec fn numeral_value(s: Seq<char>) -> int
    decreases s.len(),
{
    if s.len() == 0 {
        0
    } else {
        numeral_value(s.drop_last()) * 10 + digit_value(s.last())
    }
}

/// The shortest decimal numeral of `n`.
pub open spec fn numeral(n: nat) -> Seq<char>
    decreases n,
{
    if n < 10 {
        seq![digit_char(n as int)]
    } else {
        numeral(n / 10).push(digit_char((n % 10) as int))
    }
}

/// The lowest `w` decimal digits of `v`, padded with zeros on the left.
pub open spec fn low_digits(v: nat, w: nat) -> Seq<char>
    decreases w,
{
    if w == 0 {
        Seq::empty()
    } else {
        low_digits(v / 10, (w - 1) as nat).push(digit_char((v % 10) as int))
    }
}

pub proof fn lemma_numeral_value_prefix(s: Seq<char>, i: int)
    requires
        all_digits(s),
        0 <= i <= s.len(),
    ensures
        0 <= numeral_value(s.take(i)) <= numeral_value(s),
    decreases s.len(),
{
    if i == s.len() {
        assert(s.take(i) =~= s);
    }
    if s.len() > 0 {
        let p = s.drop_last();
        assert(is_digit(s[s.len() - 1]));
        if i < s.len() {
            assert(p.take(i) =~= s.take(i));
            lemma_numeral_value_prefix(p, i);
        } else {
            lemma_numeral_value_prefix(p, 0);
        }
    }
}

pub proof fn lemma_numeral(n: nat)
    ensures
        numeral(n).len() > 0,
        all_digits(numeral(n)),
        numeral_value(numeral(n)) == n,
    decreases n,
{
    let d = (n % 10) as int;
    assert(digit_value(digit_char(d)) == d);
    if n >= 10 {
        lemma_numeral(n / 10);
        let s = numeral(n);
        assert(s.drop_last() =~= numeral(n / 10));
        assert(s.last() == digit_char(d));
        assert((n / 10) * 10 + d == n);
        assert forall|j: int| 0 <= j < s.len() implies is_digit(#[trigger] s[j]) by {
            if j < s.len() - 1 {
                assert(s[j] == numeral(n / 10)[j]);
            }
        }
    } else {
        assert(numeral(n).drop_last() =~= Seq::<char>::empty());
        assert(numeral_value(Seq::<char>::empty()) == 0);
        assert(numeral(n).last() == digit_char(d));
    }
}

pub proof fn lemma_low_digits(v: nat, w: nat)
    ensures
        low_digits(v, w).len() == w,
        all_digits(low_digits(v, w)),
    decreases w,
{
    if w > 0 {
        lemma_low_digits(v / 10, (w - 1) as nat);
        let s = low_digits(v, w);
        assert forall|j: int| 0 <= j < s.len() implies is_digit(#[trigger] s[j]) by {
            if j < s.len() - 1 {
                assert(s[j] == low_digits(v / 10, (w - 1) as nat)[j]);
            }
        }
    }
}

/// Reads the decimal numeral `s` when it denotes a number no larger than `max`.
pub fn parse_decimal(s: &Vec<char>, max: u64) -> (r: Option<u64>)
    requires
        max < 0x1_0000_0000,
    ensures
        r == (if s@.len() > 0 && all_digits(s@) && numeral_value(s@) <= max {
            Some(numeral_value(s@) as u64)
        } else {
            None::<u64>
        }),
        r matches Some(v) ==> v as int == numeral_value(s@),
{
    if s.len() == 0 {
        return None;
    }
    let mut v: u64 = 0;
    let mut i: usize = 0;
    assert(s@.take(0) =~= Seq::<char>::empty());
    while i < s.len()
        invariant
            0 <= i <= s.len(),
            all_digits(s@.take(i as int)),
            v == numeral_value(s@.take(i as int)),
            v <= max,
            max < 0x1_0000_0000,
        decreases s.len() - i,
    {
        let c = s[i] as u32;
        if !(48 <= c && c <= 57) {
            assert(!is_digit(s@[i as int]));
            return None;
        }
        let d = (c - 48) as u64;
        v = v * 10 + d;
        assert(s@.take(i + 1).drop_last() =~= s@.take(i as int));
        assert(s@.take(i + 1).last() == s@[i as int]);
        assert(v == numeral_value(s@.take(i + 1)));
        assert(all_digits(s@.take(i + 1))) by {
            assert forall|j: int| 0 <= j < i + 1 implies is_digit(#[trigger] s@.take(i + 1)[j]) by {
                if j < i {
                    assert(s@.take(i + 1)[j] == s@.take(i as int)[j]);
                }
            }
        }
        if v > max {
            proof {
                if all_digits(s@) {
                    lemma_numeral_value_prefix(s@, i + 1);
                }
            }
            return None;
        }
        i = i + 1;
    }
    assert(s@.take(s.len() as int) =~= s@);
    proof {
        lemma_numeral_value_prefix(s@, 0);
    }
    Some(v)
}

/// Appends the shortest decimal numeral of `n`.
pub fn push_numeral(out: &mut Vec<char>, n: u64)
    ensures
        final(out)@ == old(out)@ + numeral(n as nat),
    decreases n,
{
    if n >= 10 {
        push_numeral(out, n / 10);
    }
    out.push(((n % 10 + 48) as u8) as char);
    assert(numeral(n as nat) == if n < 10 {
        seq![digit_char(n as int)]
    } else {
        numeral((n / 10) as nat).push(digit_char((n % 10) as int))
    });
    assert(final(out)@ =~= old(out)@ + numeral(n as nat));
}

/// Appends the lowest `w` decimal digits of `v`, padded with zeros.
pub fn push_low_digits(out: &mut Vec<char>, v: u64, w: u8)
    ensures
        final(out)@ == old(out)@ + low_digits(v as nat, w as nat),
    decreases w,
{
    if w > 0 {
        push_low_digits(out, v / 10, w - 1);
        out.push(((v % 10 + 48) as u8) as char);
        assert(final(out)@ =~= old(out)@ + low_digits(v as nat, w as nat));
    } else {
        assert(final(out)@ =~= old(out)@ + low_digits(v as nat, w as nat));
    }
}

// ----------------------------------------------------------- percent escapes

/// The value of a hexadecimal digit, or -1.
pub open spec fn hex_value(c: char) -> int {
    if 48 <= (c as u32) <= 57 {
        (c as u32) as int - 48
    } else if 65 <= (c as u32) <= 70 {
        (c as u32) as int - 55
    } else if 97 <= (c as u32) <= 102 {
        (c as u32) as int - 87
    } else {
        -1
    }
}

/// The upper-case hexadecimal digit for `d < 16`.
pub open spec fn hex_char(d: int) -> char {
    if d < 10 {
        ((d + 48) as u8) as char
    } else {
        ((d + 55) as u8) as char
    }
}

/// The byte of an escape `%XY` at the start of `s`, or -1.
pub open spec fn escape_byte(s: Seq<char>) -> int {
    if s.len() >= 3 && s[0] == '%' && hex_value(s[1]) >= 0 && hex_value(s[2]) >= 0 {
        hex_value(s[1]) * 16 + hex_value(s[2])
    } else {
        -1
    }
}

pub open spec fn is_continuation(b: int) -> bool {
    0x80 <= b <= 0xbf
}

pub open spec fn two_byte_point(s: Seq<char>) -> int {
    (escape_byte(s) - 0xc0) * 0x40 + (escape_byte(s.skip(3)) - 0x80)
}

pub open spec fn three_byte_point(s: Seq<char>) -> int {
    (escape_byte(s) - 0xe0) * 0x1000 + (escape_byte(s.skip(3)) - 0x80) * 0x40 + (escape_byte(
        s.skip(6),
    ) - 0x80)
}

pub open spec fn four_byte_point(s: Seq<char>) -> int {
    (escape_byte(s) - 0xf0) * 0x4_0000 + (escape_byte(s.skip(3)) - 0x80) * 0x1000 + (escape_byte(
        s.skip(6),
    ) - 0x80) * 0x40 + (escape_byte(s.skip(9)) - 0x80)
}

/// The number of characters of the run of escapes at the start of `s` that
/// encodes one character in UTF-8 (3, 6, 9 or 12), or 0 when there is none.
pub open spec fn escape_run(s: Seq<char>) -> int {
    let b0 = escape_byte(s);
    if 0 <= b0 < 0x80 {
        3
    } else if 0xc2 <= b0 <= 0xdf && is_continuation(escape_byte(s.skip(3))) {
        6
    } else if 0xe0 <= b0 <= 0xef && is_continuation(escape_byte(s.skip(3))) && is_continuation(
        escape_byte(s.skip(6)),
    ) && 0x800 <= three_byte_point(s) && !(0xd800 <= three_byte_point(s) <= 0xdfff) {
        9
    } else if 0xf0 <= b0 <= 0xf4 && is_continuation(escape_byte(s.skip(3))) && is_continuation(
        escape_byte(s.skip(6)),
    ) && is_continuation(escape_byte(s.skip(9))) && 0x1_0000 <= four_byte_point(s) <= 0x10_ffff {
        12
    } else {
        0
    }
}

/// The code point that the run of escapes at the start of `s` encodes.
pub open spec fn run_point(s: Seq<char>) -> int {
    let n = escape_run(s);
    if n == 3 {
        escape_byte(s)
    } else if n == 6 {
        two_byte_point(s)
    } else if n == 9 {
        three_byte_point(s)
    } else {
        four_byte_point(s)
    }
}

/// The character with a given code point.
pub open spec fn char_with_point(p: int) -> char {
    (p as u32) as char
}

/// Replaces each run of escapes `%XY` that is the UTF-8 encoding of one
/// character by that character; any other `%` stays as it is.
pub open spec fn percent_decode(s: Seq<char>) -> Seq<char>
    decreases s.len(),
{
    if s.len() == 0 {
        Seq::empty()
    } else if escape_run(s) > 0 {
        seq![char_with_point(run_point(s))] + percent_decode(s.skip(escape_run(s)))
    } else {
        seq![s[0]] + percent_decode(s.drop_first())
    }
}

/// The characters written as escapes in a URI component.
pub open spec fn needs_escape(c: char) -> bool {
    c == ' ' || c == '%' || c == '&' || c == '?' || c == '#'
}

pub open spec fn escape_char(c: char) -> Seq<char> {
    if needs_escape(c) {
        seq!['%', hex_char((c as u32) as int / 16), hex_char((c as u32) as int % 16)]
    } else {
        seq![c]
    }
}

pub open spec fn percent_encode(s: Seq<char>) -> Seq<char>
    decreases s.len(),
{
    if s.len() == 0 {
        Seq::empty()
    } else {
        escape_char(s[0]) + percent_encode(s.drop_first())
    }
}

/// Decoding undoes encoding, and an encoded text holds no `&` and no `?`.
pub proof fn lemma_percent_round_trip(s: Seq<char>)
    ensures
        percent_decode(percent_encode(s)) == s,
        forall|j: int|
            0 <= j < percent_encode(s).len() ==> !needs_escape(#[trigger] percent_encode(s)[j])
                || percent_encode(s)[j] == '%',
    decreases s.len(),
{
    if s.len() > 0 {
        let c = s[0];
        let rest = percent_encode(s.drop_first());
        lemma_percent_round_trip(s.drop_first());
        let e = escape_char(c) + rest;
        assert(e == percent_encode(s));
        if needs_escape(c) {
            assert(escape_byte(e) == c as u32);
            assert(escape_run(e) == 3);
            assert(char_with_point(c as u32 as int) as u32 == c as u32);
            assert(e.skip(3) =~= rest);
        } else {
            assert(e.drop_first() =~= rest);
        }
        assert(percent_decode(e) =~= s);
        assert forall|j: int| 0 <= j < e.len() implies !needs_escape(#[trigger] e[j]) || e[j]
            == '%' by {
            if j >= escape_char(c).len() {
                assert(e[j] == rest[j - escape_char(c).len()]);
            }
        }
    }
}

pub fn hex_digit_value(c: char) -> (r: i64)
    ensures
        r == hex_value(c),
{
    let u = c as u32;
    if 48 <= u && u <= 57 {
        (u - 48) as i64
    } else if 65 <= u && u <= 70 {
        (u - 55) as i64
    } else if 97 <= u && u <= 102 {
        (c as u32 - 87) as i64
    } else {
        -1
    }
}

/// Relies on `char::from_u32`: the character with a given scalar value,
/// which every value below 0xD800 or from 0xE000 to 0x10FFFF is.
#[verifier::external_body]
fn char_from_u32(v: u32) -> (r: Option<char>)
    ensures
        r matches Some(c) ==> c as u32 == v,
        (v < 0xd800 || (0xe000 <= v <= 0x10_ffff)) ==> r is Some,
{
    char::from_u32(v)
}

fn escape_byte_at(s: &Vec<char>, i: usize) -> (r: i64)
    requires
        i <= s.len(),
    ensures
        r == escape_byte(s@.skip(i as int)),
        -1 <= r < 256,
{
    if s.len() - i >= 3 && s[i] == '%' {
        let h = hex_digit_value(s[i + 1]);
        let l = hex_digit_value(s[i + 2]);
        if h >= 0 && l >= 0 {
            return h * 16 + l;
        }
    }
    -1
}

/// The length and the code point of the run of escapes at `i`.
fn escape_run_at(s: &Vec<char>, i: usize) -> (r: (usize, u32))
    requires
        i <= s.len(),
    ensures
        r.0 as int == escape_run(s@.skip(i as int)),
        r.0 > 0 ==> r.1 as int == run_point(s@.skip(i as int)),
        r.0 > 0 ==> (r.1 < 0xd800 || (0xe000 <= r.1 <= 0x10_ffff)),
{
    let ghost t = s@.skip(i as int);
    let b0 = escape_byte_at(s, i);
    if 0 <= b0 && b0 < 0x80 {
        return (3, b0 as u32);
    }
    if b0 < 0xc2 || b0 > 0xf4 {
        return (0, 0);
    }
    assert(t.skip(3) =~= s@.skip(i + 3));
    let b1 = escape_byte_at(s, i + 3);
    if !(0x80 <= b1 && b1 <= 0xbf) {
        return (0, 0);
    }
    if b0 <= 0xdf {
        return (6, ((b0 - 0xc0) * 0x40 + (b1 - 0x80)) as u32);
    }
    assert(t.skip(6) =~= s@.skip(i + 6));
    let b2 = escape_byte_at(s, i + 6);
    if !(0x80 <= b2 && b2 <= 0xbf) {
        return (0, 0);
    }
    if b0 <= 0xef {
        let p = (b0 - 0xe0) * 0x1000 + (b1 - 0x80) * 0x40 + (b2 - 0x80);
        if 0x800 <= p && !(0xd800 <= p && p <= 0xdfff) {
            return (9, p as u32);
        }
        return (0, 0);
    }
    assert(t.skip(9) =~= s@.skip(i + 9));
    let b3 = escape_byte_at(s, i + 9);
    if !(0x80 <= b3 && b3 <= 0xbf) {
        return (0, 0);
    }
    let p = (b0 - 0xf0) * 0x4_0000 + (b1 - 0x80) * 0x1000 + (b2 - 0x80) * 0x40 + (b3 - 0x80);
    if 0x1_0000 <= p && p <= 0x10_ffff {
        return (12, p as u32);
    }
    (0, 0)
}

/// Decodes the runs of escapes `%XY` that encode one character in UTF-8.
pub fn decode_escapes(s: &Vec<char>) -> (r: Vec<char>)
    ensures
        r@ == percent_decode(s@),
{
    let mut out: Vec<char> = Vec::new();
    let mut i: usize = 0;
    assert(s@.skip(0) =~= s@);
    while i < s.len()
        invariant
            0 <= i <= s.len(),
            percent_decode(s@) == out@ + percent_decode(s@.skip(i as int)),
        decreases s.len() - i,
    {
        let ghost rest = s@.skip(i as int);
        let (n, p) = escape_run_at(s, i);
        if n > 0 {
            match char_from_u32(p) {
                Some(c) => {
                    proof {
                        vstd::utf8::char_u32_cast(c, p);
                    }
                    assert(char_with_point(p as int) == c);
                    out.push(c);
                    assert(rest.skip(n as int) =~= s@.skip(i + n));
                    i = i + n;
                    continue;
                },
                None => {},
            }
        }
        out.push(s[i]);
        assert(rest.drop_first() =~= s@.skip(i + 1));
        i = i + 1;
    }
    assert(s@.skip(s.len() as int) =~= Seq::<char>::empty());
    out
}

/// Writes the characters that need it as escapes `%XY`.
pub fn push_encoded(out: &mut Vec<char>, s: &Vec<char>)
    ensures
        final(out)@ == old(out)@ + percent_encode(s@),
{
    let mut i: usize = 0;
    assert(s@.skip(0) =~= s@);
    while i < s.len()
        invariant
            0 <= i <= s.len(),
            old(out)@ + percent_encode(s@) == out@ + percent_encode(s@.skip(i as int)),
        decreases s.len() - i,
    {
        let c = s[i];
        let rest = Ghost(s@.skip(i as int));
        assert(rest@.drop_first() =~= s@.skip(i + 1));
        if c == ' ' || c == '%' || c == '&' || c == '?' || c == '#' {
            let v = c as u32;
            let hi = v / 16;
            let lo = v % 16;
            out.push('%');
            out.push(if hi < 10 { ((hi + 48) as u8) as char } else { ((hi + 55) as u8) as char });
            out.push(if lo < 10 { ((lo + 48) as u8) as char } else { ((lo + 55) as u8) as char });
        } else {
            out.push(c);
        }
        assert(out@ + percent_encode(s@.skip(i + 1)) =~= old(out)@ + percent_encode(s@));
        i = i + 1;
    }
    assert(s@.skip(s.len() as int) =~= Seq::<char>::empty());
    assert(out@ =~= old(out)@ + percent_encode(s@));
}

// ------------------------------------------------------------- prefix, search

pub open spec fn has_prefix(s: Seq<char>, p: Seq<char>) -> bool {
    s.len() >= p.len() && s.take(p.len() as int) == p
}

pub open spec fn occurs_at(s: Seq<char>, p: Seq<char>, i: int) -> bool {
    0 <= i && i + p.len() <= s.len() && s.subrange(i, i + p.len()) == p
}

pub open spec fn contains(s: Seq<char>, p: Seq<char>) -> bool {
    exists|i: int| occurs_at(s, p, i)
}

/// Whether `p` occurs in `s` at position `at`.
pub fn matches_at(s: &Vec<char>, p: &Vec<char>, at: usize) -> (r: bool)
    ensures
        r == occurs_at(s@, p@, at as int),
{
    if at > s.len() || s.len() - at < p.len() {
        return false;
    }
    let mut j: usize = 0;
    while j < p.len()
        invariant
            at + p.len() <= s.len(),
            0 <= j <= p.len(),
            forall|k: int| 0 <= k < j ==> s@[at + k] == p@[k],
        decreases p.len() - j,
    {
        if s[at + j] != p[j] {
            assert(s@.subrange(at as int, at + p.len())[j as int] != p@[j as int]);
            return false;
        }
        j = j + 1;
    }
    assert(s@.subrange(at as int, at + p.len()) =~= p@);
    true
}

pub fn starts_with(s: &Vec<char>, p: &Vec<char>) -> (r: bool)
    ensures
        r == has_prefix(s@, p@),
{
    let r = matches_at(s, p, 0);
    assert(s@.len() >= p@.len() ==> s@.subrange(0, p@.len() as int) =~= s@.take(p@.len() as int));
    r
}

pub fn contains_chars(s: &Vec<char>, p: &Vec<char>) -> (r: bool)
    ensures
        r == contains(s@, p@),
{
    let mut i: usize = 0;
    loop
        invariant
            0 <= i <= s.len(),
            forall|k: int| 0 <= k < i ==> !occurs_at(s@, p@, k),
        decreases s.len() - i,
    {
        let found = matches_at(s, p, i);
        if found {
            return true;
        }
        if i == s.len() {
            assert forall|k: int| !occurs_at(s@, p@, k) by {
                if k == i {
                    assert(!found);
                }
            }
            return false;
        }
        i = i + 1;
    }
}

// ---------------------------------------------------------------- std strings

/// Relies on `str::chars`: the characters of the string, in order.
#[verifier::external_body]
pub(crate) fn chars_of(s: &str) -> (r: Vec<char>)
    ensures
        r@ == s@,
{
    s.chars().collect()
}

/// Relies on `String`'s `FromIterator<&char>`: the string of those characters.
#[verifier::external_body]
pub(crate) fn string_of(v: &Vec<char>) -> (r: String)
    ensures
        r@ == v@,
{
    v.iter().collect()
}

} // verus!
