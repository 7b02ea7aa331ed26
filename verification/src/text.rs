//! Character-level text handling: whitespace, trimming, word splitting and
//! integer parsing, each stated over the string's sequence of characters.

use vstd::prelude::*;

verus! {

/// Unicode `White_Space`, the set of characters that `char::is_whitespace` accepts.
pub open spec fn is_space(c: char) -> bool {
    let v = c as u32;
    ||| 0x09 <= v <= 0x0d
    ||| v == 0x20
    ||| v == 0x85
    ||| v == 0xa0
    ||| v == 0x1680
    ||| 0x2000 <= v <= 0x200a
    ||| v == 0x2028
    ||| v == 0x2029
    ||| v == 0x202f
    ||| v == 0x205f
    ||| v == 0x3000
}

/// Whether `c` is a whitespace character.
pub fn is_space_char(c: char) -> (r: bool)
    ensures
        r == is_space(c),
{
    let v: u32 = c as u32;
    (0x09 <= v && v <= 0x0d) || v == 0x20 || v == 0x85 || v == 0xa0 || v == 0x1680
        || (0x2000 <= v && v <= 0x200a) || v == 0x2028 || v == 0x2029 || v == 0x202f
        || v == 0x205f || v == 0x3000
}

/// Whether `s` and `t` hold the same characters.
pub fn same_text(s: &str, t: &str) -> (r: bool)
    ensures
        r == (s@ == t@),
{
    s.to_owned() == t.to_owned()
}

/// The characters of `s`, in order.
pub fn chars_of(s: &str) -> (v: Vec<char>)
    ensures
        v@ == s@,
{
    let mut v: Vec<char> = Vec::new();
    for c in it: s.chars()
        invariant
            v@ == it.seq().take(it.index() as int),
            it.seq() == s@,
    {
        v.push(c);
    }
    v
}


/// `s` without its leading whitespace.
pub open spec fn trim_start(s: Seq<char>) -> Seq<char>
    decreases s.len(),
{
    if s.len() > 0 && is_space(s[0]) {
        trim_start(s.drop_first())
    } else {
        s
    }
}

/// `s` without its trailing whitespace.
pub open spec fn trim_end(s: Seq<char>) -> Seq<char>
    decreases s.len(),
{
    if s.len() > 0 && is_space(s.last()) {
        trim_end(s.drop_last())
    } else {
        s
    }
}

/// `s` without leading and trailing whitespace, as `str::trim` gives it.
pub open spec fn trim(s: Seq<char>) -> Seq<char> {
    trim_end(trim_start(s))
}

proof fn lemma_trim_start_skip(s: Seq<char>, i: int)
    requires
        0 <= i <= s.len(),
        forall|k: int| 0 <= k < i ==> is_space(#[trigger] s[k]),
    ensures
        trim_start(s) == trim_start(s.subrange(i, s.len() as int)),
    decreases i,
{
    if i > 0 {
        assert(is_space(s[0]));
        assert(s.drop_first() == s.subrange(1, s.len() as int));
        lemma_trim_start_skip(s.drop_first(), i - 1);
        assert(s.drop_first().subrange(i - 1, s.drop_first().len() as int) == s.subrange(
            i,
            s.len() as int,
        ));
    } else {
        assert(s.subrange(0, s.len() as int) == s);
    }
}

proof fn lemma_trim_end_take(s: Seq<char>, j: int)
    requires
        0 <= j <= s.len(),
        forall|k: int| j <= k < s.len() ==> is_space(#[trigger] s[k]),
    ensures
        trim_end(s) == trim_end(s.subrange(0, j)),
    decreases s.len() - j,
{
    if j < s.len() {
        lemma_trim_end_take(s.drop_last(), j);
        assert(s.drop_last().subrange(0, j) == s.subrange(0, j));
    } else {
        assert(s.subrange(0, j) == s);
    }
}

/// The half-open range of character positions that `trim` keeps of `v`.
pub fn trim_bounds(v: &Vec<char>) -> (r: (usize, usize))
    ensures
        r.0 <= r.1 <= v@.len(),
        v@.subrange(r.0 as int, r.1 as int) == trim(v@),
{
    let n = v.len();
    let mut i: usize = 0;
    while i < n && is_space_char(v[i])
        invariant
            i <= n == v@.len(),
            forall|k: int| 0 <= k < i ==> is_space(#[trigger] v@[k]),
        decreases n - i,
    {
        i = i + 1;
    }
    proof {
        lemma_trim_start_skip(v@, i as int);
    }
    let ghost rest = v@.subrange(i as int, n as int);
    let mut j: usize = n;
    while j > i && is_space_char(v[j - 1])
        invariant
            i <= j <= n == v@.len(),
            rest == v@.subrange(i as int, n as int),
            forall|k: int| j <= k < n ==> is_space(#[trigger] v@[k]),
        decreases j,
    {
        j = j - 1;
    }
    proof {
        assert forall|k: int| (j - i) <= k < rest.len() implies is_space(#[trigger] rest[k]) by {
            assert(rest[k] == v@[k + i]);
        }
        lemma_trim_end_take(rest, j - i);
        assert(rest.subrange(0, j - i) == v@.subrange(i as int, j as int));
    }
    (i, j)
}

/// `s` without leading and trailing whitespace (`str::trim`).
pub fn trim_str(s: &str) -> (r: &str)
    ensures
        r@ == trim(s@),
{
    let v = chars_of(s);
    let (i, j) = trim_bounds(&v);
    s.substring_char(i, j)
}


/// The maximal runs of non-whitespace characters of `s`, in order, as
/// `str::split_whitespace` yields them: a non-whitespace character extends the
/// word before it when the character before it is not whitespace, and starts a
/// new word otherwise.
pub open spec fn split_words(s: Seq<char>) -> Seq<Seq<char>>
    decreases s.len(),
{
    if s.len() == 0 {
        Seq::empty()
    } else {
        let before = split_words(s.drop_last());
        let c = s.last();
        if is_space(c) {
            before
        } else if s.len() > 1 && !is_space(s[s.len() - 2]) {
            before.drop_last().push(before.last().push(c))
        } else {
            before.push(seq![c])
        }
    }
}

/// The positions of the words of `v`: word `k` is `v[r[k].0 .. r[k].1]`.
pub fn word_ranges(v: &Vec<char>) -> (r: Vec<(usize, usize)>)
    ensures
        r@.len() == split_words(v@).len(),
        forall|k: int| #![trigger r@[k]]
            0 <= k < r@.len() ==> r@[k].0 <= r@[k].1 <= v@.len() && v@.subrange(
                r@[k].0 as int,
                r@[k].1 as int,
            ) == split_words(v@)[k],
{
    let n = v.len();
    let mut r: Vec<(usize, usize)> = Vec::new();
    let mut i: usize = 0;
    while i < n
        invariant
            i <= n == v@.len(),
            r@.len() == split_words(v@.take(i as int)).len(),
            forall|k: int| #![trigger r@[k]]
                0 <= k < r@.len() ==> r@[k].0 <= r@[k].1 <= i && v@.subrange(
                    r@[k].0 as int,
                    r@[k].1 as int,
                ) == split_words(v@.take(i as int))[k],
            (i > 0 && !is_space(v@[i - 1])) ==> r@.len() > 0 && r@.last().1 == i,
        decreases n - i,
    {
        let ghost pre = v@.take(i as int);
        let ghost cur = v@.take(i as int + 1);
        assert(cur.drop_last() == pre);
        let c = v[i];
        assert(cur.last() == c);
        assert(i > 0 ==> cur[cur.len() - 2] == v@[i - 1]);
        if is_space_char(c) {
            assert(split_words(cur) == split_words(pre));
            assert forall|k: int| #![trigger r@[k]] 0 <= k < r@.len() implies r@[k].0 <= r@[k].1 <= i + 1
                && v@.subrange(r@[k].0 as int, r@[k].1 as int) == split_words(cur)[k] by {}
        } else if i > 0 && !is_space_char(v[i - 1]) {
            let last = r.len() - 1;
            let start = r[last].0;
            r.set(last, (start, i + 1));
            proof {
                assert(split_words(cur) == split_words(pre).drop_last().push(
                    split_words(pre).last().push(c),
                ));
                assert(v@.subrange(start as int, i + 1) == v@.subrange(start as int, i as int).push(c));
                assert forall|k: int| #![trigger r@[k]] 0 <= k < r@.len() implies r@[k].0 <= r@[k].1 <= i + 1
                    && v@.subrange(r@[k].0 as int, r@[k].1 as int) == split_words(cur)[k] by {
                    if k < last {
                        assert(split_words(cur)[k] == split_words(pre)[k]);
                    }
                }
            }
        } else {
            r.push((i, i + 1));
            proof {
                assert(split_words(cur) == split_words(pre).push(seq![c]));
                assert(v@.subrange(i as int, i + 1) == seq![c]);
                assert forall|k: int| #![trigger r@[k]] 0 <= k < r@.len() implies r@[k].0 <= r@[k].1 <= i + 1
                    && v@.subrange(r@[k].0 as int, r@[k].1 as int) == split_words(cur)[k] by {
                    if k < r@.len() - 1 {
                        assert(split_words(cur)[k] == split_words(pre)[k]);
                    }
                }
            }
        }
        i = i + 1;
    }
    assert(v@.take(n as int) == v@);
    assert forall|k: int| #![trigger r@[k]] 0 <= k < r@.len() implies r@[k].0 <= r@[k].1 <= v@.len()
        && v@.subrange(r@[k].0 as int, r@[k].1 as int) == split_words(v@)[k] by {}
    r
}


/// The value of `c` as a digit in `radix` (`char::to_digit`): `0`-`9`, then
/// `a`-`z` or `A`-`Z` from ten on, when that value is below the radix.
pub open spec fn digit_value(c: char, radix: nat) -> Option<nat> {
    let v = c as u32;
    let d: int = if 0x30 <= v <= 0x39 {
        v - 0x30
    } else if 0x61 <= v <= 0x7a {
        v - 0x61 + 10
    } else if 0x41 <= v <= 0x5a {
        v - 0x41 + 10
    } else {
        36
    };
    if d < radix {
        Some(d as nat)
    } else {
        None
    }
}

/// The number that the digits `s` spell in `radix`, most significant first;
/// `None` when one of them is no digit. The empty sequence spells zero.
pub open spec fn digits_value(s: Seq<char>, radix: nat) -> Option<nat>
    decreases s.len(),
{
    if s.len() == 0 {
        Some(0)
    } else {
        match (digits_value(s.drop_last(), radix), digit_value(s.last(), radix)) {
            (Some(high), Some(low)) => Some(high * radix + low),
            _ => None,
        }
    }
}

/// Whether `c` is `+` or `-`.
pub open spec fn is_sign(c: char) -> bool {
    c == '+' || c == '-'
}

/// The magnitude that `s` spells as an unsigned integer, as `from_str_radix`
/// of an unsigned type reads it: an optional `+`, then at least one digit.
pub open spec fn unsigned_magnitude(s: Seq<char>, radix: nat) -> Option<nat> {
    if s.len() == 0 || (s.len() == 1 && is_sign(s[0])) {
        None
    } else if s[0] == '+' {
        digits_value(s.drop_first(), radix)
    } else {
        digits_value(s, radix)
    }
}

/// `s` read as an unsigned integer of at most `max`; `None` where the unsigned
/// integer type's `from_str_radix` gives an error.
pub open spec fn parse_unsigned(s: Seq<char>, radix: nat, max: nat) -> Option<nat> {
    match unsigned_magnitude(s, radix) {
        Some(v) => if v <= max {
            Some(v)
        } else {
            None
        },
        None => None,
    }
}

/// The value that `s` spells as a signed integer, as `from_str_radix` of a
/// signed type reads it: an optional `+` or `-`, then at least one digit.
pub open spec fn signed_value(s: Seq<char>, radix: nat) -> Option<int> {
    if s.len() == 0 || (s.len() == 1 && is_sign(s[0])) {
        None
    } else if s[0] == '+' {
        match digits_value(s.drop_first(), radix) {
            Some(v) => Some(v as int),
            None => None,
        }
    } else if s[0] == '-' {
        match digits_value(s.drop_first(), radix) {
            Some(v) => Some(-v),
            None => None,
        }
    } else {
        match digits_value(s, radix) {
            Some(v) => Some(v as int),
            None => None,
        }
    }
}

/// `s` read as a signed integer in `[min, max]`; `None` where the signed
/// integer type's `from_str_radix` gives an error.
pub open spec fn parse_signed(s: Seq<char>, radix: nat, min: int, max: int) -> Option<int> {
    match signed_value(s, radix) {
        Some(v) => if min <= v <= max {
            Some(v)
        } else {
            None
        },
        None => None,
    }
}

/// `c` as a digit in `radix`.
pub fn digit_of(c: char, radix: u32) -> (r: Option<u32>)
    requires
        2 <= radix <= 36,
    ensures
        match digit_value(c, radix as nat) {
            Some(d) => r == Some(d as u32),
            None => r is None,
        },
{
    let v: u32 = c as u32;
    let d: u32 = if 0x30 <= v && v <= 0x39 {
        v - 0x30
    } else if 0x61 <= v && v <= 0x7a {
        v - 0x61 + 10
    } else if 0x41 <= v && v <= 0x5a {
        v - 0x41 + 10
    } else {
        36
    };
    if d < radix {
        Some(d)
    } else {
        None
    }
}

proof fn lemma_digits_prefix(s: Seq<char>, radix: nat, k: int, m: int)
    requires
        0 <= k <= m <= s.len(),
        radix >= 1,
        digits_value(s.take(m), radix) is Some,
    ensures
        digits_value(s.take(k), radix) is Some,
        digits_value(s.take(k), radix)->0 <= digits_value(s.take(m), radix)->0,
    decreases m - k,
{
    if k < m {
        let t = s.take(m);
        assert(t.drop_last() == s.take(m - 1));
        let high = digits_value(s.take(m - 1), radix)->0;
        let low = digit_value(t.last(), radix)->0;
        assert(high * radix + low >= high) by (nonlinear_arith)
            requires
                radix >= 1,
                low >= 0,
                high >= 0,
        ;
        lemma_digits_prefix(s, radix, k, m - 1);
    }
}

/// The number that the digits `v[start..end]` spell in `radix`, where it is
/// at most `max`.
pub fn digits_in(v: &Vec<char>, start: usize, end: usize, radix: u32, max: u64) -> (r: Option<
    u64,
>)
    requires
        start <= end <= v@.len(),
        2 <= radix <= 36,
    ensures
        match digits_value(v@.subrange(start as int, end as int), radix as nat) {
            Some(x) => if x <= max {
                r == Some(x as u64)
            } else {
                r is None
            },
            None => r is None,
        },
{
    let ghost s = v@.subrange(start as int, end as int);
    let mut acc: u64 = 0;
    let mut i: usize = start;
    assert(s.take(0) == Seq::<char>::empty());
    while i < end
        invariant
            start <= i <= end <= v@.len(),
            2 <= radix <= 36,
            s == v@.subrange(start as int, end as int),
            digits_value(s.take(i - start), radix as nat) == Some(acc as nat),
            acc <= max,
        decreases end - i,
    {
        let ghost k = i - start;
        assert(s.take(k + 1).drop_last() == s.take(k));
        assert(s.take(k + 1).last() == v@[i as int]);
        match digit_of(v[i], radix) {
            None => {
                proof {
                    if digits_value(s, radix as nat) is Some {
                        assert(s.take(s.len() as int) == s);
                        lemma_digits_prefix(s, radix as nat, k + 1, s.len() as int);
                    }
                }
                return None;
            },
            Some(d) => {
                let next = match acc.checked_mul(radix as u64) {
                    Some(m) => m.checked_add(d as u64),
                    None => None,
                };
                match next {
                    Some(n) if n <= max => {
                        acc = n;
                    },
                    _ => {
                        proof {
                            if digits_value(s, radix as nat) is Some {
                                assert(s.take(s.len() as int) == s);
                                lemma_digits_prefix(s, radix as nat, k + 1, s.len() as int);
                            }
                        }
                        return None;
                    },
                }
            },
        }
        i = i + 1;
    }
    assert(s.take(end - start) == s);
    Some(acc)
}


/// `v[start..end]` read as an unsigned integer of at most `max` in `radix`.
pub fn parse_unsigned_in(v: &Vec<char>, start: usize, end: usize, radix: u32, max: u64) -> (r:
    Option<u64>)
    requires
        start <= end <= v@.len(),
        2 <= radix <= 36,
    ensures
        match parse_unsigned(v@.subrange(start as int, end as int), radix as nat, max as nat) {
            Some(x) => r == Some(x as u64),
            None => r is None,
        },
{
    let ghost s = v@.subrange(start as int, end as int);
    if start == end {
        return None;
    }
    let first = v[start];
    if end - start == 1 && (first == '+' || first == '-') {
        return None;
    }
    if first == '+' {
        assert(s.drop_first() == v@.subrange(start + 1, end as int));
        digits_in(v, start + 1, end, radix, max)
    } else {
        digits_in(v, start, end, radix, max)
    }
}

/// `v[start..end]` read as a signed integer in `[-neg_limit, max]` in `radix`.
pub fn parse_signed_in(
    v: &Vec<char>,
    start: usize,
    end: usize,
    radix: u32,
    neg_limit: u64,
    max: u64,
) -> (r: Option<(bool, u64)>)
    requires
        start <= end <= v@.len(),
        2 <= radix <= 36,
    ensures
        match parse_signed(
            v@.subrange(start as int, end as int),
            radix as nat,
            -(neg_limit as int),
            max as int,
        ) {
            Some(x) => r matches Some((negative, magnitude)) && x == (if negative {
                -(magnitude as int)
            } else {
                magnitude as int
            }) && (negative ==> magnitude > 0),
            None => r is None,
        },
{
    let ghost s = v@.subrange(start as int, end as int);
    if start == end {
        return None;
    }
    let first = v[start];
    if end - start == 1 && (first == '+' || first == '-') {
        return None;
    }
    assert(s.drop_first() == v@.subrange(start + 1, end as int));
    if first == '-' {
        match digits_in(v, start + 1, end, radix, neg_limit) {
            Some(m) => if m == 0 {
                Some((false, 0))
            } else {
                Some((true, m))
            },
            None => None,
        }
    } else {
        let from = if first == '+' {
            start + 1
        } else {
            start
        };
        match digits_in(v, from, end, radix, max) {
            Some(m) => Some((false, m)),
            None => None,
        }
    }
}

/// `s` read as a decimal `u64` (`str::parse::<u64>`).
pub fn parse_u64(s: &str) -> (r: Option<u64>)
    ensures
        match parse_unsigned(s@, 10, u64::MAX as nat) {
            Some(x) => r == Some(x as u64),
            None => r is None,
        },
{
    let v = chars_of(s);
    assert(v@.subrange(0, v@.len() as int) == v@);
    parse_unsigned_in(&v, 0, v.len(), 10, u64::MAX)
}

/// `s` read as a decimal `u32` (`str::parse::<u32>`).
pub fn parse_u32(s: &str) -> (r: Option<u32>)
    ensures
        match parse_unsigned(s@, 10, u32::MAX as nat) {
            Some(x) => r == Some(x as u32),
            None => r is None,
        },
{
    let v = chars_of(s);
    assert(v@.subrange(0, v@.len() as int) == v@);
    match parse_unsigned_in(&v, 0, v.len(), 10, u32::MAX as u64) {
        Some(x) => Some(x as u32),
        None => None,
    }
}

/// `s` read as a decimal `i32` (`str::parse::<i32>`).
pub fn parse_i32(s: &str) -> (r: Option<i32>)
    ensures
        match parse_signed(s@, 10, i32::MIN as int, i32::MAX as int) {
            Some(x) => r == Some(x as i32),
            None => r is None,
        },
{
    let v = chars_of(s);
    assert(v@.subrange(0, v@.len() as int) == v@);
    match parse_signed_in(&v, 0, v.len(), 10, 0x8000_0000, 0x7fff_ffff) {
        Some((negative, m)) => {
            if negative {
                if m == 0x8000_0000 {
                    Some(i32::MIN)
                } else {
                    Some(-(m as i32))
                }
            } else {
                Some(m as i32)
            }
        },
        None => None,
    }
}

/// `s` read as a hexadecimal `u8` (`u8::from_str_radix(s, 16)`).
pub fn parse_u8_hex(s: &str) -> (r: Option<u8>)
    ensures
        match parse_unsigned(s@, 16, u8::MAX as nat) {
            Some(x) => r == Some(x as u8),
            None => r is None,
        },
{
    let v = chars_of(s);
    assert(v@.subrange(0, v@.len() as int) == v@);
    match parse_unsigned_in(&v, 0, v.len(), 16, u8::MAX as u64) {
        Some(x) => Some(x as u8),
        None => None,
    }
}


/// `s` without the repeated occurrences of `p` at its start
/// (`str::trim_start_matches` with a string pattern).
pub open spec fn trim_start_matches(s: Seq<char>, p: Seq<char>) -> Seq<char>
    decreases s.len(),
{
    if p.len() > 0 && p.is_prefix_of(s) {
        trim_start_matches(s.skip(p.len() as int), p)
    } else {
        s
    }
}

/// `s` after its prefix `p`, if it starts with `p` (`str::strip_prefix`).
pub open spec fn strip_prefix(s: Seq<char>, p: Seq<char>) -> Option<Seq<char>> {
    if p.is_prefix_of(s) {
        Some(s.skip(p.len() as int))
    } else {
        None
    }
}

/// Whether `p` occurs in `v` at position `at`.
fn occurs_at(v: &Vec<char>, at: usize, p: &Vec<char>) -> (r: bool)
    requires
        at <= v@.len(),
    ensures
        r == p@.is_prefix_of(v@.skip(at as int)),
{
    if p.len() > v.len() - at {
        return false;
    }
    let mut k: usize = 0;
    while k < p.len()
        invariant
            at <= v.len(),
            p.len() <= v.len() - at,
            k <= p@.len(),
            forall|j: int| 0 <= j < k ==> p@[j] == v@[at + j],
        decreases p@.len() - k,
    {
        if p[k] != v[at + k] {
            assert(v@.skip(at as int)[k as int] == v@[at + k]);
            return false;
        }
        k = k + 1;
    }
    assert(p@ == v@.skip(at as int).take(p@.len() as int));
    true
}

/// `s` without the repeated occurrences of `p` at its start
/// (`str::trim_start_matches`).
pub fn trim_start_matches_str<'a>(s: &'a str, p: &str) -> (r: &'a str)
    ensures
        r@ == trim_start_matches(s@, p@),
{
    let v = chars_of(s);
    let q = chars_of(p);
    if q.len() == 0 {
        return s;
    }
    let mut i: usize = 0;
    assert(v@.skip(0) == v@);
    while occurs_at(&v, i, &q)
        invariant
            i <= v.len(),
            q.len() > 0,
            trim_start_matches(v@, q@) == trim_start_matches(v@.skip(i as int), q@),
        decreases v@.len() - i,
    {
        assert(q@.len() <= v@.skip(i as int).len());
        assert(v@.skip(i as int).skip(q@.len() as int) == v@.skip(i + q@.len()));
        i = i + q.len();
    }
    assert(v@.skip(0) == v@);
    assert(v@.skip(i as int) == v@.subrange(i as int, v@.len() as int));
    s.substring_char(i, v.len())
}

/// `s` after its prefix `p`, if it starts with `p` (`str::strip_prefix`).
pub fn strip_prefix_str<'a>(s: &'a str, p: &str) -> (r: Option<&'a str>)
    ensures
        match strip_prefix(s@, p@) {
            Some(rest) => r matches Some(x) && x@ == rest,
            None => r is None,
        },
{
    let v = chars_of(s);
    let q = chars_of(p);
    assert(v@.skip(0) == v@);
    if occurs_at(&v, 0, &q) {
        assert(v@.skip(q@.len() as int) == v@.subrange(q@.len() as int, v@.len() as int));
        Some(s.substring_char(q.len(), v.len()))
    } else {
        None
    }
}


/// The character of the decimal digit `d`.
pub open spec fn digit_char(d: nat) -> char {
    ((d + 0x30) as u32) as char
}

/// The decimal digits of `n`, most significant first, without leading zeros.
pub open spec fn decimal_digits(n: nat) -> Seq<char>
    decreases n,
{
    if n < 10 {
        seq![digit_char(n)]
    } else {
        decimal_digits(n / 10).push(digit_char(n % 10))
    }
}

/// `n` written in decimal, with a leading `-` when negative, as `Display` of
/// an integer writes it.
pub open spec fn decimal(n: int) -> Seq<char> {
    if n < 0 {
        seq!['-'] + decimal_digits((-n) as nat)
    } else {
        decimal_digits(n as nat)
    }
}

/// The one-character string of the decimal digit `d`.
fn digit_str(d: u64) -> (r: &'static str)
    requires
        d < 10,
    ensures
        r@ == seq![digit_char(d as nat)],
{
    proof {
        reveal_strlit("0");
        reveal_strlit("1");
        reveal_strlit("2");
        reveal_strlit("3");
        reveal_strlit("4");
        reveal_strlit("5");
        reveal_strlit("6");
        reveal_strlit("7");
        reveal_strlit("8");
        reveal_strlit("9");
    }
    let r = if d == 0 {
        "0"
    } else if d == 1 {
        "1"
    } else if d == 2 {
        "2"
    } else if d == 3 {
        "3"
    } else if d == 4 {
        "4"
    } else if d == 5 {
        "5"
    } else if d == 6 {
        "6"
    } else if d == 7 {
        "7"
    } else if d == 8 {
        "8"
    } else {
        "9"
    };
    assert(r@ =~= seq![digit_char(d as nat)]);
    r
}

/// Appends the decimal digits of `n` to `out`.
fn append_digits(out: &mut String, n: u64)
    ensures
        final(out)@ == old(out)@ + decimal_digits(n as nat),
    decreases n,
{
    if n >= 10 {
        append_digits(out, n / 10);
        out.append(digit_str(n % 10));
        assert(decimal_digits(n as nat) == decimal_digits((n / 10) as nat).push(
            digit_char((n % 10) as nat),
        ));
    } else {
        out.append(digit_str(n));
    }
}

/// Appends `n` written in decimal to `out`.
pub fn append_decimal(out: &mut String, n: i64)
    ensures
        final(out)@ == old(out)@ + decimal(n as int),
{
    if n < 0 {
        out.append("-");
        proof {
            reveal_strlit("-");
        }
        let magnitude: u64 = (0i128 - n as i128) as u64;
        append_digits(out, magnitude);
        assert(old(out)@ + decimal(n as int) =~= old(out)@ + "-"@ + decimal_digits(
            magnitude as nat,
        ));
    } else {
        append_digits(out, n as u64);
    }
}

} // verus!
