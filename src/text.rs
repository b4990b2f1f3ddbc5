//! Character-level helpers: search, splitting and decimal numbers.

use vstd::prelude::*;
use vstd::std_specs::iter::IteratorSpec;
use vstd::string::group_string_axioms;

verus! {

broadcast use group_string_axioms;

/// `needle` occurs in `hay` at position `i`.
pub open spec fn occurs_at(hay: Seq<char>, needle: Seq<char>, i: int) -> bool {
    0 <= i && i + needle.len() <= hay.len() && hay.subrange(i, i + needle.len()) == needle
}

pub open spec fn contains_seq(hay: Seq<char>, needle: Seq<char>) -> bool {
    exists|i: int| occurs_at(hay, needle, i)
}

pub open spec fn starts_with_seq(hay: Seq<char>, prefix: Seq<char>) -> bool {
    occurs_at(hay, prefix, 0)
}

/// Splitting on `c`, as `str::split` does: scans from `i` with the pieces
/// before `i` already taken and `cur` the piece being built.
pub open spec fn split_acc(s: Seq<char>, c: char, i: int, cur: Seq<char>) -> Seq<Seq<char>>
    decreases s.len() - i,
{
    if i >= s.len() || i < 0 {
        seq![cur]
    } else if s[i] == c {
        seq![cur] + split_acc(s, c, i + 1, Seq::empty())
    } else {
        split_acc(s, c, i + 1, cur.push(s[i]))
    }
}

/// The pieces of `s` between occurrences of `c` (one more than the number of `c`).
pub open spec fn split_on(s: Seq<char>, c: char) -> Seq<Seq<char>> {
    split_acc(s, c, 0, Seq::empty())
}

pub proof fn lemma_split_acc_nonempty(s: Seq<char>, c: char, i: int, cur: Seq<char>)
    ensures
        split_acc(s, c, i, cur).len() >= 1,
    decreases s.len() - i,
{
    if i >= s.len() || i < 0 {
    } else if s[i] == c {
        lemma_split_acc_nonempty(s, c, i + 1, Seq::empty());
    } else {
        lemma_split_acc_nonempty(s, c, i + 1, cur.push(s[i]));
    }
}

pub open spec fn is_digit(c: char) -> bool {
    '0' <= c && c <= '9'
}

pub open spec fn digits_value(s: Seq<char>) -> int
    decreases s.len(),
{
    if s.len() == 0 {
        0
    } else {
        digits_value(s.drop_last()) * 10 + (s.last() as int - '0' as int)
    }
}

pub open spec fn all_digits(d: Seq<char>) -> bool {
    forall|i: int| 0 <= i < d.len() ==> is_digit(#[trigger] d[i])
}

/// `s` without one leading `+`.
pub open spec fn unsigned_digits(s: Seq<char>) -> Seq<char> {
    if s.len() > 0 && s[0] == '+' {
        s.skip(1)
    } else {
        s
    }
}

/// What `str::parse::<u32>` accepts: an optional `+`, then at least one
/// decimal digit, with a value that fits 32 bits.
pub open spec fn parse_u32_spec(s: Seq<char>) -> Option<u32> {
    let d = unsigned_digits(s);
    if d.len() > 0 && all_digits(d) && digits_value(d) <= u32::MAX {
        Some(digits_value(d) as u32)
    } else {
        None
    }
}

/// The characters of `s`.
pub fn chars_of(s: &str) -> (r: Vec<char>)
    ensures
        r@ == s@,
{
    let n = s.unicode_len();
    let mut it = s.chars();
    let mut out: Vec<char> = Vec::new();
    while out.len() < n
        invariant
            n == s@.len(),
            out@.len() <= n,
            out@ + it.remaining() == s@,
        decreases n - out@.len(),
    {
        let ghost before = it.remaining();
        match it.next() {
            Some(c) => {
                proof {
                    assert(out@.push(c) + it.remaining() =~= out@ + before);
                }
                out.push(c);
            },
            None => {
                assert(out@ + before == s@);
                assert(false);
            },
        }
    }
    assert(out@.len() == n);
    assert((out@ + it.remaining()).len() == out@.len() + it.remaining().len());
    assert(it.remaining().len() == 0);
    assert(out@ + it.remaining() =~= out@);
    out
}

/// Whether `needle` occurs in `hay` at position `i`.
pub fn matches_at(hay: &Vec<char>, needle: &Vec<char>, i: usize) -> (r: bool)
    ensures
        r == occurs_at(hay@, needle@, i as int),
{
    if i > hay.len() || needle.len() > hay.len() - i {
        return false;
    }
    let hl = hay.len();
    let mut j: usize = 0;
    while j < needle.len()
        invariant
            hl == hay@.len(),
            i <= hay@.len(),
            needle@.len() <= hay@.len() - i,
            j <= needle@.len(),
            forall|k: int| 0 <= k < j ==> hay@[i + k] == needle@[k],
        decreases needle@.len() - j,
    {
        assert(i + j < hl);
        if hay[i + j] != needle[j] {
            assert(hay@.subrange(i as int, i + needle@.len())[j as int] != needle@[j as int]);
            return false;
        }
        j = j + 1;
    }
    assert(hay@.subrange(i as int, i + needle@.len()) =~= needle@);
    true
}

pub fn contains_chars(hay: &Vec<char>, needle: &str) -> (r: bool)
    ensures
        r == contains_seq(hay@, needle@),
{
    let n = chars_of(needle);
    if n.len() > hay.len() {
        return false;
    }
    let limit = hay.len() - n.len();
    let mut i: usize = 0;
    loop
        invariant
            n@ == needle@,
            n@.len() <= hay@.len(),
            limit == hay@.len() - n@.len(),
            i <= limit,
            forall|k: int| 0 <= k < i ==> !occurs_at(hay@, needle@, k),
        decreases limit - i,
    {
        if matches_at(hay, &n, i) {
            return true;
        }
        if i == limit {
            proof {
                assert forall|k: int| !occurs_at(hay@, needle@, k) by {
                    if 0 <= k <= limit {
                    }
                }
            }
            return false;
        }
        i = i + 1;
    }
}

pub fn starts_with_chars(hay: &Vec<char>, prefix: &str) -> (r: bool)
    ensures
        r == starts_with_seq(hay@, prefix@),
{
    let p = chars_of(prefix);
    matches_at(hay, &p, 0)
}

/// `i` is the first position at or after `from` where `s` holds `c`.
pub open spec fn is_first_char_from(s: Seq<char>, c: char, from: int, i: int) -> bool {
    from <= i < s.len() && s[i] == c && forall|k: int| from <= k < i ==> s[k] != c
}

/// `i` is the first position where `needle` occurs in `hay`.
pub open spec fn is_first_occurrence(hay: Seq<char>, needle: Seq<char>, i: int) -> bool {
    occurs_at(hay, needle, i) && forall|k: int| 0 <= k < i ==> !occurs_at(hay, needle, k)
}

/// Index of the first `c` in `s` at or after `from`.
pub fn find_char(s: &Vec<char>, c: char, from: usize) -> (r: Option<usize>)
    ensures
        match r {
            Some(i) => from <= i < s@.len() && s@[i as int] == c && forall|k: int|
                from <= k < i ==> s@[k] != c,
            None => forall|k: int| from <= k < s@.len() ==> s@[k] != c,
        },
{
    let mut i: usize = from;
    while i < s.len()
        invariant
            from <= i,
            forall|k: int| from <= k < i ==> s@[k] != c,
        decreases s@.len() - i,
    {
        if s[i] == c {
            return Some(i);
        }
        i = i + 1;
    }
    None
}

/// Index of the first occurrence of `needle` in `hay`.
pub fn find_chars(hay: &Vec<char>, needle: &str) -> (r: Option<usize>)
    ensures
        match r {
            Some(i) => occurs_at(hay@, needle@, i as int) && forall|k: int|
                0 <= k < i ==> !occurs_at(hay@, needle@, k),
            None => !contains_seq(hay@, needle@),
        },
{
    let n = chars_of(needle);
    if n.len() > hay.len() {
        return None;
    }
    let limit = hay.len() - n.len();
    let mut i: usize = 0;
    loop
        invariant
            n@ == needle@,
            n@.len() <= hay@.len(),
            limit == hay@.len() - n@.len(),
            i <= limit,
            forall|k: int| 0 <= k < i ==> !occurs_at(hay@, needle@, k),
        decreases limit - i,
    {
        if matches_at(hay, &n, i) {
            return Some(i);
        }
        if i == limit {
            proof {
                assert forall|k: int| !occurs_at(hay@, needle@, k) by {
                    if 0 <= k <= limit {
                    }
                }
            }
            return None;
        }
        i = i + 1;
    }
}

/// The pieces of `s` between occurrences of `c`.
pub fn split_chars(s: &Vec<char>, c: char) -> (r: Vec<Vec<char>>)
    ensures
        r@.map_values(|p: Vec<char>| p@) == split_on(s@, c),
{
    let mut parts: Vec<Vec<char>> = Vec::new();
    let mut cur: Vec<char> = Vec::new();
    let mut i: usize = 0;
    while i < s.len()
        invariant
            i <= s@.len(),
            parts@.map_values(|p: Vec<char>| p@) + split_acc(s@, c, i as int, cur@) == split_on(
                s@,
                c,
            ),
        decreases s@.len() - i,
    {
        let ghost pv = parts@.map_values(|p: Vec<char>| p@);
        let ghost cv = cur@;
        if s[i] == c {
            parts.push(cur);
            cur = Vec::new();
            proof {
                assert(parts@.map_values(|p: Vec<char>| p@) =~= pv.push(cv));
                assert(pv + split_acc(s@, c, i as int, cv) =~= pv.push(cv) + split_acc(
                    s@,
                    c,
                    i + 1,
                    Seq::empty(),
                ));
                assert(cur@ =~= Seq::<char>::empty());
            }
        } else {
            cur.push(s[i]);
        }
        i = i + 1;
    }
    let ghost pv = parts@.map_values(|p: Vec<char>| p@);
    let ghost cv = cur@;
    parts.push(cur);
    proof {
        assert(parts@.map_values(|p: Vec<char>| p@) =~= pv + seq![cv]);
    }
    parts
}

proof fn lemma_digits_value_nonneg(s: Seq<char>)
    requires
        forall|i: int| 0 <= i < s.len() ==> is_digit(#[trigger] s[i]),
    ensures
        digits_value(s) >= 0,
    decreases s.len(),
{
    if s.len() > 0 {
        assert forall|i: int| 0 <= i < s.drop_last().len() implies is_digit(
            #[trigger] s.drop_last()[i],
        ) by {
            assert(s.drop_last()[i] == s[i]);
        }
        lemma_digits_value_nonneg(s.drop_last());
    }
}

/// Decimal value of `s` as `str::parse::<u32>` reads it.
pub fn parse_u32(s: &Vec<char>) -> (r: Option<u32>)
    ensures
        r == parse_u32_spec(s@),
{
    let start: usize = if s.len() > 0 && s[0] == '+' {
        1
    } else {
        0
    };
    let ghost d = unsigned_digits(s@);
    assert(d =~= s@.subrange(start as int, s@.len() as int));
    if start >= s.len() {
        return None;
    }
    let cap: u64 = 4294967296;
    let mut acc: u64 = 0;
    let mut i: usize = start;
    while i < s.len()
        invariant
            start <= i <= s@.len(),
            d == s@.subrange(start as int, s@.len() as int),
            d == unsigned_digits(s@),
            cap == u32::MAX + 1,
            forall|k: int| start <= k < i ==> is_digit(#[trigger] s@[k]),
            acc as int == if digits_value(s@.subrange(start as int, i as int)) < cap {
                digits_value(s@.subrange(start as int, i as int))
            } else {
                cap as int
            },
        decreases s@.len() - i,
    {
        let ch = s[i];
        if !('0' <= ch && ch <= '9') {
            proof {
                assert(d[i - start] == ch);
                assert(!is_digit(d[i - start]));
                assert(!all_digits(d));
            }
            return None;
        }
        let digit: u64 = (ch as u32 - '0' as u32) as u64;
        let ghost prev = s@.subrange(start as int, i as int);
        let ghost next = s@.subrange(start as int, i + 1);
        proof {
            assert(next.drop_last() =~= prev);
            assert(next.last() == ch);
            assert forall|k: int| 0 <= k < prev.len() implies is_digit(#[trigger] prev[k]) by {
                assert(prev[k] == s@[start + k]);
            }
            lemma_digits_value_nonneg(prev);
        }
        if acc < cap {
            let v = acc * 10 + digit;
            acc = if v < cap {
                v
            } else {
                cap
            };
        } else {
            proof {
                assert(digits_value(next) >= digits_value(prev) * 10) by (nonlinear_arith)
                    requires
                        digits_value(next) == digits_value(prev) * 10 + digit,
                        digit >= 0,
                ;
                assert(digits_value(prev) * 10 >= cap) by (nonlinear_arith)
                    requires
                        digits_value(prev) >= cap,
                        cap > 0,
                ;
            }
        }
        i = i + 1;
    }
    proof {
        assert(s@.subrange(start as int, s@.len() as int) == d);
        assert forall|k: int| 0 <= k < d.len() implies is_digit(#[trigger] d[k]) by {
            assert(d[k] == s@[start + k]);
        }
    }
    if acc < cap {
        Some(acc as u32)
    } else {
        None
    }
}

/// What `char::is_whitespace` accepts: the characters with the Unicode
/// White_Space property.
pub open spec fn is_whitespace_char(c: char) -> bool {
    ('\u{9}' <= c && c <= '\u{d}') || c == ' ' || c == '\u{85}' || c == '\u{a0}' || c == '\u{1680}'
        || ('\u{2000}' <= c && c <= '\u{200a}') || c == '\u{2028}' || c == '\u{2029}' || c
        == '\u{202f}' || c == '\u{205f}' || c == '\u{3000}'
}

/// Whether `c` is Unicode whitespace, as `char::is_whitespace` decides it.
pub fn is_whitespace(c: char) -> (r: bool)
    ensures
        r == is_whitespace_char(c),
{
    ('\u{9}' <= c && c <= '\u{d}') || c == ' ' || c == '\u{85}' || c == '\u{a0}' || c == '\u{1680}'
        || ('\u{2000}' <= c && c <= '\u{200a}') || c == '\u{2028}' || c == '\u{2029}' || c
        == '\u{202f}' || c == '\u{205f}' || c == '\u{3000}'
}

pub open spec fn trim_start_chars(s: Seq<char>) -> Seq<char>
    decreases s.len(),
{
    if s.len() > 0 && is_whitespace_char(s[0]) {
        trim_start_chars(s.skip(1))
    } else {
        s
    }
}

pub open spec fn trim_end_chars(s: Seq<char>) -> Seq<char>
    decreases s.len(),
{
    if s.len() > 0 && is_whitespace_char(s.last()) {
        trim_end_chars(s.drop_last())
    } else {
        s
    }
}

/// `s` without leading and trailing whitespace, as `str::trim` gives it.
pub open spec fn trim_chars(s: Seq<char>) -> Seq<char> {
    trim_end_chars(trim_start_chars(s))
}

/// What `str::parse::<usize>` accepts: an optional `+`, then at least one
/// decimal digit, with a value that fits.
pub open spec fn parse_usize_text(s: Seq<char>) -> Option<usize> {
    let d = unsigned_digits(s);
    if d.len() > 0 && all_digits(d) && digits_value(d) <= usize::MAX {
        Some(digits_value(d) as usize)
    } else {
        None
    }
}

proof fn lemma_trim_start_step(s: Seq<char>, a: int, z: int)
    requires
        0 <= a < z <= s.len(),
        is_whitespace_char(s[a]),
    ensures
        trim_start_chars(s.subrange(a, z)) == trim_start_chars(s.subrange(a + 1, z)),
{
    assert(s.subrange(a, z).skip(1) =~= s.subrange(a + 1, z));
}

proof fn lemma_trim_end_step(s: Seq<char>, a: int, z: int)
    requires
        0 <= a < z <= s.len(),
        is_whitespace_char(s[z - 1]),
    ensures
        trim_end_chars(s.subrange(a, z)) == trim_end_chars(s.subrange(a, z - 1)),
{
    assert(s.subrange(a, z).drop_last() =~= s.subrange(a, z - 1));
}

/// Bounds of `s` without its leading and trailing whitespace.
pub fn trim_bounds(s: &Vec<char>) -> (r: (usize, usize))
    ensures
        r.0 <= r.1 <= s@.len(),
        s@.subrange(r.0 as int, r.1 as int) == trim_chars(s@),
{
    let hi = s.len();
    assert(s@.subrange(0, hi as int) =~= s@);
    let mut a: usize = 0;
    while a < hi && is_whitespace(s[a])
        invariant
            a <= hi == s@.len(),
            trim_start_chars(s@) == trim_start_chars(s@.subrange(a as int, hi as int)),
        decreases hi - a,
    {
        proof {
            lemma_trim_start_step(s@, a as int, hi as int);
        }
        a = a + 1;
    }
    assert(trim_start_chars(s@.subrange(a as int, hi as int)) == s@.subrange(a as int, hi as int));
    let mut z = hi;
    while z > a && is_whitespace(s[z - 1])
        invariant
            a <= z <= hi == s@.len(),
            trim_chars(s@) == trim_end_chars(s@.subrange(a as int, z as int)),
        decreases z - a,
    {
        proof {
            lemma_trim_end_step(s@, a as int, z as int);
        }
        z = z - 1;
    }
    (a, z)
}

/// Appending digits never makes a decimal number smaller.
proof fn lemma_digits_grow(s: Seq<char>, start: int, i: int, hi: int)
    requires
        0 <= start <= i <= hi <= s.len(),
        forall|k: int| start <= k < i ==> is_digit(#[trigger] s[k]),
    ensures
        all_digits(s.subrange(start, hi)) ==> digits_value(s.subrange(start, hi)) >= digits_value(
            s.subrange(start, i),
        ),
    decreases hi - i,
{
    if i < hi && all_digits(s.subrange(start, hi)) {
        assert(s.subrange(start, hi)[i - start] == s[i]);
        assert forall|k: int| start <= k < i + 1 implies is_digit(#[trigger] s[k]) by {
            if k >= i {
                assert(s.subrange(start, hi)[k - start] == s[k]);
            }
        }
        lemma_digits_grow(s, start, i + 1, hi);
        let prev = s.subrange(start, i);
        let next = s.subrange(start, i + 1);
        assert(next.drop_last() =~= prev);
        assert forall|k: int| 0 <= k < prev.len() implies is_digit(#[trigger] prev[k]) by {
            assert(prev[k] == s[start + k]);
        }
        lemma_digits_value_nonneg(prev);
        assert(digits_value(next) >= digits_value(prev)) by (nonlinear_arith)
            requires
                digits_value(next) == digits_value(prev) * 10 + (s[i] as int - '0' as int),
                digits_value(prev) >= 0,
                s[i] as int >= '0' as int,
        ;
    }
}

/// The number that `s[lo..hi]` spells, as `str::parse::<usize>` reads it.
pub fn parse_usize_chars(s: &Vec<char>, lo: usize, hi: usize) -> (r: Option<usize>)
    requires
        lo <= hi <= s@.len(),
    ensures
        r == parse_usize_text(s@.subrange(lo as int, hi as int)),
{
    let ghost t = s@.subrange(lo as int, hi as int);
    let start: usize = if lo < hi && s[lo] == '+' {
        lo + 1
    } else {
        lo
    };
    let ghost d = unsigned_digits(t);
    assert(d =~= s@.subrange(start as int, hi as int));
    if start >= hi {
        return None;
    }
    let mut acc: usize = 0;
    let mut i: usize = start;
    while i < hi
        invariant
            lo <= start <= i <= hi <= s@.len(),
            d == s@.subrange(start as int, hi as int),
            d == unsigned_digits(t),
            t == s@.subrange(lo as int, hi as int),
            forall|k: int| start <= k < i ==> is_digit(#[trigger] s@[k]),
            acc as int == digits_value(s@.subrange(start as int, i as int)),
        decreases hi - i,
    {
        let c = s[i];
        if !('0' <= c && c <= '9') {
            proof {
                assert(d[i - start] == c);
                assert(!all_digits(d));
            }
            return None;
        }
        let ghost prev = s@.subrange(start as int, i as int);
        let ghost next = s@.subrange(start as int, i + 1);
        proof {
            assert(next.drop_last() =~= prev);
            assert(next.last() == c);
        }
        let digit: usize = (c as u32 - '0' as u32) as usize;
        if acc > (usize::MAX - digit) / 10 {
            proof {
                assert(digits_value(next) == acc * 10 + digit);
                assert(acc * 10 + digit > usize::MAX) by (nonlinear_arith)
                    requires
                        acc > (usize::MAX - digit) / 10,
                        0 <= digit <= 9,
                ;
                lemma_digits_grow(s@, start as int, i + 1, hi as int);
            }
            return None;
        }
        proof {
            assert(acc * 10 + digit <= usize::MAX) by (nonlinear_arith)
                requires
                    acc <= (usize::MAX - digit) / 10,
                    0 <= digit <= 9,
            ;
        }
        acc = acc * 10 + digit;
        i = i + 1;
    }
    proof {
        assert forall|k: int| 0 <= k < d.len() implies is_digit(#[trigger] d[k]) by {
            assert(d[k] == s@[start + k]);
        }
    }
    Some(acc)
}

} // verus!
