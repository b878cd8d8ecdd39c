//! Character-sequence utilities shared by the rest of the crate: conversion
//! between `str`/`String` and `Vec<char>`, decimal formatting, and the
//! whitespace and line splitting rules of `str::lines`/`str::split_whitespace`.

use vstd::prelude::*;

verus! {

/// The characters of `s`, in order.
pub fn chars_of(s: &str) -> (v: Vec<char>)
    ensures
        v@ == s@,
{
    let mut it = s.chars();
    let mut v: Vec<char> = Vec::new();
    loop
        invariant
            v@ + vstd::std_specs::iter::IteratorSpec::remaining(&it) == s@,
            vstd::std_specs::iter::IteratorSpec::decrease(&it) is Some,
        ensures
            v@ == s@,
        decreases vstd::std_specs::iter::IteratorSpec::decrease(&it)->0,
    {
        match it.next() {
            Some(c) => {
                v.push(c);
            },
            None => {
                proof {
                    assert(v@ + Seq::<char>::empty() =~= v@);
                }
                break;
            },
        }
    }
    v
}

/// `String: FromIterator<&char>`: the string made of the characters of `v`.
#[verifier::external_body]
pub(crate) fn string_of(v: &[char]) -> (s: String)
    ensures
        s@ == v@,
{
    v.iter().collect()
}

/// The character of a decimal digit.
pub open spec fn digit_char(d: nat) -> char {
    ((d + 48) as u8) as char
}

/// The decimal representation of a natural number, without leading zeros.
pub open spec fn nat_decimal(n: nat) -> Seq<char>
    decreases n,
{
    if n < 10 {
        seq![digit_char(n)]
    } else {
        nat_decimal(n / 10) + seq![digit_char(n % 10)]
    }
}

/// The decimal representation of an integer: a `-` before the digits of a negative one.
pub open spec fn int_decimal(n: int) -> Seq<char> {
    if n < 0 {
        seq!['-'] + nat_decimal((-n) as nat)
    } else {
        nat_decimal(n as nat)
    }
}

fn digit(d: u128) -> (c: char)
    requires
        d < 10,
    ensures
        c == digit_char(d as nat),
{
    let b: u8 = d as u8;
    (b + 48) as char
}

/// The decimal digits of `n`, as `format!("{}", n)` writes them.
pub fn u128_decimal(n: u128) -> (s: Vec<char>)
    ensures
        s@ == nat_decimal(n as nat),
{
    let mut rest: u128 = n;
    let mut out: Vec<char> = Vec::new();
    while rest >= 10
        invariant
            nat_decimal(n as nat) == nat_decimal(rest as nat) + out@,
        decreases rest,
    {
        let c = digit(rest % 10);
        out.insert(0, c);
        proof {
            assert(nat_decimal(rest as nat) == nat_decimal((rest / 10) as nat) + seq![c]);
        }
        rest = rest / 10;
    }
    let c = digit(rest);
    out.insert(0, c);
    out
}

/// The decimal representation of `n`, with a `-` when it is negative.
pub fn i32_decimal(n: i32) -> (s: Vec<char>)
    ensures
        s@ == int_decimal(n as int),
{
    if n < 0 {
        let m: i64 = n as i64;
        let abs: u128 = (-m) as u128;
        let digits = u128_decimal(abs);
        let mut out: Vec<char> = Vec::new();
        out.push('-');
        push_all(&mut out, &digits);
        out
    } else {
        u128_decimal(n as u128)
    }
}


/// Appends the characters of `s` to `out`.
pub fn push_all(out: &mut Vec<char>, s: &[char])
    ensures
        final(out)@ == old(out)@ + s@,
{
    let mut k: usize = 0;
    while k < s.len()
        invariant
            0 <= k <= s.len(),
            out@ == old(out)@ + s@.take(k as int),
        decreases s.len() - k,
    {
        out.push(s[k]);
        proof {
            assert(s@.take(k + 1) == s@.take(k as int).push(s@[k as int]));
        }
        k = k + 1;
    }
    proof {
        assert(s@.take(s@.len() as int) == s@);
    }
}

/// Whether two character sequences are equal.
pub fn chars_eq(a: &[char], b: &[char]) -> (r: bool)
    ensures
        r == (a@ == b@),
{
    if a.len() != b.len() {
        return false;
    }
    let mut k: usize = 0;
    while k < a.len()
        invariant
            a@.len() == b@.len(),
            0 <= k <= a.len(),
            forall|j: int| 0 <= j < k ==> a@[j] == b@[j],
        decreases a.len() - k,
    {
        if a[k] != b[k] {
            return false;
        }
        k = k + 1;
    }
    proof {
        assert(a@ =~= b@);
    }
    true
}

/// Whether `s` begins with `prefix`.
pub open spec fn has_prefix(s: Seq<char>, prefix: Seq<char>) -> bool {
    prefix.len() <= s.len() && s.take(prefix.len() as int) == prefix
}

/// Whether `s` begins with `prefix`.
pub fn starts_with(s: &[char], prefix: &[char]) -> (r: bool)
    ensures
        r == has_prefix(s@, prefix@),
{
    if prefix.len() > s.len() {
        return false;
    }
    let mut k: usize = 0;
    while k < prefix.len()
        invariant
            prefix@.len() <= s@.len(),
            0 <= k <= prefix.len(),
            forall|j: int| 0 <= j < k ==> s@[j] == prefix@[j],
        decreases prefix.len() - k,
    {
        if s[k] != prefix[k] {
            proof {
                assert(s@.take(prefix@.len() as int)[k as int] != prefix@[k as int]);
            }
            return false;
        }
        k = k + 1;
    }
    proof {
        assert(s@.take(prefix@.len() as int) =~= prefix@);
    }
    true
}

/// The characters of `s` from `from` (inclusive) to `to` (exclusive).
pub fn slice_chars(s: &[char], from: usize, to: usize) -> (r: Vec<char>)
    requires
        from <= to <= s@.len(),
    ensures
        r@ == s@.subrange(from as int, to as int),
{
    let mut out: Vec<char> = Vec::new();
    let mut k: usize = from;
    while k < to
        invariant
            from <= k <= to <= s@.len(),
            out@ == s@.subrange(from as int, k as int),
        decreases to - k,
    {
        out.push(s[k]);
        proof {
            assert(s@.subrange(from as int, k + 1) == s@.subrange(from as int, k as int).push(
                s@[k as int],
            ));
        }
        k = k + 1;
    }
    out
}

/// Unicode `White_Space`, the property that `char::is_whitespace` tests.
pub open spec fn is_white_space(c: char) -> bool {
    let u = c as u32;
    ||| 0x09 <= u <= 0x0D
    ||| u == 0x20
    ||| u == 0x85
    ||| u == 0xA0
    ||| u == 0x1680
    ||| 0x2000 <= u <= 0x200A
    ||| u == 0x2028
    ||| u == 0x2029
    ||| u == 0x202F
    ||| u == 0x205F
    ||| u == 0x3000
}

/// Whether `c` is white space, as `char::is_whitespace` decides it.
pub fn is_whitespace(c: char) -> (r: bool)
    ensures
        r == is_white_space(c),
{
    let u = c as u32;
    (0x09 <= u && u <= 0x0D) || u == 0x20 || u == 0x85 || u == 0xA0 || u == 0x1680 || (0x2000 <= u
        && u <= 0x200A) || u == 0x2028 || u == 0x2029 || u == 0x202F || u == 0x205F || u == 0x3000
}

/// A line without the `\r` of a `\r\n` ending.
pub open spec fn strip_cr(line: Seq<char>) -> Seq<char> {
    if line.len() > 0 && line.last() == '\r' {
        line.drop_last()
    } else {
        line
    }
}

/// Reading `s` from the left: the lines ended by a `\n` so far (each without its
/// ending), and the characters of the line still open.
pub open spec fn line_scan(s: Seq<char>) -> (Seq<Seq<char>>, Seq<char>)
    decreases s.len(),
{
    if s.len() == 0 {
        (Seq::empty(), Seq::empty())
    } else {
        let (done, open) = line_scan(s.drop_last());
        if s.last() == '\n' {
            (done.push(strip_cr(open)), Seq::empty())
        } else {
            (done, open.push(s.last()))
        }
    }
}

/// The lines of `s`, as `str::lines` yields them: split at `\n`, a `\r` just before
/// the `\n` dropped, and no empty line after a final `\n`.
pub open spec fn text_lines(s: Seq<char>) -> Seq<Seq<char>> {
    let (done, open) = line_scan(s);
    if open.len() > 0 {
        done.push(open)
    } else {
        done
    }
}

/// The lines of `s` (see `text_lines`).
pub fn lines(s: &[char]) -> (r: Vec<Vec<char>>)
    ensures
        r.deep_view() == text_lines(s@),
{
    let mut done: Vec<Vec<char>> = Vec::new();
    let mut open: Vec<char> = Vec::new();
    let mut k: usize = 0;
    while k < s.len()
        invariant
            0 <= k <= s.len(),
            (done.deep_view(), open@) == line_scan(s@.take(k as int)),
        decreases s.len() - k,
    {
        let c = s[k];
        proof {
            assert(s@.take(k + 1).drop_last() == s@.take(k as int));
        }
        if c == '\n' {
            if open.len() > 0 && open[open.len() - 1] == '\r' {
                open.pop();
            }
            let line = open;
            let ghost prev = done.deep_view();
            let ghost lv = line.deep_view();
            assert(line.deep_view() =~= line@);
            done.push(line);
            open = Vec::new();
            proof {
                assert(done.deep_view() =~= prev.push(lv));
                assert(done.deep_view() =~= line_scan(s@.take(k + 1)).0);
            }
        } else {
            open.push(c);
        }
        k = k + 1;
    }
    proof {
        assert(s@.take(s@.len() as int) == s@);
    }
    if open.len() > 0 {
        let ghost prev = done.deep_view();
        let ghost ov = open.deep_view();
        assert(open.deep_view() =~= open@);
        done.push(open);
        proof {
            assert(done.deep_view() =~= prev.push(ov));
            assert(done.deep_view() =~= text_lines(s@));
        }
    }
    done
}

/// Reading `s` from the left: the words ended by white space so far, and the
/// characters of the word still open.
pub open spec fn word_scan(s: Seq<char>) -> (Seq<Seq<char>>, Seq<char>)
    decreases s.len(),
{
    if s.len() == 0 {
        (Seq::empty(), Seq::empty())
    } else {
        let (done, open) = word_scan(s.drop_last());
        if is_white_space(s.last()) {
            if open.len() > 0 {
                (done.push(open), Seq::empty())
            } else {
                (done, open)
            }
        } else {
            (done, open.push(s.last()))
        }
    }
}

/// The words of `s`, as `str::split_whitespace` yields them: the non-empty runs
/// of characters that are not white space.
pub open spec fn text_words(s: Seq<char>) -> Seq<Seq<char>> {
    let (done, open) = word_scan(s);
    if open.len() > 0 {
        done.push(open)
    } else {
        done
    }
}

/// The words of `s` (see `text_words`).
pub fn words(s: &[char]) -> (r: Vec<Vec<char>>)
    ensures
        r.deep_view() == text_words(s@),
{
    let mut done: Vec<Vec<char>> = Vec::new();
    let mut open: Vec<char> = Vec::new();
    let mut k: usize = 0;
    while k < s.len()
        invariant
            0 <= k <= s.len(),
            (done.deep_view(), open@) == word_scan(s@.take(k as int)),
        decreases s.len() - k,
    {
        let c = s[k];
        proof {
            assert(s@.take(k + 1).drop_last() == s@.take(k as int));
        }
        if is_whitespace(c) {
            if open.len() > 0 {
                let word = open;
                let ghost prev = done.deep_view();
                let ghost wv = word.deep_view();
                assert(word.deep_view() =~= word@);
                done.push(word);
                open = Vec::new();
                proof {
                    assert(done.deep_view() =~= prev.push(wv));
                    assert(done.deep_view() =~= word_scan(s@.take(k + 1)).0);
                }
            }
        } else {
            open.push(c);
        }
        k = k + 1;
    }
    proof {
        assert(s@.take(s@.len() as int) == s@);
    }
    if open.len() > 0 {
        let ghost prev = done.deep_view();
        let ghost ov = open.deep_view();
        assert(open.deep_view() =~= open@);
        done.push(open);
        proof {
            assert(done.deep_view() =~= prev.push(ov));
            assert(done.deep_view() =~= text_words(s@));
        }
    }
    done
}

} // verus!

verus! {

/// The value of a string of decimal digits.
pub open spec fn digits_value(s: Seq<char>) -> int
    decreases s.len(),
{
    if s.len() == 0 {
        0
    } else {
        digits_value(s.drop_last()) * 10 + (s.last() as int - 48)
    }
}

/// Whether every character of `s` is an ASCII digit.
pub open spec fn all_digits(s: Seq<char>) -> bool {
    forall|i: int| 0 <= i < s.len() ==> '0' <= #[trigger] s[i] <= '9'
}

/// What `str::parse::<u16>` gives: an optional `+`, then one or more ASCII
/// digits whose value is at most 65535.
pub open spec fn parsed_u16(s: Seq<char>) -> Option<u16> {
    let digits = if s.len() > 0 && s[0] == '+' {
        s.skip(1)
    } else {
        s
    };
    if digits.len() > 0 && all_digits(digits) && digits_value(digits) <= 65535 {
        Some(digits_value(digits) as u16)
    } else {
        None
    }
}

proof fn lemma_digits_value_nonneg(s: Seq<char>)
    requires
        all_digits(s),
    ensures
        digits_value(s) >= 0,
    decreases s.len(),
{
    if s.len() > 0 {
        assert(all_digits(s.drop_last())) by {
            assert forall|i: int| 0 <= i < s.drop_last().len() implies '0' <= #[trigger] s.drop_last()[i] <= '9' by {
                assert(s.drop_last()[i] == s[i]);
            }
        }
        lemma_digits_value_nonneg(s.drop_last());
        assert(s[s.len() - 1] == s.last());
    }
}

/// The value of the digits of `s` from `from` on, when all are digits and the
/// value is at most `limit`.
fn digits_upto(s: &[char], from: usize, limit: u64) -> (r: Option<u64>)
    requires
        from <= s@.len(),
        limit <= 0xffff_ffff,
    ensures
        r matches Some(v) ==> {
            &&& all_digits(s@.skip(from as int))
            &&& digits_value(s@.skip(from as int)) == v
            &&& v <= limit
        },
        r is None ==> !all_digits(s@.skip(from as int)) || digits_value(s@.skip(from as int))
            > limit,
{
    let ghost d = s@.skip(from as int);
    let mut value: u64 = 0;
    let mut over = false;
    let mut k: usize = from;
    while k < s.len()
        invariant
            from <= k <= s@.len(),
            d == s@.skip(from as int),
            limit <= 0xffff_ffff,
            all_digits(d.take(k - from)),
            over ==> digits_value(d.take(k - from)) > limit,
            !over ==> value == digits_value(d.take(k - from)) && value <= limit,
        decreases s.len() - k,
    {
        let c = s[k];
        proof {
            assert(d.take(k - from + 1).drop_last() == d.take(k - from));
            assert(d.take(k - from + 1).last() == c);
        }
        if c < '0' || c > '9' {
            proof {
                assert(d[k - from] == c);
            }
            return None;
        }
        proof {
            assert(all_digits(d.take(k - from + 1))) by {
                assert forall|i: int| 0 <= i < d.take(k - from + 1).len() implies '0'
                    <= #[trigger] d.take(k - from + 1)[i] <= '9' by {
                    if i < k - from {
                        assert(d.take(k - from + 1)[i] == d.take(k - from)[i]);
                    }
                }
            }
            lemma_digits_value_nonneg(d.take(k - from));
        }
        if !over {
            let digit: u64 = ((c as u32) - 48) as u64;
            let next: u64 = value * 10 + digit;
            if next > limit {
                over = true;
            } else {
                value = next;
            }
        }
        k = k + 1;
    }
    proof {
        assert(d.take(s@.len() - from) == d);
    }
    if over {
        None
    } else {
        Some(value)
    }
}

/// Parses `s` as `str::parse::<u16>` does (see `parsed_u16`).
pub fn parse_u16(s: &[char]) -> (r: Option<u16>)
    ensures
        r == parsed_u16(s@),
{
    let from: usize = if s.len() > 0 && s[0] == '+' {
        1
    } else {
        0
    };
    proof {
        assert(s@.skip(0) == s@);
    }
    if from >= s.len() {
        return None;
    }
    match digits_upto(s, from, 65535) {
        Some(v) => Some(v as u16),
        None => None,
    }
}

/// `s` without the copies of `c` at its start.
pub open spec fn trim_start(s: Seq<char>, c: char) -> Seq<char>
    decreases s.len(),
{
    if s.len() > 0 && s[0] == c {
        trim_start(s.skip(1), c)
    } else {
        s
    }
}

/// `s` without the copies of `c` at its end.
pub open spec fn trim_end(s: Seq<char>, c: char) -> Seq<char>
    decreases s.len(),
{
    if s.len() > 0 && s.last() == c {
        trim_end(s.drop_last(), c)
    } else {
        s
    }
}

/// `s` without the copies of `c` at either end, as `str::trim_matches(c)` gives it.
pub open spec fn trim_both(s: Seq<char>, c: char) -> Seq<char> {
    trim_end(trim_start(s, c), c)
}

/// `s` without the copies of `c` at either end (see `trim_both`).
pub fn trim_matches(s: &[char], c: char) -> (r: Vec<char>)
    ensures
        r@ == trim_both(s@, c),
{
    let mut a: usize = 0;
    proof {
        assert(s@.skip(0) == s@);
    }
    while a < s.len() && s[a] == c
        invariant
            0 <= a <= s@.len(),
            trim_start(s@, c) == trim_start(s@.skip(a as int), c),
        decreases s.len() - a,
    {
        proof {
            assert(s@.skip(a as int).skip(1) == s@.skip(a + 1));
        }
        a = a + 1;
    }
    let ghost front = s@.skip(a as int);
    proof {
        if front.len() > 0 {
            assert(front[0] == s@[a as int]);
        }
        assert(trim_start(s@, c) == front);
    }
    let mut b: usize = s.len();
    while b > a && s[b - 1] == c
        invariant
            a <= b <= s@.len(),
            front == s@.skip(a as int),
            trim_end(front, c) == trim_end(s@.subrange(a as int, b as int), c),
        decreases b,
    {
        proof {
            assert(s@.subrange(a as int, b as int).drop_last() == s@.subrange(a as int, b - 1));
        }
        b = b - 1;
    }
    proof {
        assert(front == s@.subrange(a as int, s@.len() as int));
    }
    let mut out: Vec<char> = Vec::new();
    let mut k: usize = a;
    while k < b
        invariant
            a <= k <= b <= s@.len(),
            out@ == s@.subrange(a as int, k as int),
        decreases b - k,
    {
        out.push(s[k]);
        proof {
            assert(s@.subrange(a as int, k + 1) == s@.subrange(a as int, k as int).push(s@[k as int]));
        }
        k = k + 1;
    }
    out
}

} // verus!

verus! {

/// What `str::parse::<i32>` gives: an optional sign, then one or more ASCII
/// digits whose signed value fits in an `i32`.
pub open spec fn parsed_i32(s: Seq<char>) -> Option<i32> {
    let negative = s.len() > 0 && s[0] == '-';
    let digits = if s.len() > 0 && (s[0] == '+' || s[0] == '-') {
        s.skip(1)
    } else {
        s
    };
    if digits.len() > 0 && all_digits(digits) {
        if negative && digits_value(digits) <= 0x8000_0000 {
            Some((-digits_value(digits)) as i32)
        } else if !negative && digits_value(digits) <= 0x7fff_ffff {
            Some(digits_value(digits) as i32)
        } else {
            None
        }
    } else {
        None
    }
}

/// Parses `s` as `str::parse::<i32>` does (see `parsed_i32`).
pub fn parse_i32(s: &[char]) -> (r: Option<i32>)
    ensures
        r == parsed_i32(s@),
{
    let signed = s.len() > 0 && (s[0] == '+' || s[0] == '-');
    let negative = s.len() > 0 && s[0] == '-';
    let from: usize = if signed {
        1
    } else {
        0
    };
    proof {
        assert(s@.skip(0) == s@);
    }
    if from >= s.len() {
        return None;
    }
    let limit: u64 = if negative {
        0x8000_0000
    } else {
        0x7fff_ffff
    };
    match digits_upto(s, from, limit) {
        Some(v) => {
            if negative {
                let w: i64 = v as i64;
                Some((-w) as i32)
            } else {
                Some(v as i32)
            }
        },
        None => None,
    }
}

/// `s` without white space at its start.
pub open spec fn trim_start_ws(s: Seq<char>) -> Seq<char>
    decreases s.len(),
{
    if s.len() > 0 && is_white_space(s[0]) {
        trim_start_ws(s.skip(1))
    } else {
        s
    }
}

/// `s` without white space at its end.
pub open spec fn trim_end_ws(s: Seq<char>) -> Seq<char>
    decreases s.len(),
{
    if s.len() > 0 && is_white_space(s.last()) {
        trim_end_ws(s.drop_last())
    } else {
        s
    }
}

/// `s` without white space at either end, as `str::trim` gives it.
pub open spec fn trim_ws(s: Seq<char>) -> Seq<char> {
    trim_end_ws(trim_start_ws(s))
}

/// `s` without white space at either end (see `trim_ws`).
pub fn trim(s: &[char]) -> (r: Vec<char>)
    ensures
        r@ == trim_ws(s@),
{
    let mut a: usize = 0;
    proof {
        assert(s@.skip(0) == s@);
    }
    while a < s.len() && is_whitespace(s[a])
        invariant
            0 <= a <= s@.len(),
            trim_start_ws(s@) == trim_start_ws(s@.skip(a as int)),
        decreases s.len() - a,
    {
        proof {
            assert(s@.skip(a as int).skip(1) == s@.skip(a + 1));
        }
        a = a + 1;
    }
    let ghost front = s@.skip(a as int);
    proof {
        if front.len() > 0 {
            assert(front[0] == s@[a as int]);
        }
        assert(trim_start_ws(s@) == front);
    }
    let mut b: usize = s.len();
    while b > a && is_whitespace(s[b - 1])
        invariant
            a <= b <= s@.len(),
            front == s@.skip(a as int),
            trim_end_ws(front) == trim_end_ws(s@.subrange(a as int, b as int)),
        decreases b,
    {
        proof {
            assert(s@.subrange(a as int, b as int).drop_last() == s@.subrange(a as int, b - 1));
        }
        b = b - 1;
    }
    proof {
        assert(front == s@.subrange(a as int, s@.len() as int));
    }
    slice_chars(s, a, b)
}

} // verus!

verus! {

proof fn lemma_digit_char(d: nat)
    requires
        d < 10,
    ensures
        '0' <= digit_char(d) <= '9',
        digit_char(d) as int - 48 == d,
{
}

pub proof fn lemma_nat_decimal(n: nat)
    ensures
        nat_decimal(n).len() > 0,
        all_digits(nat_decimal(n)),
        digits_value(nat_decimal(n)) == n,
    decreases n,
{
    if n < 10 {
        lemma_digit_char(n);
        let s = nat_decimal(n);
        assert(s.drop_last() =~= Seq::<char>::empty());
        assert(s.last() == digit_char(n));
        assert(digits_value(s) == digits_value(s.drop_last()) * 10 + (s.last() as int - 48));
    } else {
        lemma_nat_decimal(n / 10);
        lemma_digit_char(n % 10);
        let s = nat_decimal(n);
        assert(s.drop_last() =~= nat_decimal(n / 10));
        assert(s.last() == digit_char(n % 10));
        assert(digits_value(s) == digits_value(nat_decimal(n / 10)) * 10 + (digit_char(n % 10) as int - 48));
        assert(n == (n / 10) * 10 + n % 10);
        assert forall|i: int| 0 <= i < s.len() implies '0' <= #[trigger] s[i] <= '9' by {
            if i < s.len() - 1 {
                assert(s[i] == nat_decimal(n / 10)[i]);
            }
        }
    }
}

/// A `u16` written in decimal reads back as itself.
pub proof fn law_u16_decimal_round_trip(p: u16)
    ensures
        parsed_u16(nat_decimal(p as nat)) == Some(p),
{
    lemma_nat_decimal(p as nat);
    let s = nat_decimal(p as nat);
    assert(s[0] != '+');
}

/// An `i32` written in decimal reads back as itself.
pub proof fn law_i32_decimal_round_trip(n: i32)
    ensures
        parsed_i32(int_decimal(n as int)) == Some(n),
{
    if n < 0 {
        lemma_nat_decimal((-n) as nat);
        let s = int_decimal(n as int);
        assert(s.skip(1) =~= nat_decimal((-n) as nat));
    } else {
        lemma_nat_decimal(n as nat);
        let s = nat_decimal(n as nat);
        assert(s[0] != '+' && s[0] != '-');
    }
}

} // verus!
