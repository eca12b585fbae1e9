//! Text building blocks: characters, decimal numbers and fixed-point values.

use vstd::prelude::*;
use vstd::string::*;
use vstd::arithmetic::power2::pow2;

verus! {

/// Appends one character to a string: std's `String::push`.
/// Claims that the view of the string grows by exactly that character.
#[verifier::external_body]
pub(crate) fn push_char(s: &mut String, c: char)
    ensures
        final(s)@ == old(s)@.push(c),
{
    s.push(c)
}

/// The character of a decimal digit.
pub open spec fn digit_char(d: nat) -> char {
    (d + 48) as char
}

/// The decimal notation of a natural number, without leading zeros.
pub open spec fn decimal(n: nat) -> Seq<char>
    decreases n,
{
    if n < 10 {
        seq![digit_char(n)]
    } else {
        decimal(n / 10).push(digit_char(n % 10))
    }
}

/// Returns the character of the digit `d`.
pub fn digit(d: u64) -> (c: char)
    requires
        d < 10,
    ensures
        c == digit_char(d as nat),
{
    match d {
        0 => '0',
        1 => '1',
        2 => '2',
        3 => '3',
        4 => '4',
        5 => '5',
        6 => '6',
        7 => '7',
        8 => '8',
        _ => '9',
    }
}

/// Appends the decimal notation of `n`.
pub fn push_decimal(s: &mut String, n: u64)
    ensures
        final(s)@ == old(s)@ + decimal(n as nat),
    decreases n,
{
    if n >= 10 {
        push_decimal(s, n / 10);
    }
    push_char(s, digit(n % 10));
}


/// Appends a string slice.
pub fn push_str(s: &mut String, t: &str)
    ensures
        final(s)@ == old(s)@ + t@,
{
    s.append(t);
}

/// The decimal notation of `n` as a new string.
pub fn decimal_string(n: u64) -> (r: String)
    ensures
        r@ == decimal(n as nat),
{
    let mut r = String::new();
    push_decimal(&mut r, n);
    assert(r@ =~= decimal(n as nat));
    r
}

/// `n / d` rounded to the nearest integer, ties to the even neighbour: how
/// Rust's `{:.N}` formatting rounds a value that lies exactly half-way.
pub open spec fn round_half_even(n: nat, d: nat) -> nat
    recommends
        d > 0,
{
    let q = n / d;
    let r = n % d;
    if 2 * r > d || (2 * r == d && q % 2 == 1) {
        q + 1
    } else {
        q
    }
}

/// How many low bits `b as f64` drops: 0 below 2^53.
pub open spec fn f64_dropped_bits(b: nat) -> nat
    decreases b,
{
    if b < 0x20_0000_0000_0000 {
        0
    } else {
        1 + f64_dropped_bits(b / 2)
    }
}

/// The exact value of the conversion `b as f64` of an unsigned integer:
/// `b` rounded to 53 significant bits, ties to even.
pub open spec fn f64_value(b: nat) -> nat {
    let e = f64_dropped_bits(b);
    round_half_even(b, pow2(e)) * pow2(e)
}

/// `n / d`, ties to even.
pub fn div_round_half_even(n: u128, d: u128) -> (q: u128)
    requires
        d > 0,
        n <= u128::MAX / 4,
        d <= u128::MAX / 4,
    ensures
        q == round_half_even(n as nat, d as nat),
        q <= n / d + 1,
{
    let q = n / d;
    let r = n % d;
    if 2 * r > d || (2 * r == d && q % 2 == 1) {
        q + 1
    } else {
        q
    }
}

/// The exact value of `b as f64`.
pub fn f64_value_of(b: u64) -> (v: u128)
    ensures
        v == f64_value(b as nat),
        v <= 0x1_0000_0000_0000_0000,
        b < 0x20_0000_0000_0000 ==> v == b,
{
    let mut q: u64 = b;
    let mut d: u64 = 1;
    let ghost mut e: nat = 0;
    proof {
        vstd::arithmetic::power2::lemma2_to64();
    }
    while q >= 0x20_0000_0000_0000
        invariant
            d == pow2(e),
            1 <= d <= 2048,
            q == b as nat / d as nat,
            f64_dropped_bits(b as nat) == e + f64_dropped_bits(q as nat),
        decreases q,
    {
        proof {
            vstd::arithmetic::power2::lemma_pow2_unfold(e + 1);
            vstd::arithmetic::div_mod::lemma_div_denominator(b as int, d as int, 2);
            vstd::arithmetic::div_mod::lemma_fundamental_div_mod(b as int, d as int);
            let qq = q as int;
            let dd = d as int;
            let bb = b as int;
            assert(dd * qq <= bb);
            assert(dd < 2048) by (nonlinear_arith)
                requires
                    dd * qq <= bb,
                    qq >= 0x20_0000_0000_0000,
                    bb < 0x1_0000_0000_0000_0000,
                    dd >= 1,
            ;
            vstd::arithmetic::power2::lemma2_to64();
            if e > 11 {
                vstd::arithmetic::power2::lemma_pow2_strictly_increases(11, e);
            }
            if e < 10 {
                vstd::arithmetic::power2::lemma_pow2_strictly_increases(e + 1, 11);
            }
        }
        q = q / 2;
        d = d * 2;
        proof {
            e = e + 1;
        }
    }
    let rounded = div_round_half_even(b as u128, d as u128);
    proof {
        assert(b as nat / d as nat == q);
        let rr = rounded as int;
        let dd = d as int;
        assert(rr * dd <= 0x20_0000_0000_0000 * 2048) by (nonlinear_arith)
            requires
                rr <= 0x20_0000_0000_0000,
                1 <= dd <= 2048,
        ;
        if b < 0x20_0000_0000_0000 {
            assert(e == 0);
            assert(d == 1);
            assert(b as nat / 1 == b as nat);
            assert(b as nat % 1 == 0);
            assert(round_half_even(b as nat, 1) == b);
            assert(rounded == b);
            let rr = rounded as int;
            let dd = d as int;
            assert(rr * dd == rr) by (nonlinear_arith)
                requires
                    dd == 1,
            ;
        }
    }
    rounded * d as u128
}

/// `r / 10` with one decimal: "12.3" for 123.
pub open spec fn fixed1(r: nat) -> Seq<char> {
    decimal(r / 10) + seq!['.', digit_char(r % 10)]
}

/// `r / 100` with two decimals: "12.34" for 1234.
pub open spec fn fixed2(r: nat) -> Seq<char> {
    decimal(r / 100) + seq!['.', digit_char((r / 10) % 10), digit_char(r % 10)]
}

/// Appends `r / 10` with one decimal.
pub fn push_fixed1(s: &mut String, r: u64)
    ensures
        final(s)@ == old(s)@ + fixed1(r as nat),
{
    push_decimal(s, r / 10);
    push_char(s, '.');
    push_char(s, digit(r % 10));
    assert(s@ =~= old(s)@ + fixed1(r as nat));
}

/// Appends `r / 100` with two decimals.
pub fn push_fixed2(s: &mut String, r: u64)
    ensures
        final(s)@ == old(s)@ + fixed2(r as nat),
{
    push_decimal(s, r / 100);
    push_char(s, '.');
    push_char(s, digit((r / 10) % 10));
    push_char(s, digit(r % 10));
    assert(s@ =~= old(s)@ + fixed2(r as nat));
}


/// The characters of a string slice.
pub fn chars_of(s: &str) -> (v: Vec<char>)
    ensures
        v@ == s@,
{
    let mut v: Vec<char> = Vec::new();
    for c in it: s.chars()
        invariant
            v@ == it.seq().subrange(0, it.index() as int),
            it.seq() == s@,
    {
        v.push(c);
    }
    v
}

/// Whether two string slices hold the same characters.
pub fn str_eq(a: &str, b: &str) -> (r: bool)
    ensures
        r == (a@ == b@),
{
    let x = chars_of(a);
    let y = chars_of(b);
    if x.len() != y.len() {
        return false;
    }
    let mut i: usize = 0;
    while i < x.len()
        invariant
            x@ == a@,
            y@ == b@,
            x.len() == y.len(),
            i <= x.len(),
            forall|j: int| 0 <= j < i ==> x@[j] == y@[j],
        decreases x.len() - i,
    {
        if x[i] != y[i] {
            return false;
        }
        i = i + 1;
    }
    assert(x@ =~= y@);
    true
}


/// Unicode `White_Space` (what `char::is_whitespace` tests).
pub open spec fn is_white_space(c: char) -> bool {
    let u = c as u32;
    (9 <= u <= 13) || u == 32 || u == 0x85 || u == 0xA0 || u == 0x1680 || (0x2000 <= u <= 0x200A)
        || u == 0x2028 || u == 0x2029 || u == 0x202F || u == 0x205F || u == 0x3000
}

pub fn is_white_space_char(c: char) -> (r: bool)
    ensures
        r == is_white_space(c),
{
    let u = c as u32;
    (9 <= u && u <= 13) || u == 32 || u == 0x85 || u == 0xA0 || u == 0x1680 || (0x2000 <= u && u
        <= 0x200A) || u == 0x2028 || u == 0x2029 || u == 0x202F || u == 0x205F || u == 0x3000
}

/// The characters without leading white space (`str::trim_start`).
pub open spec fn trim_start(s: Seq<char>) -> Seq<char>
    decreases s.len(),
{
    if s.len() > 0 && is_white_space(s[0]) {
        trim_start(s.drop_first())
    } else {
        s
    }
}

/// The characters without trailing white space (`str::trim_end`).
pub open spec fn trim_end(s: Seq<char>) -> Seq<char>
    decreases s.len(),
{
    if s.len() > 0 && is_white_space(s.last()) {
        trim_end(s.drop_last())
    } else {
        s
    }
}

/// The characters without leading or trailing white space (`str::trim`).
pub open spec fn trim(s: Seq<char>) -> Seq<char> {
    trim_end(trim_start(s))
}

/// A string made of the characters `v[lo..hi]`.
pub fn string_of(v: &Vec<char>, lo: usize, hi: usize) -> (r: String)
    requires
        lo <= hi <= v@.len(),
    ensures
        r@ == v@.subrange(lo as int, hi as int),
{
    let mut r = String::new();
    let mut i = lo;
    while i < hi
        invariant
            lo <= i <= hi,
            hi <= v@.len(),
            r@ == v@.subrange(lo as int, i as int),
        decreases hi - i,
    {
        push_char(&mut r, v[i]);
        assert(r@ =~= v@.subrange(lo as int, i + 1));
        i = i + 1;
    }
    r
}

/// Index of the first character of `v[from..]` that is not white space.
pub fn skip_white_space(v: &Vec<char>, from: usize) -> (i: usize)
    requires
        from <= v@.len(),
    ensures
        from <= i <= v@.len(),
        trim_start(v@.subrange(from as int, v@.len() as int)) == v@.subrange(i as int, v@.len() as int),
{
    let mut i = from;
    while i < v.len() && is_white_space_char(v[i])
        invariant
            from <= i <= v@.len(),
            trim_start(v@.subrange(from as int, v@.len() as int)) == trim_start(
                v@.subrange(i as int, v@.len() as int),
            ),
        decreases v@.len() - i,
    {
        assert(v@.subrange(i as int, v@.len() as int).drop_first() =~= v@.subrange(
            i + 1,
            v@.len() as int,
        ));
        i = i + 1;
    }
    i
}

/// The characters of `s` without leading and trailing white space.
pub fn trim_chars(s: &str) -> (r: String)
    ensures
        r@ == trim(s@),
{
    let v = chars_of(s);
    let lo = skip_white_space(&v, 0);
    assert(v@.subrange(0, v@.len() as int) =~= v@);
    let mut hi = v.len();
    while hi > lo && is_white_space_char(v[hi - 1])
        invariant
            lo <= hi <= v@.len(),
            trim(s@) == trim_end(v@.subrange(lo as int, hi as int)),
        decreases hi,
    {
        assert(v@.subrange(lo as int, hi as int).drop_last() =~= v@.subrange(lo as int, hi - 1));
        hi = hi - 1;
    }
    string_of(&v, lo, hi)
}

/// Whether `p` occurs in `s` at position `i`.
pub open spec fn occurs_at(s: Seq<char>, p: Seq<char>, i: int) -> bool {
    0 <= i && i + p.len() <= s.len() && s.subrange(i, i + p.len()) == p
}

/// The first position at or after `from` where `p` occurs in `s` (`str::find`).
pub open spec fn first_occurrence(s: Seq<char>, p: Seq<char>, from: int) -> Option<int>
    decreases s.len() + 1 - from,
{
    if from < 0 || from + p.len() > s.len() {
        None
    } else if occurs_at(s, p, from) {
        Some(from)
    } else {
        first_occurrence(s, p, from + 1)
    }
}

/// A found occurrence is a real one, and the first from `from` on.
pub proof fn lemma_first_occurrence(s: Seq<char>, p: Seq<char>, from: int)
    ensures
        first_occurrence(s, p, from) matches Some(i) ==> from <= i && occurs_at(s, p, i)
            && i + p.len() <= s.len() && forall|j: int| from <= j < i ==> !occurs_at(s, p, j),
    decreases s.len() + 1 - from,
{
    if from < 0 || from + p.len() > s.len() {
    } else if occurs_at(s, p, from) {
    } else {
        lemma_first_occurrence(s, p, from + 1);
    }
}

/// Whether `p` occurs in `s` at position `i` (executable).
pub fn matches_at(s: &Vec<char>, p: &Vec<char>, i: usize) -> (r: bool)
    ensures
        r == occurs_at(s@, p@, i as int),
{
    if i > s.len() || p.len() > s.len() - i {
        return false;
    }
    let mut j: usize = 0;
    let slen = s.len();
    while j < p.len()
        invariant
            slen == s@.len(),
            i <= s@.len(),
            i + p@.len() <= s@.len(),
            j <= p@.len(),
            forall|k: int| 0 <= k < j ==> s@[i + k] == p@[k],
        decreases p@.len() - j,
    {
        if s[i + j] != p[j] {
            assert(s@.subrange(i as int, i + p@.len())[j as int] != p@[j as int]);
            return false;
        }
        j = j + 1;
    }
    assert(s@.subrange(i as int, i + p@.len()) =~= p@);
    true
}

/// The first position at or after `from` where `p` occurs in `s`.
pub fn find_from(s: &Vec<char>, p: &Vec<char>, from: usize) -> (r: Option<usize>)
    ensures
        r matches Some(i) ==> first_occurrence(s@, p@, from as int) == Some(i as int),
        r is None ==> first_occurrence(s@, p@, from as int) is None,
{
    if p.len() > s.len() || from > s.len() - p.len() {
        return None;
    }
    let last = s.len() - p.len();
    let mut i = from;
    loop
        invariant
            from <= i <= last,
            last + p@.len() == s@.len(),
            first_occurrence(s@, p@, from as int) == first_occurrence(s@, p@, i as int),
        decreases last - i,
    {
        if matches_at(s, p, i) {
            return Some(i);
        }
        if i == last {
            assert(first_occurrence(s@, p@, i + 1) is None);
            return None;
        }
        i = i + 1;
    }
}

/// Whether `needle` occurs in `hay`.
pub open spec fn contains_seq(hay: Seq<char>, needle: Seq<char>) -> bool {
    first_occurrence(hay, needle, 0) is Some
}

pub fn contains_str(hay: &str, needle: &str) -> (r: bool)
    ensures
        r == contains_seq(hay@, needle@),
{
    let h = chars_of(hay);
    let n = chars_of(needle);
    find_from(&h, &n, 0).is_some()
}

/// Whether `s` starts with `p`.
pub open spec fn starts_with(s: Seq<char>, p: Seq<char>) -> bool {
    occurs_at(s, p, 0)
}

pub fn starts_with_str(s: &str, p: &str) -> (r: bool)
    ensures
        r == starts_with(s@, p@),
{
    let a = chars_of(s);
    let b = chars_of(p);
    matches_at(&a, &b, 0)
}


/// Whether the character is an ASCII decimal digit.
pub open spec fn is_digit(c: char) -> bool {
    '0' <= c && c <= '9'
}

/// Whether every character is an ASCII decimal digit.
pub open spec fn all_digits(s: Seq<char>) -> bool {
    forall|i: int| 0 <= i < s.len() ==> is_digit(#[trigger] s[i])
}

/// The value of a string of decimal digits.
pub open spec fn digits_value(s: Seq<char>) -> nat
    decreases s.len(),
{
    if s.len() == 0 {
        0
    } else {
        digits_value(s.drop_last()) * 10 + ((s.last() as u32) - 48) as nat
    }
}

/// What `str::parse::<u64>` gives: an optional '+', then at least one
/// ASCII digit and nothing else, and a value that fits.
pub open spec fn spec_parse_u64(s: Seq<char>) -> Option<u64> {
    let body = if s.len() > 0 && s[0] == '+' {
        s.drop_first()
    } else {
        s
    };
    if body.len() == 0 || !all_digits(body) || digits_value(body) > u64::MAX {
        None
    } else {
        Some(digits_value(body) as u64)
    }
}

proof fn lemma_digits_value_grows(s: Seq<char>, i: int)
    requires
        0 <= i <= s.len(),
        all_digits(s),
    ensures
        digits_value(s.subrange(0, i)) <= digits_value(s),
    decreases s.len() - i,
{
    if i < s.len() {
        lemma_digits_value_grows(s, i + 1);
        let p = s.subrange(0, i + 1);
        assert(p.drop_last() =~= s.subrange(0, i));
        assert(is_digit(s[i]));
    } else {
        assert(s.subrange(0, i) =~= s);
    }
}

/// Parses an unsigned decimal number as `str::parse::<u64>` does.
pub fn parse_u64(s: &str) -> (r: Option<u64>)
    ensures
        r == spec_parse_u64(s@),
{
    let cs = chars_of(s);
    let start: usize = if cs.len() > 0 && cs[0] == '+' {
        1
    } else {
        0
    };
    let ghost body = if s@.len() > 0 && s@[0] == '+' {
        s@.drop_first()
    } else {
        s@
    };
    assert(body =~= cs@.subrange(start as int, cs@.len() as int));
    if start == cs.len() {
        return None;
    }
    let mut value: u64 = 0;
    let mut i = start;
    while i < cs.len()
        invariant
            cs@ == s@,
            start <= i <= cs@.len(),
            body == cs@.subrange(start as int, cs@.len() as int),
            body == (if s@.len() > 0 && s@[0] == '+' {
                s@.drop_first()
            } else {
                s@
            }),
            all_digits(cs@.subrange(start as int, i as int)),
            value == digits_value(cs@.subrange(start as int, i as int)),
        decreases cs@.len() - i,
    {
        let c = cs[i];
        let ghost p = cs@.subrange(start as int, i + 1);
        assert(p.drop_last() =~= cs@.subrange(start as int, i as int));
        if !('0' <= c && c <= '9') {
            assert(body[i - start] == c);
            assert(!all_digits(body)) by {
                if all_digits(body) {
                    assert(is_digit(body[i - start]));
                }
            }
            return None;
        }
        let d = (c as u32 - 48) as u64;
        if value > (u64::MAX - d) / 10 {
            proof {
                assert(p.last() == c);
                assert(digits_value(p) == value * 10 + d);
                assert(value * 10 + d > u64::MAX);
                assert(all_digits(p));
                if all_digits(body) {
                    assert(p =~= body.subrange(0, i + 1 - start));
                    lemma_digits_value_grows(body, i + 1 - start);
                }
            }
            return None;
        }
        value = value * 10 + d;
        i = i + 1;
    }
    Some(value)
}


/// The pieces of `s` between line feeds (`str::split('\n')`).
pub open spec fn split_at_line_feeds(s: Seq<char>) -> Seq<Seq<char>>
    decreases s.len(),
{
    if s.len() == 0 {
        seq![Seq::empty()]
    } else {
        let prev = split_at_line_feeds(s.drop_last());
        if s.last() == '\n' {
            prev.push(Seq::empty())
        } else {
            prev.update(prev.len() - 1, prev.last().push(s.last()))
        }
    }
}

/// A line without the carriage return that ended it.
pub open spec fn strip_cr(l: Seq<char>) -> Seq<char> {
    if l.len() > 0 && l.last() == '\r' {
        l.drop_last()
    } else {
        l
    }
}

/// The lines of a text as `str::lines` gives them: split at line feeds,
/// a carriage return before a line feed dropped, and no empty last line
/// after a final line feed.
pub open spec fn split_lines(s: Seq<char>) -> Seq<Seq<char>> {
    let p = split_at_line_feeds(s);
    let ended = p.drop_last().map_values(|l: Seq<char>| strip_cr(l));
    if p.last().len() == 0 {
        ended
    } else {
        ended.push(p.last())
    }
}

/// The lines of a text (`str::lines`).
pub fn lines_of(s: &str) -> (lines: Vec<String>)
    ensures
        lines@.map_values(|l: String| l@) == split_lines(s@),
{
    let cs = chars_of(s);
    let n = cs.len();
    let mut lines: Vec<String> = Vec::new();
    let mut start: usize = 0;
    let mut i: usize = 0;
    assert(cs@.subrange(0, 0) =~= Seq::<char>::empty());
    while i < n
        invariant
            cs@ == s@,
            n == cs@.len(),
            start <= i <= n,
            lines@.map_values(|l: String| l@) == split_at_line_feeds(cs@.subrange(0, i as int)).drop_last().map_values(
                |l: Seq<char>| strip_cr(l),
            ),
            split_at_line_feeds(cs@.subrange(0, i as int)).len() >= 1,
            split_at_line_feeds(cs@.subrange(0, i as int)).last() == cs@.subrange(start as int, i as int),
        decreases n - i,
    {
        let ghost raw = split_at_line_feeds(cs@.subrange(0, i as int));
        let c = cs[i];
        proof {
            let p = cs@.subrange(0, i + 1);
            assert(p.drop_last() =~= cs@.subrange(0, i as int));
            assert(p.last() == c);
        }
        if c == '\n' {
            let end = if i > start && cs[i - 1] == '\r' {
                i - 1
            } else {
                i
            };
            let line = string_of(&cs, start, end);
            let ghost old_lines = lines@;
            lines.push(line);
            proof {
                let cur = cs@.subrange(start as int, i as int);
                assert(line@ == strip_cr(cur)) by {
                    if i > start && cs@[i - 1] == '\r' {
                        assert(cur.last() == cs@[i - 1]);
                        assert(cur.drop_last() =~= cs@.subrange(start as int, end as int));
                    } else {
                        assert(cur =~= cs@.subrange(start as int, end as int));
                    }
                }
                let next = raw.push(Seq::<char>::empty());
                assert(next.drop_last() =~= raw);
                assert(raw =~= raw.drop_last().push(raw.last()));
                assert(raw.map_values(|l: Seq<char>| strip_cr(l)) =~= raw.drop_last().map_values(
                    |l: Seq<char>| strip_cr(l),
                ).push(strip_cr(raw.last())));
                assert(lines@.map_values(|l: String| l@) =~= old_lines.map_values(|l: String| l@).push(line@));
                assert(cs@.subrange(i + 1, i + 1) =~= Seq::<char>::empty());
            }
            start = i + 1;
        } else {
            proof {
                let next = raw.update(raw.len() - 1, raw.last().push(c));
                assert(next.drop_last() =~= raw.drop_last());
                assert(next.last() =~= cs@.subrange(start as int, i + 1));
            }
        }
        i = i + 1;
    }
    assert(cs@.subrange(0, n as int) =~= cs@);
    if start < n {
        let last = string_of(&cs, start, n);
        let ghost old_lines = lines@;
        lines.push(last);
        assert(lines@.map_values(|l: String| l@) =~= old_lines.map_values(|l: String| l@).push(last@));
    } else {
        assert(cs@.subrange(start as int, n as int) =~= Seq::<char>::empty());
    }
    lines
}

/// The white-space separated words of `s` (`str::split_whitespace`).
pub open spec fn words(s: Seq<char>) -> Seq<Seq<char>>
    decreases s.len(),
{
    if s.len() == 0 {
        Seq::empty()
    } else {
        let prev = words(s.drop_last());
        let c = s.last();
        if is_white_space(c) {
            prev
        } else if s.len() >= 2 && !is_white_space(s[s.len() - 2]) && prev.len() > 0 {
            prev.update(prev.len() - 1, prev.last().push(c))
        } else {
            prev.push(seq![c])
        }
    }
}

/// The second word of `s`, if it has one.
pub fn second_word(s: &str) -> (w: Option<String>)
    ensures
        match w {
            Some(x) => words(s@).len() >= 2 && x@ == words(s@)[1],
            None => words(s@).len() < 2,
        },
{
    let cs = chars_of(s);
    let mut ws: Vec<String> = Vec::new();
    let mut i: usize = 0;
    assert(cs@.subrange(0, 0) =~= Seq::<char>::empty());
    while i < cs.len()
        invariant
            cs@ == s@,
            i <= cs@.len(),
            ws@.map_values(|l: String| l@) == words(cs@.subrange(0, i as int)),
        decreases cs@.len() - i,
    {
        let c = cs[i];
        let ghost before = ws@.map_values(|l: String| l@);
        proof {
            let p = cs@.subrange(0, i + 1);
            assert(p.drop_last() =~= cs@.subrange(0, i as int));
            assert(p.last() == c);
            if i >= 1 {
                assert(p[p.len() - 2] == cs@[i - 1]);
            }
        }
        if is_white_space_char(c) {
        } else if i >= 1 && !is_white_space_char(cs[i - 1]) && ws.len() > 0 {
            let last = ws.len() - 1;
            let mut w = ws.remove(last);
            push_char(&mut w, c);
            ws.push(w);
            assert(ws@.map_values(|l: String| l@) =~= before.update(before.len() - 1, before.last().push(c)));
        } else {
            let mut w = String::new();
            push_char(&mut w, c);
            ws.push(w);
            assert(ws@.map_values(|l: String| l@) =~= before.push(seq![c]));
        }
        i = i + 1;
    }
    assert(cs@.subrange(0, cs@.len() as int) =~= cs@);
    if ws.len() >= 2 {
        let w = ws.remove(1);
        Some(w)
    } else {
        None
    }
}

/// `s` with every leading copy of `p` removed (`str::trim_start_matches`).
pub open spec fn strip_prefix_all(s: Seq<char>, p: Seq<char>) -> Seq<char>
    decreases s.len(),
{
    if p.len() > 0 && starts_with(s, p) {
        strip_prefix_all(s.subrange(p.len() as int, s.len() as int), p)
    } else {
        s
    }
}

pub fn trim_start_matches(s: &str, p: &str) -> (r: String)
    ensures
        r@ == strip_prefix_all(s@, p@),
{
    let cs = chars_of(s);
    let ps = chars_of(p);
    let mut i: usize = 0;
    let n = cs.len();
    assert(cs@.subrange(0, cs@.len() as int) =~= cs@);
    while ps.len() > 0 && matches_at(&cs, &ps, i)
        invariant
            n == cs@.len(),
            cs@ == s@,
            ps@ == p@,
            i <= cs@.len(),
            strip_prefix_all(s@, p@) == strip_prefix_all(cs@.subrange(i as int, cs@.len() as int), p@),
        decreases cs@.len() - i,
    {
        let ghost rest = cs@.subrange(i as int, cs@.len() as int);
        assert(rest.subrange(0, p@.len() as int) =~= cs@.subrange(i as int, i + p@.len()));
        assert(rest.subrange(p@.len() as int, rest.len() as int) =~= cs@.subrange(i + p@.len(), cs@.len() as int));
        i = i + ps.len();
    }
    proof {
        let rest = cs@.subrange(i as int, cs@.len() as int);
        if ps@.len() > 0 && starts_with(rest, p@) {
            assert(rest.subrange(0, p@.len() as int) =~= cs@.subrange(i as int, i + p@.len()));
        }
    }
    string_of(&cs, i, cs.len())
}

} // verus!
